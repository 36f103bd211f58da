use vstd::prelude::*;
use vstd::string::*;

verus! {

/// The longest path, in bytes, that the system takes without the `\\?\` prefix.
pub const MAX_PATH: usize = 260;

/// The texts of a vector of strings.
pub open spec fn texts(v: Seq<String>) -> Seq<Seq<char>> {
    v.map_values(|s: String| s@)
}

/// The UTF-16 code units of one character: one unit below U+10000, a
/// surrogate pair above.
pub open spec fn utf16_units(c: char) -> Seq<u16> {
    let v: u32 = c as u32;
    if v < 0x10000 {
        seq![v as u16]
    } else {
        let u: u32 = (v - 0x10000) as u32;
        seq![(0xD800 + u / 0x400) as u16, (0xDC00 + u % 0x400) as u16]
    }
}

/// The UTF-16 encoding of a text.
pub open spec fn utf16_encode(s: Seq<char>) -> Seq<u16>
    decreases s.len(),
{
    if s.len() == 0 {
        seq![]
    } else {
        utf16_encode(s.drop_last()) + utf16_units(s.last())
    }
}

/// The number of units before the first NUL of a wide buffer (all of them when
/// there is none).
pub open spec fn wide_len(w: Seq<u16>) -> nat
    decreases w.len(),
{
    if w.len() == 0 {
        0
    } else if w[0] == 0 {
        0
    } else {
        1 + wide_len(w.drop_first())
    }
}

/// Whether a unit is the first half of a surrogate pair.
pub open spec fn is_high_surrogate(u: u16) -> bool {
    0xD800 <= u <= 0xDBFF
}

/// Whether a unit is the second half of a surrogate pair.
pub open spec fn is_low_surrogate(u: u16) -> bool {
    0xDC00 <= u <= 0xDFFF
}

/// The character of a surrogate pair.
pub open spec fn pair_char(high: u16, low: u16) -> char {
    (0x10000 + (high - 0xD800) * 0x400 + (low - 0xDC00)) as char
}

/// Lossy UTF-16 decoding: a unit outside the surrogate range is its own
/// character, a high surrogate followed by a low one is the character of the
/// pair, and every other surrogate becomes U+FFFD (the unit after an unpaired
/// high surrogate is read afresh).
pub open spec fn utf16_decode_lossy(units: Seq<u16>) -> Seq<char>
    decreases units.len(),
{
    if units.len() == 0 {
        seq![]
    } else if !is_high_surrogate(units[0]) && !is_low_surrogate(units[0]) {
        seq![units[0] as char] + utf16_decode_lossy(units.drop_first())
    } else if is_high_surrogate(units[0]) && units.len() >= 2 && is_low_surrogate(units[1]) {
        seq![pair_char(units[0], units[1])] + utf16_decode_lossy(units.subrange(2, units.len() as int))
    } else {
        seq!['\u{FFFD}'] + utf16_decode_lossy(units.drop_first())
    }
}

/// The text of a wide buffer: its units up to the first NUL, decoded lossily.
pub open spec fn wide_text(w: Seq<u16>) -> Seq<char> {
    utf16_decode_lossy(w.take(wide_len(w) as int))
}

/// Calls `String::from_utf16_lossy`, which decodes UTF-16 and puts U+FFFD in
/// place of each unpaired surrogate. Claimed: the result is
/// `utf16_decode_lossy` of the units.
#[verifier::external_body]
fn string_from_utf16_lossy(units: &[u16]) -> (s: String)
    ensures
        s@ == utf16_decode_lossy(units@),
{
    String::from_utf16_lossy(units)
}

/// Decoding the units of one character followed by more units gives the
/// character followed by the decoding of the rest.
proof fn lemma_decode_units(c: char, rest: Seq<u16>)
    ensures
        utf16_decode_lossy(utf16_units(c) + rest) == seq![c] + utf16_decode_lossy(rest),
{
    let v = c as u32;
    vstd::utf8::char_u32_cast(c, v);
    vstd::utf8::char_is_scalar(c);
    let all = utf16_units(c) + rest;
    if v < 0x10000 {
        assert(all[0] == v);
        assert(all.drop_first() =~= rest);
    } else {
        let u = (v - 0x10000) as u32;
        assert(u <= 0xFFFFF);
        let q = u / 0x400;
        let r = u % 0x400;
        assert(q * 0x400 + r == u) by (nonlinear_arith)
            requires
                q == u / 0x400,
                r == u % 0x400,
        ;
        assert(q <= 0x3FF);
        assert(all[0] == 0xD800 + q);
        assert(all[1] == 0xDC00 + r);
        assert(all.subrange(2, all.len() as int) =~= rest);
        assert(pair_char(all[0], all[1]) == c);
    }
}

/// Decoding the encoding of a text followed by more units gives the text
/// followed by the decoding of the rest.
pub proof fn lemma_decode_encode(s: Seq<char>, rest: Seq<u16>)
    ensures
        utf16_decode_lossy(utf16_encode(s) + rest) == s + utf16_decode_lossy(rest),
    decreases s.len(),
{
    if s.len() == 0 {
        assert(utf16_encode(s) + rest =~= rest);
        assert(s + utf16_decode_lossy(rest) =~= utf16_decode_lossy(rest));
    } else {
        let c = s.last();
        let front = s.drop_last();
        assert(utf16_encode(s) + rest =~= utf16_encode(front) + (utf16_units(c) + rest));
        lemma_decode_encode(front, utf16_units(c) + rest);
        lemma_decode_units(c, rest);
        assert(front + (seq![c] + utf16_decode_lossy(rest)) =~= s + utf16_decode_lossy(rest));
    }
}

proof fn lemma_utf16_encode_push(s: Seq<char>, c: char)
    ensures
        utf16_encode(s.push(c)) == utf16_encode(s) + utf16_units(c),
{
    assert(s.push(c).drop_last() =~= s);
}

/// The encoding of a concatenation is the concatenation of the encodings.
pub proof fn lemma_utf16_encode_concat(a: Seq<char>, b: Seq<char>)
    ensures
        utf16_encode(a + b) == utf16_encode(a) + utf16_encode(b),
    decreases b.len(),
{
    if b.len() == 0 {
        assert(a + b =~= a);
        assert(utf16_encode(b) =~= Seq::<u16>::empty());
        assert(utf16_encode(a) + utf16_encode(b) =~= utf16_encode(a));
    } else {
        lemma_utf16_encode_concat(a, b.drop_last());
        assert((a + b).drop_last() =~= a + b.drop_last());
        assert((a + b).last() == b.last());
        assert(utf16_encode(a) + utf16_encode(b) =~= utf16_encode(a) + utf16_encode(
            b.drop_last(),
        ) + utf16_units(b.last()));
    }
}

/// A text without NUL characters encodes to units none of which is 0.
pub proof fn lemma_utf16_encode_no_nul(s: Seq<char>)
    requires
        !s.contains('\0'),
    ensures
        !utf16_encode(s).contains(0u16),
    decreases s.len(),
{
    if s.len() > 0 {
        assert(!s.drop_last().contains('\0')) by {
            if s.drop_last().contains('\0') {
                let k = choose|k: int| 0 <= k < s.drop_last().len() && s.drop_last()[k] == '\0';
                assert(s[k] == '\0');
            }
        }
        lemma_utf16_encode_no_nul(s.drop_last());
        let c = s.last();
        assert(c != '\0') by {
            assert(s[s.len() - 1] == c);
        }
        lemma_units_no_nul(c);
        let enc = utf16_encode(s);
        assert(enc =~= utf16_encode(s.drop_last()) + utf16_units(c));
        if enc.contains(0u16) {
            let k = choose|k: int| 0 <= k < enc.len() && enc[k] == 0u16;
            if k < utf16_encode(s.drop_last()).len() {
                assert(utf16_encode(s.drop_last())[k] == 0u16);
            } else {
                assert(utf16_units(c)[k - utf16_encode(s.drop_last()).len()] == 0u16);
            }
        }
    }
}

proof fn lemma_units_no_nul(c: char)
    requires
        c != '\0',
    ensures
        forall|k: int| 0 <= k < utf16_units(c).len() ==> utf16_units(c)[k] != 0u16,
{
    let v: u32 = c as u32;
    assert(v != 0);
    if v < 0x10000 {
        assert(utf16_units(c)[0] == v);
    } else {
        assert(v <= 0x10FFFF);
    }
}

/// `wide_len` of a buffer is the index of its first NUL, or its length.
pub proof fn lemma_wide_len_at(w: Seq<u16>, n: int)
    requires
        0 <= n <= w.len(),
        forall|j: int| 0 <= j < n ==> w[j] != 0,
        n == w.len() || w[n] == 0,
    ensures
        wide_len(w) == n,
    decreases n,
{
    if n > 0 {
        lemma_wide_len_at(w.drop_first(), n - 1);
    } else if w.len() > 0 {
        assert(w[0] == 0);
    }
}

/// Appends the UTF-16 encoding of a text to a buffer of units.
pub fn push_utf16(out: &mut Vec<u16>, s: &str)
    ensures
        final(out)@ == old(out)@ + utf16_encode(s@),
{
    let n: usize = s.unicode_len();
    let ghost start = out@;
    for i in 0..n
        invariant
            n == s@.len(),
            out@ == start + utf16_encode(s@.take(i as int)),
    {
        let c = s.get_char(i);
        let v: u32 = c as u32;
        proof {
            lemma_utf16_encode_push(s@.take(i as int), c);
            assert(s@.take(i as int).push(c) =~= s@.take(i + 1));
        }
        if v < 0x10000 {
            out.push(v as u16);
        } else {
            let u: u32 = v - 0x10000;
            out.push((0xD800 + u / 0x400) as u16);
            out.push((0xDC00 + u % 0x400) as u16);
        }
        assert(out@ =~= start + utf16_encode(s@.take(i + 1)));
    }
    assert(s@.take(n as int) =~= s@);
}

/// Encodes a text as a NUL-terminated wide string, the form the system takes.
pub fn encode_wide(s: &str) -> (w: Vec<u16>)
    ensures
        w@ == utf16_encode(s@).push(0),
{
    let mut w: Vec<u16> = Vec::new();
    push_utf16(&mut w, s);
    assert(w@ =~= utf16_encode(s@));
    w.push(0);
    w
}

/// Decodes a wide string up to its first NUL (or to its end when it holds
/// none), replacing ill-formed UTF-16 as `String::from_utf16_lossy` does.
pub fn decode_wide(wide: &[u16]) -> (s: String)
    ensures
        s@ == wide_text(wide@),
{
    let mut units: Vec<u16> = Vec::new();
    let mut i: usize = 0;
    while i < wide.len() && wide[i] != 0
        invariant
            i <= wide@.len(),
            units@ == wide@.take(i as int),
            forall|j: int| 0 <= j < i ==> wide@[j] != 0,
        decreases wide@.len() - i,
    {
        units.push(wide[i]);
        assert(wide@.take(i as int).push(wide@[i as int]) =~= wide@.take(i + 1));
        i = i + 1;
    }
    proof {
        lemma_wide_len_at(wide@, i as int);
    }
    string_from_utf16_lossy(units.as_slice())
}

/// Decoding what `encode_wide` produced for a text without NUL characters
/// gives the text back.
pub proof fn law_wide_roundtrip(s: Seq<char>)
    requires
        !s.contains('\0'),
    ensures
        wide_text(utf16_encode(s).push(0)) == s,
{
    let e = utf16_encode(s);
    lemma_utf16_encode_no_nul(s);
    assert forall|j: int| 0 <= j < e.len() implies e.push(0)[j] != 0 by {
        if e.push(0)[j] == 0 {
            assert(e[j] == 0u16);
        }
    }
    lemma_wide_len_at(e.push(0), e.len() as int);
    assert(e.push(0).take(e.len() as int) =~= e);
    lemma_decode_encode(s, Seq::empty());
    assert(e + Seq::<u16>::empty() =~= e);
    assert(s + Seq::<char>::empty() =~= s);
}

/// Whether a path begins with two backslashes (a UNC path).
pub open spec fn starts_unc(p: Seq<char>) -> bool {
    p.len() >= 2 && p[0] == '\\' && p[1] == '\\'
}

/// The form of a path that the system takes: paths of `MAX_PATH` bytes or more
/// get the `\\?\` prefix (`\\?\UNC\` in place of the two leading backslashes
/// of a UNC path); shorter ones are unchanged.
pub open spec fn prefixed_spec(path: Seq<char>, byte_len: nat) -> Seq<char> {
    if byte_len < MAX_PATH {
        path
    } else if starts_unc(path) {
        "\\\\?\\UNC\\"@ + path.skip(2)
    } else {
        "\\\\?\\"@ + path
    }
}

/// Gives a path the long-path prefix when it is `MAX_PATH` bytes long or longer.
pub fn prefixed(path: &str) -> (r: String)
    ensures
        r@ == prefixed_spec(path@, path.len() as nat),
{
    if path.len() >= MAX_PATH {
        let n: usize = path.unicode_len();
        if n >= 2 && path.get_char(0) == '\\' && path.get_char(1) == '\\' {
            let rest = path.substring_char(2, n);
            let mut r = String::from_str("\\\\?\\UNC\\");
            r.append(rest);
            assert(path@.subrange(2, n as int) =~= path@.skip(2));
            r
        } else {
            let mut r = String::from_str("\\\\?\\");
            r.append(path);
            r
        }
    } else {
        String::from_str(path)
    }
}

} // verus!
