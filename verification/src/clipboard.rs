use vstd::prelude::*;
use crate::wide::{texts, decode_wide, encode_wide, lemma_utf16_encode_concat, push_utf16, utf16_encode, wide_text, utf16_decode_lossy, lemma_decode_encode, law_wide_roundtrip};

verus! {

/// What the files on the clipboard are offered for.
#[derive(Debug, Clone, Copy, PartialEq, Eq, Structural)]
pub enum Operation {
    NoEffect,
    Copy,
    Move,
}

/// The files on the clipboard and the operation they are offered for.
#[derive(Debug, Clone)]
pub struct ClipboardData {
    pub operation: Operation,
    pub urls: Vec<String>,
}

/// Drop-effect bit of a copy.
pub const DROPEFFECT_COPY: u32 = 1;

/// Drop-effect bit of a move.
pub const DROPEFFECT_MOVE: u32 = 2;

/// Drop effect of neither.
pub const DROPEFFECT_NONE: u32 = 0;

/// The operation a preferred drop effect stands for: the copy bit wins over
/// the move bit; no effect at all (or no bit of either) is `None`.
pub open spec fn operation_of_effect(effect: Option<u32>) -> Operation {
    match effect {
        Some(e) => if e & DROPEFFECT_COPY != 0 {
            Operation::Copy
        } else if e & DROPEFFECT_MOVE != 0 {
            Operation::Move
        } else {
            Operation::NoEffect
        },
        None => Operation::NoEffect,
    }
}

/// The drop effect written to the clipboard for an operation.
pub open spec fn effect_of_operation(operation: Operation) -> u32 {
    match operation {
        Operation::Copy => DROPEFFECT_COPY,
        Operation::Move => DROPEFFECT_MOVE,
        Operation::NoEffect => DROPEFFECT_NONE,
    }
}

/// Reads the preferred drop effect found on the clipboard (`None` when there
/// was none to read) as an operation.
pub fn operation_from_drop_effect(effect: Option<u32>) -> (op: Operation)
    ensures
        op == operation_of_effect(effect),
{
    match effect {
        Some(e) => if e & DROPEFFECT_COPY != 0 {
            Operation::Copy
        } else if e & DROPEFFECT_MOVE != 0 {
            Operation::Move
        } else {
            Operation::NoEffect
        },
        None => Operation::NoEffect,
    }
}

/// The drop effect to put on the clipboard for an operation.
pub fn drop_effect_of(operation: Operation) -> (effect: u32)
    ensures
        effect == effect_of_operation(operation),
{
    match operation {
        Operation::Copy => DROPEFFECT_COPY,
        Operation::Move => DROPEFFECT_MOVE,
        Operation::NoEffect => DROPEFFECT_NONE,
    }
}

/// Any drop effect with the copy bit reads as a copy; without it, any with the
/// move bit reads as a move; with neither, as no operation; and no effect at
/// all reads as no operation.
pub proof fn law_drop_effect_bits(e: u32)
    ensures
        e & 1 != 0 ==> operation_of_effect(Some(e)) == Operation::Copy,
        e & 1 == 0 && e & 2 != 0 ==> operation_of_effect(Some(e)) == Operation::Move,
        e & 1 == 0 && e & 2 == 0 ==> operation_of_effect(Some(e)) == Operation::NoEffect,
        operation_of_effect(None) == Operation::NoEffect,
        (e | 1) & 1 != 0,
{
    assert((e | 1) & 1 != 0) by (bit_vector);
}

/// Writing an operation to the clipboard and reading it back gives the same
/// operation.
pub proof fn law_drop_effect_roundtrip(operation: Operation)
    ensures
        operation_of_effect(Some(effect_of_operation(operation))) == operation,
{
    assert(1u32 & 1u32 != 0) by (bit_vector);
    assert(2u32 & 1u32 == 0) by (bit_vector);
    assert(2u32 & 2u32 != 0) by (bit_vector);
    assert(0u32 & 1u32 == 0) by (bit_vector);
    assert(0u32 & 2u32 == 0) by (bit_vector);
}

/// The clipboard's files as read from the system: nothing when no file list
/// is offered; otherwise the operation of the preferred drop effect and the
/// text of each wide path buffer, in order.
pub fn read_urls_from_clipboard(
    file_list_available: bool,
    drop_effect: Option<u32>,
    buffers: &Vec<Vec<u16>>,
) -> (data: ClipboardData)
    ensures
        !file_list_available ==> data.operation == Operation::NoEffect && data.urls@.len() == 0,
        file_list_available ==> {
            &&& data.operation == operation_of_effect(drop_effect)
            &&& data.urls@.len() == buffers@.len()
            &&& forall|i: int|
                0 <= i < buffers@.len() ==> #[trigger] data.urls@[i]@ == wide_text(buffers@[i]@)
        },
{
    let mut data = ClipboardData { operation: Operation::NoEffect, urls: Vec::new() };
    if file_list_available {
        let operation = operation_from_drop_effect(drop_effect);
        let mut urls: Vec<String> = Vec::new();
        for i in 0..buffers.len()
            invariant
                urls@.len() == i,
                forall|j: int| 0 <= j < i ==> #[trigger] urls@[j]@ == wide_text(buffers@[j]@),
        {
            urls.push(decode_wide(buffers[i].as_slice()));
        }
        data.operation = operation;
        data.urls = urls;
    }
    data
}

/// The paths joined by NUL characters.
pub open spec fn nul_join(paths: Seq<Seq<char>>) -> Seq<char>
    decreases paths.len(),
{
    if paths.len() == 0 {
        seq![]
    } else if paths.len() == 1 {
        paths[0]
    } else {
        nul_join(paths.drop_last()) + seq!['\0'] + paths.last()
    }
}

/// The file list of a `DROPFILES` block: the paths separated by NUL and
/// closed by two more NULs.
pub open spec fn file_list(paths: Seq<Seq<char>>) -> Seq<char> {
    nul_join(paths) + seq!['\0', '\0']
}

/// The little-endian bytes of a sequence of 16-bit units.
pub open spec fn le_bytes(units: Seq<u16>) -> Seq<u8>
    decreases units.len(),
{
    if units.len() == 0 {
        seq![]
    } else {
        le_bytes(units.drop_last()) + seq![
            (units.last() % 256) as u8,
            (units.last() / 256) as u8,
        ]
    }
}

/// Size in bytes of the `DROPFILES` header.
pub const DROPFILES_SIZE: usize = 20;

/// The `DROPFILES` header of a wide file list: the list starts right after
/// the header (`pFiles` = 20), the drop point is (0, 0), `fNC` is false and
/// `fWide` is true; each field little-endian.
pub open spec fn dropfiles_header() -> Seq<u8> {
    seq![20u8, 0, 0, 0, 0, 0, 0, 0, 0, 0, 0, 0, 0, 0, 0, 0, 1, 0, 0, 0]
}

/// The bytes put on the clipboard for a list of paths: the header, then the
/// file list in UTF-16.
pub open spec fn dropfiles_bytes(paths: Seq<Seq<char>>) -> Seq<u8> {
    dropfiles_header() + le_bytes(utf16_encode(file_list(paths)))
}

proof fn lemma_le_bytes_push(units: Seq<u16>, u: u16)
    ensures
        le_bytes(units.push(u)) == le_bytes(units) + seq![(u % 256) as u8, (u / 256) as u8],
{
    assert(units.push(u).drop_last() =~= units);
}

proof fn lemma_nul_join_push(paths: Seq<Seq<char>>, p: Seq<char>)
    ensures
        paths.len() == 0 ==> nul_join(paths.push(p)) == p,
        paths.len() > 0 ==> nul_join(paths.push(p)) == nul_join(paths) + seq!['\0'] + p,
{
    assert(paths.push(p).drop_last() =~= paths);
    if paths.len() == 0 {
        assert(paths.push(p)[0] == p);
    }
}

proof fn lemma_utf16_nul()
    ensures
        utf16_encode(seq!['\0']) == seq![0u16],
        utf16_encode(seq!['\0', '\0']) == seq![0u16, 0u16],
{
    assert(seq!['\0'].drop_last() =~= Seq::<char>::empty());
    assert(seq!['\0', '\0'].drop_last() =~= seq!['\0']);
    assert(('\0' as u32) == 0);
    assert(utf16_encode(Seq::<char>::empty()) =~= Seq::<u16>::empty());
    assert(utf16_encode(seq!['\0']) =~= seq![0u16]);
    assert(utf16_encode(seq!['\0', '\0']) =~= seq![0u16, 0u16]);
}

/// The UTF-16 units of the file list of `paths`.
fn file_list_units(paths: &Vec<String>) -> (units: Vec<u16>)
    ensures
        units@ == utf16_encode(file_list(texts(paths@))),
{
    let mut units: Vec<u16> = Vec::new();
    for i in 0..paths.len()
        invariant
            units@ == utf16_encode(nul_join(texts(paths@).take(i as int))),
    {
        let ghost before = texts(paths@).take(i as int);
        let ghost p = paths@[i as int]@;
        proof {
            assert(texts(paths@).take(i + 1) =~= before.push(p));
            lemma_nul_join_push(before, p);
            lemma_utf16_nul();
        }
        if i > 0 {
            units.push(0);
            proof {
                lemma_utf16_encode_concat(nul_join(before), seq!['\0']);
                assert(units@ =~= utf16_encode(nul_join(before) + seq!['\0']));
                lemma_utf16_encode_concat(nul_join(before) + seq!['\0'], p);
            }
        } else {
            assert(before.len() == 0);
            assert(utf16_encode(nul_join(before)) =~= Seq::<u16>::empty());
        }
        push_utf16(&mut units, paths[i].as_str());
        assert(units@ =~= utf16_encode(nul_join(texts(paths@).take(i + 1))));
    }
    assert(texts(paths@).take(paths@.len() as int) =~= texts(paths@));
    proof {
        lemma_utf16_nul();
        lemma_utf16_encode_concat(nul_join(texts(paths@)), seq!['\0', '\0']);
    }
    units.push(0);
    units.push(0);
    assert(units@ =~= utf16_encode(nul_join(texts(paths@))) + seq![0u16, 0u16]);
    units
}

/// The bytes to place in the clipboard's global memory for a list of paths:
/// a `DROPFILES` header followed by the NUL-separated, double-NUL-terminated
/// file list in UTF-16.
pub fn dropfiles_payload(paths: &Vec<String>) -> (bytes: Vec<u8>)
    ensures
        bytes@ == dropfiles_bytes(texts(paths@)),
{
    let units = file_list_units(paths);
    let mut bytes: Vec<u8> = vec![20u8, 0, 0, 0, 0, 0, 0, 0, 0, 0, 0, 0, 0, 0, 0, 0, 1, 0, 0, 0];
    assert(bytes@ =~= dropfiles_header());
    for i in 0..units.len()
        invariant
            bytes@ == dropfiles_header() + le_bytes(units@.take(i as int)),
    {
        let u: u16 = units[i];
        proof {
            lemma_le_bytes_push(units@.take(i as int), u);
            assert(units@.take(i as int).push(u) =~= units@.take(i + 1));
        }
        bytes.push((u % 256) as u8);
        bytes.push((u / 256) as u8);
        assert(bytes@ =~= dropfiles_header() + le_bytes(units@.take(i + 1)));
    }
    assert(units@.take(units@.len() as int) =~= units@);
    bytes
}

/// The number of UTF-16 units of the NUL-terminated wide form of each path,
/// summed.
pub open spec fn wide_units_total(paths: Seq<Seq<char>>) -> nat
    decreases paths.len(),
{
    if paths.len() == 0 {
        0
    } else {
        wide_units_total(paths.drop_last()) + utf16_encode(paths.last()).len() + 1
    }
}

/// The size of the global memory block allocated for a `DROPFILES` block:
/// four bytes, two bytes per unit of each NUL-terminated wide path, the
/// header, and two bytes for the final NUL.
pub open spec fn dropfiles_alloc_spec(paths: Seq<Seq<char>>) -> nat {
    4 + 2 * wide_units_total(paths) + DROPFILES_SIZE as nat + 2
}

/// The size of the global memory block to allocate for the `DROPFILES` block
/// of `paths`; `None` when it does not fit in a `usize`.
pub fn dropfiles_alloc_size(paths: &Vec<String>) -> (size: Option<usize>)
    ensures
        match size {
            Some(n) => n == dropfiles_alloc_spec(texts(paths@)),
            None => dropfiles_alloc_spec(texts(paths@)) > usize::MAX,
        },
{
    let mut total: usize = 4;
    for i in 0..paths.len()
        invariant
            total == 4 + 2 * wide_units_total(texts(paths@).take(i as int)),
    {
        let ghost before = texts(paths@).take(i as int);
        proof {
            assert(texts(paths@).take(i + 1).drop_last() =~= before);
            assert(texts(paths@).take(i + 1).last() == paths@[i as int]@);
        }
        let wide = encode_wide(paths[i].as_str());
        let bytes: usize = match wide.len().checked_mul(2) {
            Some(b) => b,
            None => {
                proof {
                    lemma_wide_units_total_grows(texts(paths@), i + 1);
                }
                return None;
            },
        };
        total = match total.checked_add(bytes) {
            Some(t) => t,
            None => {
                proof {
                    lemma_wide_units_total_grows(texts(paths@), i + 1);
                }
                return None;
            },
        };
    }
    assert(texts(paths@).take(paths@.len() as int) =~= texts(paths@));
    let total: usize = match total.checked_add(DROPFILES_SIZE) {
        Some(t) => t,
        None => return None,
    };
    total.checked_add(2)
}

proof fn lemma_wide_units_total_grows(paths: Seq<Seq<char>>, k: int)
    requires
        0 <= k <= paths.len(),
    ensures
        wide_units_total(paths.take(k)) <= wide_units_total(paths),
    decreases paths.len() - k,
{
    if k < paths.len() {
        lemma_wide_units_total_grows(paths, k + 1);
        assert(paths.take(k + 1).drop_last() =~= paths.take(k));
    } else {
        assert(paths.take(k) =~= paths);
    }
}

proof fn lemma_le_bytes_len(units: Seq<u16>)
    ensures
        le_bytes(units).len() == 2 * units.len(),
    decreases units.len(),
{
    if units.len() > 0 {
        lemma_le_bytes_len(units.drop_last());
    }
}

proof fn lemma_nul_join_units(paths: Seq<Seq<char>>)
    requires
        paths.len() > 0,
    ensures
        utf16_encode(nul_join(paths)).len() + 1 == wide_units_total(paths),
    decreases paths.len(),
{
    if paths.len() == 1 {
        assert(paths.drop_last().len() == 0);
        assert(wide_units_total(paths.drop_last()) == 0);
        assert(paths.last() == paths[0]);
    } else {
        lemma_nul_join_units(paths.drop_last());
        lemma_utf16_nul();
        lemma_utf16_encode_concat(nul_join(paths.drop_last()), seq!['\0']);
        lemma_utf16_encode_concat(nul_join(paths.drop_last()) + seq!['\0'], paths.last());
    }
}

/// The memory allocated for a `DROPFILES` block always holds the bytes
/// written into it.
pub proof fn law_dropfiles_fit(paths: Seq<Seq<char>>)
    ensures
        dropfiles_bytes(paths).len() <= dropfiles_alloc_spec(paths),
{
    lemma_utf16_nul();
    lemma_utf16_encode_concat(nul_join(paths), seq!['\0', '\0']);
    lemma_le_bytes_len(utf16_encode(file_list(paths)));
    if paths.len() > 0 {
        lemma_nul_join_units(paths);
    } else {
        assert(utf16_encode(nul_join(paths)) =~= Seq::<u16>::empty());
    }
}

/// Writing paths and an operation to the clipboard and reading them back: the
/// drop effect gives back the operation; the block holds the header followed
/// by the NUL-separated list, which decodes to exactly the paths joined by
/// NUL; and the wide string the system hands back for each path decodes to
/// that path.
pub proof fn law_clipboard_roundtrip(paths: Seq<Seq<char>>, operation: Operation)
    requires
        forall|i: int| 0 <= i < paths.len() ==> !(#[trigger] paths[i]).contains('\0'),
    ensures
        operation_of_effect(Some(effect_of_operation(operation))) == operation,
        dropfiles_bytes(paths).subrange(0, DROPFILES_SIZE as int) == dropfiles_header(),
        dropfiles_bytes(paths).skip(DROPFILES_SIZE as int) == le_bytes(
            utf16_encode(file_list(paths)),
        ),
        utf16_decode_lossy(utf16_encode(file_list(paths))) == file_list(paths),
        forall|i: int|
            0 <= i < paths.len() ==> wide_text(utf16_encode(#[trigger] paths[i]).push(0))
                == paths[i],
{
    law_drop_effect_roundtrip(operation);
    assert(dropfiles_bytes(paths).subrange(0, DROPFILES_SIZE as int) =~= dropfiles_header());
    assert(dropfiles_bytes(paths).skip(DROPFILES_SIZE as int) =~= le_bytes(
        utf16_encode(file_list(paths)),
    ));
    lemma_decode_encode(file_list(paths), Seq::empty());
    assert(utf16_encode(file_list(paths)) + Seq::<u16>::empty() =~= utf16_encode(file_list(paths)));
    assert(file_list(paths) + Seq::<char>::empty() =~= file_list(paths));
    assert forall|i: int| 0 <= i < paths.len() implies wide_text(
        utf16_encode(#[trigger] paths[i]).push(0),
    ) == paths[i] by {
        law_wide_roundtrip(paths[i]);
    }
}

} // verus!
