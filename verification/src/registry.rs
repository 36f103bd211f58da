use vstd::prelude::*;
use std::collections::HashMap;

verus! {

broadcast use vstd::std_specs::hash::group_hash_axioms;

/// Token value of a registered operation that keeps running.
pub const PROGRESS_CONTINUE: u32 = 0;

/// Token value of a registered operation that was asked to stop.
pub const PROGRESS_CANCEL: u32 = 1;

/// The table of cancellable operations: each reserved id maps to its token,
/// `PROGRESS_CONTINUE` until `cancel` sets it to `PROGRESS_CANCEL`.
pub struct CancelRegistry {
    next_id: u32,
    tokens: HashMap<u32, u32>,
}

impl CancelRegistry {
    /// The reserved ids and their tokens.
    pub closed spec fn tokens(&self) -> Map<u32, u32> {
        self.tokens@
    }

    /// The id that the next reservation hands out.
    pub closed spec fn next_id(&self) -> u32 {
        self.next_id
    }

    /// An empty registry whose first reservation is id 0.
    pub fn new() -> (r: CancelRegistry)
        ensures
            r.tokens() == Map::<u32, u32>::empty(),
            r.next_id() == 0,
    {
        CancelRegistry { next_id: 0, tokens: HashMap::new() }
    }
}

/// The token stored for `id` after a `cancel`: set to `PROGRESS_CANCEL` when
/// the id is registered, nothing changed otherwise.
pub open spec fn cancelled(tokens: Map<u32, u32>, id: u32) -> Map<u32, u32> {
    if tokens.contains_key(id) {
        tokens.insert(id, PROGRESS_CANCEL)
    } else {
        tokens
    }
}

/// The table after the entry of a finished operation is dropped.
pub open spec fn cleaned(tokens: Map<u32, u32>, cancel_id: Option<u32>) -> Map<u32, u32> {
    match cancel_id {
        Some(id) => tokens.remove(id),
        None => tokens,
    }
}

/// What a progress routine answers the system for the operation `cancel_id`:
/// the stored token when the id is registered, `PROGRESS_CONTINUE` otherwise.
pub open spec fn reply_for(tokens: Map<u32, u32>, cancel_id: Option<u32>) -> u32 {
    match cancel_id {
        Some(id) => if tokens.contains_key(id) {
            tokens[id]
        } else {
            PROGRESS_CONTINUE
        },
        None => PROGRESS_CONTINUE,
    }
}

/// The id handed out after `id`: the counter wraps around at `u32::MAX`.
pub open spec fn following_id(id: u32) -> u32 {
    if id == u32::MAX {
        0
    } else {
        (id + 1) as u32
    }
}

/// Reserves a new cancellable operation: hands out the current counter value,
/// registers it with a running token and advances the counter.
pub fn reserve_cancellable(registry: &mut CancelRegistry) -> (id: u32)
    ensures
        id == old(registry).next_id(),
        final(registry).next_id() == following_id(id),
        final(registry).tokens() == old(registry).tokens().insert(id, PROGRESS_CONTINUE),
{
    let id: u32 = registry.next_id;
    registry.next_id = id.wrapping_add(1);
    registry.tokens.insert(id, PROGRESS_CONTINUE);
    id
}

/// Asks the operation `id` to stop. Returns whether `id` is registered; only
/// then is its token set to `PROGRESS_CANCEL`.
pub fn cancel(registry: &mut CancelRegistry, id: u32) -> (found: bool)
    ensures
        found == old(registry).tokens().contains_key(id),
        final(registry).tokens() == cancelled(old(registry).tokens(), id),
        final(registry).next_id() == old(registry).next_id(),
{
    if registry.tokens.contains_key(&id) {
        registry.tokens.insert(id, PROGRESS_CANCEL);
        true
    } else {
        false
    }
}

/// Drops the entry of a finished operation, if it has one.
pub fn clean_up(registry: &mut CancelRegistry, cancel_id: Option<u32>)
    ensures
        final(registry).tokens() == cleaned(old(registry).tokens(), cancel_id),
        final(registry).next_id() == old(registry).next_id(),
{
    if let Some(id) = cancel_id {
        if registry.tokens.contains_key(&id) {
            registry.tokens.remove(&id);
        } else {
            assert(registry.tokens@ == registry.tokens@.remove(id));
        }
    }
}

/// Cancels the operation `id` and drops its entry. Returns whether `id` was
/// registered.
pub fn cancel_and_forget(registry: &mut CancelRegistry, id: u32) -> (found: bool)
    ensures
        found == old(registry).tokens().contains_key(id),
        final(registry).tokens() == old(registry).tokens().remove(id),
        final(registry).next_id() == old(registry).next_id(),
{
    let found = cancel(registry, id);
    clean_up(registry, Some(id));
    found
}

/// Whether a move may start with `cancel_id`: no id, or an id that is
/// registered.
pub open spec fn usable_id(tokens: Map<u32, u32>, cancel_id: Option<u32>) -> bool {
    match cancel_id {
        Some(id) => tokens.contains_key(id),
        None => true,
    }
}

/// Whether a move may start with `cancel_id` (no id, or a registered one).
pub fn is_registered(registry: &CancelRegistry, cancel_id: Option<u32>) -> (ok: bool)
    ensures
        ok == usable_id(registry.tokens(), cancel_id),
{
    match cancel_id {
        Some(id) => registry.tokens.contains_key(&id),
        None => true,
    }
}

/// The answer of a progress routine for the operation `cancel_id`.
pub fn progress_reply(registry: &CancelRegistry, cancel_id: Option<u32>) -> (reply: u32)
    ensures
        reply == reply_for(registry.tokens(), cancel_id),
{
    match cancel_id {
        Some(id) => match registry.tokens.get(&id) {
            Some(token) => *token,
            None => PROGRESS_CONTINUE,
        },
        None => PROGRESS_CONTINUE,
    }
}

/// A freshly reserved operation keeps running: its progress routine answers
/// `PROGRESS_CONTINUE`.
pub proof fn law_reserved_runs(tokens: Map<u32, u32>, id: u32)
    ensures
        reply_for(tokens.insert(id, PROGRESS_CONTINUE), Some(id)) == PROGRESS_CONTINUE,
{
}

/// Once a registered operation is cancelled, its progress routine answers
/// `PROGRESS_CANCEL`.
pub proof fn law_cancel_stops(tokens: Map<u32, u32>, id: u32)
    requires
        tokens.contains_key(id),
    ensures
        reply_for(cancelled(tokens, id), Some(id)) == PROGRESS_CANCEL,
{
}

/// Cancelling one operation leaves the answer for every other operation
/// unchanged.
pub proof fn law_cancel_is_local(tokens: Map<u32, u32>, id: u32, other: u32)
    requires
        id != other,
    ensures
        reply_for(cancelled(tokens, id), Some(other)) == reply_for(tokens, Some(other)),
{
}

/// Cancelling twice has the effect of cancelling once.
pub proof fn law_cancel_idempotent(tokens: Map<u32, u32>, id: u32)
    ensures
        cancelled(cancelled(tokens, id), id) == cancelled(tokens, id),
{
}

/// After its entry is cleaned up, an operation can no longer be cancelled and
/// its progress routine answers `PROGRESS_CONTINUE`.
pub proof fn law_cleaned_is_gone(tokens: Map<u32, u32>, id: u32)
    ensures
        !cleaned(tokens, Some(id)).contains_key(id),
        cancelled(cleaned(tokens, Some(id)), id) == cleaned(tokens, Some(id)),
        reply_for(cleaned(tokens, Some(id)), Some(id)) == PROGRESS_CONTINUE,
{
}

/// An operation that was never reserved cannot be cancelled: the table is
/// left as it was.
pub proof fn law_cancel_unknown(tokens: Map<u32, u32>, id: u32)
    requires
        !tokens.contains_key(id),
    ensures
        cancelled(tokens, id) == tokens,
{
}

/// The id handed out by the `k`-th reservation after one that handed out
/// `start`.
pub open spec fn id_after(start: u32, k: nat) -> u32
    decreases k,
{
    if k == 0 {
        start
    } else {
        following_id(id_after(start, (k - 1) as nat))
    }
}

proof fn lemma_id_after(start: u32, k: nat)
    ensures
        id_after(start, k) == (start + k) % 0x1_0000_0000,
    decreases k,
{
    if k > 0 {
        lemma_id_after(start, (k - 1) as nat);
        let p = id_after(start, (k - 1) as nat);
        assert(p == (start + k - 1) % 0x1_0000_0000);
        assert(following_id(p) == (start + k) % 0x1_0000_0000) by (nonlinear_arith)
            requires
                p == (start + k - 1) % 0x1_0000_0000,
                following_id(p) == if p == 0xFFFF_FFFF { 0 } else { p + 1 },
                0 <= p <= 0xFFFF_FFFF,
                k >= 1,
        ;
    }
}

/// Up to 2^32 reservations in a row hand out pairwise distinct ids.
pub proof fn law_reserved_ids_distinct(start: u32, i: nat, j: nat)
    requires
        i < j < 0x1_0000_0000,
    ensures
        id_after(start, i) != id_after(start, j),
{
    lemma_id_after(start, i);
    lemma_id_after(start, j);
    assert((start + i) % 0x1_0000_0000 != (start + j) % 0x1_0000_0000) by (nonlinear_arith)
        requires
            i < j < 0x1_0000_0000,
            0 <= start < 0x1_0000_0000,
    ;
}

} // verus!
