use vstd::prelude::*;
use std::collections::HashMap;
use crate::server::protocol::{WireMessage, decode_spec, encode_update, lemma_update_roundtrip, update_bytes};

verus! {

broadcast use vstd::std_specs::hash::group_hash_axioms;

/// The shared game state: the value at each inventory offset, and how many changes
/// have been made.
#[derive(Debug, Clone)]
pub struct GameState {
    pub items: HashMap<u16, u8>,
    pub change_number: u64,
}

impl Default for GameState {
    /// No items and no changes.
    fn default() -> (s: Self)
        ensures
            s.items@ == Map::<u16, u8>::empty(),
            s.change_number == 0,
    {
        GameState { items: HashMap::new(), change_number: 0 }
    }
}

/// Changes one client made, passed on to the others.
#[derive(Debug, Clone)]
pub struct BroadcastUpdate {
    pub sender_id: u32,
    pub new_change_number: u64,
    pub updates: Vec<(u16, u8)>,
}

/// The value stored at an offset; 0 where none is stored.
pub open spec fn current_value(m: Map<u16, u8>, offset: u8) -> u8 {
    if m.contains_key(offset as u16) {
        m[offset as u16]
    } else {
        0
    }
}

/// Apply (offset, value) pairs in order: a pair whose value differs from the stored one
/// is stored and listed as a change; the others are skipped.
pub open spec fn apply_updates(m: Map<u16, u8>, updates: Seq<(u8, u8)>) -> (Map<u16, u8>, Seq<(u8, u8)>)
    decreases updates.len(),
{
    if updates.len() == 0 {
        (m, seq![])
    } else {
        let (m1, changes) = apply_updates(m, updates.drop_last());
        let (offset, val) = updates.last();
        if val != current_value(m1, offset) {
            (m1.insert(offset as u16, val), changes.push((offset, val)))
        } else {
            (m1, changes)
        }
    }
}

/// The stored (offset, value) pairs with offsets below `n`, in increasing offset order.
pub open spec fn stored_items(m: Map<u16, u8>, n: nat) -> Seq<(u8, u8)>
    decreases n,
{
    if n == 0 {
        seq![]
    } else {
        let k = (n - 1) as u16;
        let rest = stored_items(m, (n - 1) as nat);
        if m.contains_key(k) {
            rest.push(((n - 1) as u8, m[k]))
        } else {
            rest
        }
    }
}

/// Pairs with their offsets narrowed to a byte.
pub open spec fn narrow_pairs(u: Seq<(u16, u8)>) -> Seq<(u8, u8)> {
    Seq::new(u.len(), |i: int| (u[i].0 as u8, u[i].1))
}

/// Pairs with their offsets widened to 16 bits.
pub open spec fn widen_pairs(u: Seq<(u8, u8)>) -> Seq<(u16, u8)> {
    Seq::new(u.len(), |i: int| (u[i].0 as u16, u[i].1))
}

proof fn lemma_stored_items_len(m: Map<u16, u8>, n: nat)
    ensures
        stored_items(m, n).len() <= n,
    decreases n,
{
    if n > 0 {
        lemma_stored_items_len(m, (n - 1) as nat);
    }
}

/// Some pair holds a value other than the one stored at its offset.
pub open spec fn differs_somewhere(m: Map<u16, u8>, u: Seq<(u8, u8)>) -> bool {
    exists|i: int| 0 <= i < u.len() && #[trigger] u[i].1 != current_value(m, u[i].0)
}

/// Applying pairs changes something exactly when some pair differs from the stored
/// value; when none does, the map stays as it is.
proof fn lemma_changes_iff_differs(m: Map<u16, u8>, u: Seq<(u8, u8)>)
    ensures
        (apply_updates(m, u).1.len() > 0) == differs_somewhere(m, u),
        !differs_somewhere(m, u) ==> apply_updates(m, u).0 == m,
    decreases u.len(),
{
    if u.len() > 0 {
        let init = u.drop_last();
        lemma_changes_iff_differs(m, init);
        if differs_somewhere(m, init) {
            let i = choose|i: int| 0 <= i < init.len() && #[trigger] init[i].1 != current_value(m, init[i].0);
            assert(u[i] == init[i]);
        } else {
            assert forall|i: int| 0 <= i < u.len() - 1 implies #[trigger] u[i].1 == current_value(m, u[i].0) by {
                assert(u[i] == init[i]);
            }
            if u.last().1 != current_value(m, u.last().0) {
                assert(u[u.len() - 1].1 != current_value(m, u[u.len() - 1].0));
            }
        }
    }
}

/// Whether an Update with these pairs would change the state: some pair holds a value
/// other than the stored one.
pub fn update_changes(state: &GameState, updates: &[(u8, u8)]) -> (r: bool)
    ensures
        r == (apply_updates(state.items@, updates@).1.len() > 0),
{
    proof {
        lemma_changes_iff_differs(state.items@, updates@);
    }
    let mut i: usize = 0;
    while i < updates.len()
        invariant
            i <= updates@.len(),
            (apply_updates(state.items@, updates@).1.len() > 0) == differs_somewhere(state.items@, updates@),
            forall|j: int| 0 <= j < i ==> #[trigger] updates@[j].1 == current_value(state.items@, updates@[j].0),
        decreases updates@.len() - i,
    {
        let (offset, val) = updates[i];
        let current = match state.items.get(&(offset as u16)) {
            Some(v) => *v,
            None => 0,
        };
        if val != current {
            assert(updates@[i as int].1 != current_value(state.items@, updates@[i as int].0));
            assert(differs_somewhere(state.items@, updates@));
            return true;
        }
        i = i + 1;
    }
    false
}

/// Handle an Update message from client `client_id`. Only the client's own messages count;
/// the pairs are applied in order. When some value changed, the change number goes up by
/// one and the new number and the changes are returned.
pub fn handle_update(state: &mut GameState, client_id: u32, msg_client_id: u32, updates: &[(u8, u8)]) -> (r: Option<
    (u64, Vec<(u8, u8)>),
>)
    requires
        msg_client_id == client_id && apply_updates(old(state).items@, updates@).1.len() > 0
            ==> old(state).change_number < u64::MAX,
    ensures
        msg_client_id != client_id ==> r is None && final(state).items@ == old(state).items@
            && final(state).change_number == old(state).change_number,
        msg_client_id == client_id ==> {
            let (m, changes) = apply_updates(old(state).items@, updates@);
            &&& final(state).items@ == m
            &&& changes.len() == 0 ==> r is None && final(state).change_number == old(state).change_number
            &&& changes.len() > 0 ==> final(state).change_number == old(state).change_number + 1 && (r matches Some(
                (n, c),
            ) && n == final(state).change_number && c@ == changes)
        },
{
    if msg_client_id != client_id {
        return None;
    }
    let ghost m0 = state.items@;
    let mut actual_changes: Vec<(u8, u8)> = Vec::new();
    let mut i: usize = 0;
    while i < updates.len()
        invariant
            i <= updates@.len(),
            (state.items@, actual_changes@) == apply_updates(m0, updates@.take(i as int)),
            m0 == old(state).items@,
            state.change_number == old(state).change_number,
            apply_updates(m0, updates@).1.len() > 0 ==> old(state).change_number < u64::MAX,
        decreases updates@.len() - i,
    {
        let (offset, val) = updates[i];
        let current = match state.items.get(&(offset as u16)) {
            Some(v) => *v,
            None => 0,
        };
        assert(updates@.take(i + 1).drop_last() =~= updates@.take(i as int));
        if val != current {
            state.items.insert(offset as u16, val);
            actual_changes.push((offset, val));
        }
        i = i + 1;
    }
    assert(updates@.take(updates@.len() as int) =~= updates@);
    if actual_changes.len() > 0 {
        state.change_number = state.change_number + 1;
        Some((state.change_number, actual_changes))
    } else {
        None
    }
}

/// The stored pairs with offsets 0-255, in increasing offset order.
pub fn all_items(state: &GameState) -> (items: Vec<(u8, u8)>)
    ensures
        items@ == stored_items(state.items@, 256),
{
    let mut items: Vec<(u8, u8)> = Vec::new();
    let mut k: u16 = 0;
    while k < 256
        invariant
            k <= 256,
            items@ == stored_items(state.items@, k as nat),
        decreases 256 - k,
    {
        match state.items.get(&k) {
            Some(v) => {
                items.push((k as u8, *v));
            },
            None => {},
        }
        k = k + 1;
    }
    items
}

/// Answer a Check message from client `client_id`: when it is the client's own and the
/// state has moved past the change number it has seen, an Update (from the server, ID 0)
/// with the current change number and every stored pair.
pub fn check_reply(state: &GameState, client_id: u32, msg_client_id: u32, change_number: u64) -> (r: Option<Vec<u8>>)
    ensures
        r is Some <==> msg_client_id == client_id && state.change_number > change_number,
        r matches Some(msg) ==> msg@ == update_bytes(0, state.change_number, stored_items(state.items@, 256)),
{
    if msg_client_id == client_id && state.change_number > change_number {
        let updates = all_items(state);
        proof {
            lemma_stored_items_len(state.items@, 256);
        }
        Some(encode_update(0, state.change_number, updates.as_slice()))
    } else {
        None
    }
}

/// Pass another client's changes on to client `client_id`: an Update (from the server,
/// ID 0) with the new change number and the pairs, offsets narrowed to a byte; nothing
/// for the client's own changes.
pub fn broadcast_reply(update: &BroadcastUpdate, client_id: u32) -> (r: Option<Vec<u8>>)
    requires
        8 + 2 * update.updates@.len() <= usize::MAX,
    ensures
        r is Some <==> update.sender_id != client_id,
        r matches Some(msg) ==> msg@ == update_bytes(0, update.new_change_number, narrow_pairs(update.updates@)),
{
    if update.sender_id == client_id {
        return None;
    }
    let mut pairs: Vec<(u8, u8)> = Vec::new();
    let mut i: usize = 0;
    while i < update.updates.len()
        invariant
            i <= update.updates@.len(),
            pairs@ =~= narrow_pairs(update.updates@.take(i as int)),
        decreases update.updates@.len() - i,
    {
        let (k, v) = update.updates[i];
        pairs.push((k as u8, v));
        i = i + 1;
    }
    assert(update.updates@.take(update.updates@.len() as int) =~= update.updates@);
    Some(encode_update(0, update.new_change_number, pairs.as_slice()))
}

/// The broadcast of one client's changes, offsets widened to 16 bits.
pub fn make_broadcast(sender_id: u32, new_change_number: u64, changes: &[(u8, u8)]) -> (b: BroadcastUpdate)
    ensures
        b.sender_id == sender_id,
        b.new_change_number == new_change_number,
        b.updates@ == widen_pairs(changes@),
{
    let mut updates: Vec<(u16, u8)> = Vec::new();
    let mut i: usize = 0;
    while i < changes.len()
        invariant
            i <= changes@.len(),
            updates@ =~= widen_pairs(changes@.take(i as int)),
        decreases changes@.len() - i,
    {
        let (k, v) = changes[i];
        updates.push((k as u16, v));
        i = i + 1;
    }
    assert(changes@.take(changes@.len() as int) =~= changes@);
    BroadcastUpdate { sender_id, new_change_number, updates }
}

/// What another client receives of one client's changes decodes back to exactly those
/// changes, from the server (ID 0), with the new change number, whenever the message's
/// length fits its length byte.
pub proof fn lemma_broadcast_roundtrip(new_change_number: u64, changes: Seq<(u8, u8)>)
    requires
        8 + 2 * changes.len() <= 255,
    ensures
        ({
            let bytes = update_bytes(0, new_change_number, narrow_pairs(widen_pairs(changes)));
            decode_spec(bytes.take(6), bytes.skip(6)) == Some(
                WireMessage::Update { client_id: 0, change_number: new_change_number, updates: changes },
            )
        }),
{
    assert(narrow_pairs(widen_pairs(changes)) =~= changes);
    lemma_update_roundtrip(0, new_change_number, changes);
}

proof fn lemma_stored_items_exact_upto(m: Map<u16, u8>, n: nat)
    requires
        n <= 256,
    ensures
        forall|k: u16| k < n && m.contains_key(k) ==> #[trigger] stored_items(m, n).contains((k as u8, m[k])),
        forall|p: (u8, u8)| #[trigger] stored_items(m, n).contains(p) ==> p.0 < n && m.contains_key(p.0 as u16) && m[p.0 as u16] == p.1,
    decreases n,
{
    if n > 0 {
        let j = (n - 1) as nat;
        lemma_stored_items_exact_upto(m, j);
        let rest = stored_items(m, j);
        let key = j as u16;
        assert forall|k: u16| k < n && m.contains_key(k) implies #[trigger] stored_items(m, n).contains((k as u8, m[k])) by {
            if k < j {
                assert(rest.contains((k as u8, m[k])));
                let i = choose|i: int| 0 <= i < rest.len() && rest[i] == (k as u8, m[k]);
                if m.contains_key(key) {
                    assert(stored_items(m, n) == rest.push((j as u8, m[key])));
                    assert(stored_items(m, n)[i] == (k as u8, m[k]));
                }
            } else {
                assert(k == key);
                assert(stored_items(m, n) == rest.push((j as u8, m[key])));
                assert(stored_items(m, n)[rest.len() as int] == (k as u8, m[k]));
            }
        }
        assert forall|p: (u8, u8)| #[trigger] stored_items(m, n).contains(p) implies p.0 < n && m.contains_key(p.0 as u16)
            && m[p.0 as u16] == p.1 by {
            let i = choose|i: int| 0 <= i < stored_items(m, n).len() && stored_items(m, n)[i] == p;
            if m.contains_key(key) {
                assert(stored_items(m, n) == rest.push((j as u8, m[key])));
                if i < rest.len() {
                    assert(rest[i] == p);
                    assert(rest.contains(p));
                } else {
                    assert(p == (j as u8, m[key]));
                    assert((j as u8) as u16 == key);
                }
            } else {
                assert(rest[i] == p);
                assert(rest.contains(p));
            }
        }
    }
}

/// The whole state, as a Check reply sends it, holds exactly the stored pairs: for
/// every offset below 256 that the map holds, the pair of that offset and its value,
/// whatever the value; and no pair the map does not hold.
pub proof fn lemma_stored_items_exact(m: Map<u16, u8>)
    ensures
        forall|k: u16| k < 256 && m.contains_key(k) ==> #[trigger] stored_items(m, 256).contains((k as u8, m[k])),
        forall|p: (u8, u8)| #[trigger] stored_items(m, 256).contains(p) ==> m.contains_key(p.0 as u16) && m[p.0 as u16]
            == p.1,
{
    lemma_stored_items_exact_upto(m, 256);
}

/// A client catching up with a Check receives every stored pair: the reply decodes to an
/// Update from the server with the current change number whose pairs include, for each
/// offset below 256 that the state holds, that offset with its value (whenever the
/// message's length fits its length byte).
pub proof fn lemma_check_reply_carries_every_pair(state: GameState, msg: Seq<u8>)
    requires
        msg == update_bytes(0, state.change_number, stored_items(state.items@, 256)),
        8 + 2 * stored_items(state.items@, 256).len() <= 255,
    ensures
        decode_spec(msg.take(6), msg.skip(6)) matches Some(WireMessage::Update { client_id: 0, change_number: n, updates: u })
            && n == state.change_number && (forall|k: u16| k < 256 && state.items@.contains_key(k) ==> #[trigger] u.contains(
            (k as u8, state.items@[k]),
        )),
{
    lemma_update_roundtrip(0, state.change_number, stored_items(state.items@, 256));
    lemma_stored_items_exact(state.items@);
}

} // verus!
