use vstd::prelude::*;
use std::collections::VecDeque;
use crate::locations::{FIRST_QUEST_DUNGEON_DATA_EARLY, FIRST_QUEST_DUNGEON_DATA_LATE, LEVEL_ADDRESSES};

verus! {

// Layout within each 768-byte LevelBlock.
/// S/N door types (128 bytes).
pub const ATTRS_A_OFFSET: usize = 0x000;
/// E/W door types (128 bytes).
pub const ATTRS_B_OFFSET: usize = 0x080;
/// Monster list (128 bytes).
pub const ATTRS_C_OFFSET: usize = 0x100;
/// Layout ID (128 bytes).
pub const ATTRS_D_OFFSET: usize = 0x180;
/// Room item ID (128 bytes).
pub const ATTRS_E_OFFSET: usize = 0x200;
/// Secret trigger (128 bytes).
pub const ATTRS_F_OFFSET: usize = 0x280;

/// 128-byte arrays, one entry per room ID (0x00-0x7F), shared by all dungeons
/// in the same LevelBlock group. Dungeons 1-6 share the first block; 7-9 share the second.
pub const BLOCK_ARRAY_LEN: usize = 0x80;

/// The byte at `i`, or `default` where `i` lies outside the buffer.
pub open spec fn byte_or(buf: Seq<u8>, i: int, default: u8) -> u8 {
    if 0 <= i < buf.len() {
        buf[i]
    } else {
        default
    }
}

/// Read the byte at `i`, or `default` past the end of the buffer.
pub fn byte_at_or(buf: &[u8], i: usize, default: u8) -> (b: u8)
    ensures
        b == byte_or(buf@, i as int, default),
{
    if i < buf.len() {
        buf[i]
    } else {
        default
    }
}

/// ROM file offset for the first-quest LevelBlock of dungeons 1-6.
pub fn uw1_block_base() -> (base: usize)
    ensures
        base == FIRST_QUEST_DUNGEON_DATA_EARLY,
{
    FIRST_QUEST_DUNGEON_DATA_EARLY
}

/// ROM file offset for the first-quest LevelBlock of dungeons 7-9.
pub fn uw2_block_base() -> (base: usize)
    ensures
        base == FIRST_QUEST_DUNGEON_DATA_LATE,
{
    FIRST_QUEST_DUNGEON_DATA_LATE
}

/// ROM offset for AttrsA[room_id] within a block.
pub fn attrs_a_offset(block_base: usize, room_id: u8) -> (off: usize)
    requires
        block_base + ATTRS_A_OFFSET + room_id <= usize::MAX,
    ensures
        off == block_base + ATTRS_A_OFFSET + room_id,
{
    block_base + ATTRS_A_OFFSET + room_id as usize
}

/// ROM offset for AttrsB[room_id].
pub fn attrs_b_offset(block_base: usize, room_id: u8) -> (off: usize)
    requires
        block_base + ATTRS_B_OFFSET + room_id <= usize::MAX,
    ensures
        off == block_base + ATTRS_B_OFFSET + room_id,
{
    block_base + ATTRS_B_OFFSET + room_id as usize
}

/// ROM offset for AttrsE[room_id] (item ID).
pub fn attrs_e_offset(block_base: usize, room_id: u8) -> (off: usize)
    requires
        block_base + ATTRS_E_OFFSET + room_id <= usize::MAX,
    ensures
        off == block_base + ATTRS_E_OFFSET + room_id,
{
    block_base + ATTRS_E_OFFSET + room_id as usize
}

/// ROM offset for AttrsF[room_id] (secret trigger).
pub fn attrs_f_offset(block_base: usize, room_id: u8) -> (off: usize)
    requires
        block_base + ATTRS_F_OFFSET + room_id <= usize::MAX,
    ensures
        off == block_base + ATTRS_F_OFFSET + room_id,
{
    block_base + ATTRS_F_OFFSET + room_id as usize
}

// ---------------------------------------------------------------------------
// Room connectivity.
// ---------------------------------------------------------------------------

/// Door codes that a walk through the dungeon may pass: 0, 2, 3, 4 and 5.
/// Code 1 is a wall; 6 and 7 are palette-bit noise that the engine treats as solid.
pub open spec fn passable_code(k: u8) -> bool {
    k == 0 || k == 2 || k == 3 || k == 4 || k == 5
}

/// AttrsA of `room` (bits 7-5 north door, bits 4-2 south door); 0 past the buffer.
pub open spec fn attrs_a_at(buf: Seq<u8>, base: int, room: int) -> u8 {
    byte_or(buf, base + ATTRS_A_OFFSET + room, 0)
}

/// AttrsB of `room` (bits 7-5 west door, bits 4-2 east door); 0 past the buffer.
pub open spec fn attrs_b_at(buf: Seq<u8>, base: int, room: int) -> u8 {
    byte_or(buf, base + ATTRS_B_OFFSET + room, 0)
}

/// A walk may step from room `r` to room `n`: `n` is the grid neighbour of `r`
/// (row = id / 16, column = id % 16) through a passable door of `r`.
pub open spec fn room_edge(buf: Seq<u8>, base: int, r: int, n: int) -> bool {
    let a = attrs_a_at(buf, base, r);
    let b = attrs_b_at(buf, base, r);
    &&& 0 <= r < 0x80
    &&& ((n == r + 0x10 && r / 16 < 7 && passable_code((a >> 2u8) & 7u8))
        || (n == r - 0x10 && r / 16 > 0 && passable_code((a >> 5u8) & 7u8))
        || (n == r + 1 && r % 16 < 15 && passable_code((b >> 2u8) & 7u8))
        || (n == r - 1 && r % 16 > 0 && passable_code((b >> 5u8) & 7u8)))
}

/// `r` is one of the seed rooms, and a valid room ID.
pub open spec fn is_seed(seeds: Seq<u8>, r: int) -> bool {
    0 <= r < 0x80 && exists|i: int| 0 <= i < seeds.len() && seeds[i] == r
}

/// `r` can be reached from a seed in at most `k` steps. A step into `r` can only come
/// from one of its four grid neighbours.
pub open spec fn reach_within(buf: Seq<u8>, base: int, seeds: Seq<u8>, k: nat, r: int) -> bool
    decreases k,
{
    if k == 0 {
        is_seed(seeds, r)
    } else {
        let j = (k - 1) as nat;
        ||| reach_within(buf, base, seeds, j, r)
        ||| reach_within(buf, base, seeds, j, r - 0x10) && room_edge(buf, base, r - 0x10, r)
        ||| reach_within(buf, base, seeds, j, r + 0x10) && room_edge(buf, base, r + 0x10, r)
        ||| reach_within(buf, base, seeds, j, r - 1) && room_edge(buf, base, r - 1, r)
        ||| reach_within(buf, base, seeds, j, r + 1) && room_edge(buf, base, r + 1, r)
    }
}

/// `r` can be reached from some seed room by passable doors.
pub open spec fn reachable(buf: Seq<u8>, base: int, seeds: Seq<u8>, r: int) -> bool {
    exists|k: nat| reach_within(buf, base, seeds, k, r)
}

/// `rooms` lists, in strictly increasing order, exactly the room IDs reachable from `seeds`.
pub open spec fn lists_reachable(rooms: Seq<u8>, buf: Seq<u8>, base: int, seeds: Seq<u8>) -> bool {
    &&& forall|i: int, j: int| 0 <= i < j < rooms.len() ==> rooms[i] < rooms[j]
    &&& forall|r: u8| rooms.contains(r) <==> (r < 0x80 && reachable(buf, base, seeds, r as int))
}

/// Number of `true` entries.
pub open spec fn count_true(s: Seq<bool>) -> nat
    decreases s.len(),
{
    if s.len() == 0 {
        0
    } else {
        count_true(s.drop_last()) + if s.last() {
            1nat
        } else {
            0nat
        }
    }
}

proof fn lemma_count_true_bound(s: Seq<bool>)
    ensures
        count_true(s) <= s.len(),
    decreases s.len(),
{
    if s.len() > 0 {
        lemma_count_true_bound(s.drop_last());
    }
}

proof fn lemma_count_true_set(s: Seq<bool>, i: int)
    requires
        0 <= i < s.len(),
        !s[i],
    ensures
        count_true(s.update(i, true)) == count_true(s) + 1,
    decreases s.len(),
{
    let t = s.update(i, true);
    if i == s.len() - 1 {
        assert(t.drop_last() =~= s.drop_last());
    } else {
        lemma_count_true_set(s.drop_last(), i);
        assert(t.drop_last() =~= s.drop_last().update(i, true));
    }
}

/// Everything reachable lies in any set that holds the seeds and is closed under steps.
proof fn lemma_reach_closed(buf: Seq<u8>, base: int, seeds: Seq<u8>, vis: Seq<bool>, k: nat, r: int)
    requires
        vis.len() == 0x80,
        forall|s: int| is_seed(seeds, s) ==> vis[s],
        forall|m: int, n: int| 0 <= m < 0x80 && vis[m] && room_edge(buf, base, m, n) ==> vis[n],
        reach_within(buf, base, seeds, k, r),
    ensures
        0 <= r < 0x80,
        vis[r],
    decreases k,
{
    if k > 0 {
        let j = (k - 1) as nat;
        if reach_within(buf, base, seeds, j, r) {
            lemma_reach_closed(buf, base, seeds, vis, j, r);
        } else if reach_within(buf, base, seeds, j, r - 0x10) && room_edge(buf, base, r - 0x10, r) {
            lemma_reach_closed(buf, base, seeds, vis, j, r - 0x10);
        } else if reach_within(buf, base, seeds, j, r + 0x10) && room_edge(buf, base, r + 0x10, r) {
            lemma_reach_closed(buf, base, seeds, vis, j, r + 0x10);
        } else if reach_within(buf, base, seeds, j, r - 1) && room_edge(buf, base, r - 1, r) {
            lemma_reach_closed(buf, base, seeds, vis, j, r - 1);
        } else {
            lemma_reach_closed(buf, base, seeds, vis, j, r + 1);
        }
    }
}

/// One step from a reachable room reaches a reachable room.
proof fn lemma_reach_step(buf: Seq<u8>, base: int, seeds: Seq<u8>, m: int, n: int)
    requires
        reachable(buf, base, seeds, m),
        room_edge(buf, base, m, n),
    ensures
        reachable(buf, base, seeds, n),
{
    let k = choose|k: nat| reach_within(buf, base, seeds, k, m);
    assert(reach_within(buf, base, seeds, (k + 1) as nat, n));
}

/// Mark room `n` visited, queueing it if it was not visited before.
fn visit(visited: &mut Vec<bool>, queue: &mut VecDeque<u8>, n: u8)
    requires
        old(visited)@.len() == 0x80,
        n < 0x80,
    ensures
        final(visited)@ == old(visited)@.update(n as int, true),
        old(visited)@[n as int] ==> final(queue)@ == old(queue)@,
        !old(visited)@[n as int] ==> final(queue)@ == old(queue)@.push(n),
{
    if !visited[n as usize] {
        visited.set(n as usize, true);
        queue.push_back(n);
    } else {
        assert(visited@.update(n as int, true) =~= visited@);
    }
}

/// The invariant of the walk: `visited` is sound, holds the seeds, and every visited
/// room that is no longer queued has all its neighbours visited.
pub open spec fn walk_inv(
    buf: Seq<u8>,
    base: int,
    seeds: Seq<u8>,
    vis: Seq<bool>,
    queue: Seq<u8>,
) -> bool {
    &&& vis.len() == 0x80
    &&& forall|i: int| 0 <= i < queue.len() ==> queue[i] < 0x80 && vis[queue[i] as int]
    &&& forall|i: int, j: int| 0 <= i < j < queue.len() ==> queue[i] != queue[j]
    &&& forall|r: int| 0 <= r < 0x80 && vis[r] ==> reachable(buf, base, seeds, r)
    &&& forall|s: int| is_seed(seeds, s) ==> vis[s]
    &&& forall|m: int, n: int|
        0 <= m < 0x80 && vis[m] && !queue.contains(m as u8) && room_edge(buf, base, m, n) ==> vis[n]
}

/// Visit `n` (a step from `room`) while walking: the walk invariant keeps holding,
/// except that `room` has just left the queue.
fn step_to(
    visited: &mut Vec<bool>,
    queue: &mut VecDeque<u8>,
    n: u8,
    Ghost(buf): Ghost<Seq<u8>>,
    Ghost(base): Ghost<int>,
    Ghost(seeds): Ghost<Seq<u8>>,
    Ghost(room): Ghost<int>,
)
    requires
        n < 0x80,
        room_edge(buf, base, room, n as int),
        reachable(buf, base, seeds, room),
        old(visited)@.len() == 0x80,
        old(visited)@[room],
        !old(queue)@.contains(room as u8),
        forall|i: int| 0 <= i < old(queue)@.len() ==> old(queue)@[i] < 0x80 && old(visited)@[old(queue)@[i] as int],
        forall|i: int, j: int| 0 <= i < j < old(queue)@.len() ==> old(queue)@[i] != old(queue)@[j],
        forall|r: int| 0 <= r < 0x80 && old(visited)@[r] ==> reachable(buf, base, seeds, r),
        forall|s: int| is_seed(seeds, s) ==> old(visited)@[s],
        forall|m: int, k: int|
            0 <= m < 0x80 && m != room && old(visited)@[m] && !old(queue)@.contains(m as u8)
                && room_edge(buf, base, m, k) ==> old(visited)@[k],
    ensures
        final(visited)@.len() == 0x80,
        final(visited)@[n as int],
        forall|r: int| 0 <= r < 0x80 && old(visited)@[r] ==> final(visited)@[r],
        !final(queue)@.contains(room as u8),
        forall|i: int| 0 <= i < final(queue)@.len() ==> final(queue)@[i] < 0x80 && final(visited)@[final(queue)@[i] as int],
        forall|i: int, j: int| 0 <= i < j < final(queue)@.len() ==> final(queue)@[i] != final(queue)@[j],
        forall|r: int| 0 <= r < 0x80 && final(visited)@[r] ==> reachable(buf, base, seeds, r),
        forall|s: int| is_seed(seeds, s) ==> final(visited)@[s],
        forall|m: int, k: int|
            0 <= m < 0x80 && m != room && final(visited)@[m] && !final(queue)@.contains(m as u8)
                && room_edge(buf, base, m, k) ==> final(visited)@[k],
        count_true(final(visited)@) + old(queue)@.len() == count_true(old(visited)@) + final(queue)@.len(),
        old(queue)@.len() <= final(queue)@.len() <= old(queue)@.len() + 1,
{
    let ghost old_vis = visited@;
    let ghost old_q = queue@;
    proof {
        lemma_reach_step(buf, base, seeds, room, n as int);
    }
    let was = visited[n as usize];
    visit(visited, queue, n);
    proof {
        if !was {
            lemma_count_true_set(old_vis, n as int);
            assert forall|m: int| 0 <= m < 0x80 && m != room && visited@[m] && !queue@.contains(m as u8)
                implies !old_q.contains(m as u8) || m == n by {
                if m != n as int && old_q.contains(m as u8) {
                    let i = choose|i: int| 0 <= i < old_q.len() && old_q[i] == m as u8;
                    assert(queue@[i] == m as u8);
                }
            }
            assert forall|i: int, j: int| 0 <= i < j < queue@.len() implies queue@[i] != queue@[j] by {
                if j == queue@.len() - 1 {
                    assert(old_vis[old_q[i] as int]);
                }
            }
            assert(queue@[queue@.len() - 1] == n);
        } else {
            assert(visited@ =~= old_vis);
        }
    }
}

/// Walk from every seed room (IDs 0x80 and above are not rooms and are skipped)
/// through passable doors; list the rooms reached in increasing order.
pub fn bfs_from_seeds(buf: &[u8], block_base: usize, seeds: &[u8]) -> (rooms: Vec<u8>)
    requires
        block_base + 0x100 <= usize::MAX,
    ensures
        lists_reachable(rooms@, buf@, block_base as int, seeds@),
{
    let ghost gbuf = buf@;
    let ghost base = block_base as int;
    let mut visited: Vec<bool> = Vec::new();
    let mut i: usize = 0;
    while i < 0x80
        invariant
            i <= 0x80,
            visited@.len() == i,
            forall|j: int| 0 <= j < i ==> !visited@[j],
        decreases 0x80 - i,
    {
        visited.push(false);
        i = i + 1;
    }
    proof {
        assert forall|k: int| 0 <= k <= 0x80 implies count_true(visited@.take(k)) == 0 by {
            lemma_count_zero(visited@, k);
        }
        assert(visited@.take(0x80) =~= visited@);
    }
    let mut queue: VecDeque<u8> = VecDeque::new();
    let mut si: usize = 0;
    while si < seeds.len()
        invariant
            si <= seeds.len(),
            visited@.len() == 0x80,
            count_true(visited@) == queue@.len(),
            forall|i: int| 0 <= i < queue@.len() ==> queue@[i] < 0x80 && visited@[queue@[i] as int],
            forall|i: int, j: int| 0 <= i < j < queue@.len() ==> queue@[i] != queue@[j],
            forall|r: int| 0 <= r < 0x80 && visited@[r] ==> is_seed(seeds@, r) && queue@.contains(r as u8),
            forall|j: int| 0 <= j < si && seeds@[j] < 0x80 ==> visited@[seeds@[j] as int],
        decreases seeds.len() - si,
    {
        let s = seeds[si];
        if s < 0x80 {
            let ghost old_vis = visited@;
            let ghost old_q = queue@;
            let was = visited[s as usize];
            visit(&mut visited, &mut queue, s);
            proof {
                if !was {
                    lemma_count_true_set(old_vis, s as int);
                    assert(queue@[queue@.len() - 1] == s);
                    assert forall|r: int| 0 <= r < 0x80 && visited@[r] implies is_seed(seeds@, r) && queue@.contains(r as u8) by {
                        if r != s as int {
                            let k = choose|k: int| 0 <= k < old_q.len() && old_q[k] == r as u8;
                            assert(queue@[k] == r as u8);
                        } else {
                            assert(seeds@[si as int] == s);
                        }
                    }
                } else {
                    assert(visited@ =~= old_vis);
                }
            }
        }
        si = si + 1;
    }
    proof {
        lemma_count_true_bound(visited@);
        assert forall|r: int| 0 <= r < 0x80 && visited@[r] implies reachable(gbuf, base, seeds@, r) by {
            assert(reach_within(gbuf, base, seeds@, 0, r));
        }
        assert forall|s: int| is_seed(seeds@, s) implies visited@[s] by {
            let j = choose|j: int| 0 <= j < seeds@.len() && seeds@[j] == s;
        }
    }
    loop
        invariant
            block_base + 0x100 <= usize::MAX,
            gbuf == buf@,
            base == block_base as int,
            walk_inv(gbuf, base, seeds@, visited@, queue@),
            count_true(visited@) <= 0x80,
        ensures
            walk_inv(gbuf, base, seeds@, visited@, queue@),
            queue@.len() == 0,
        decreases 2 * (0x80 - count_true(visited@)) + queue@.len(),
    {
        let ghost vis0 = visited@;
        let ghost q0 = queue@;
        let ghost c0 = count_true(visited@);
        match queue.pop_front() {
            None => {
                break;
            },
            Some(room) => {
                let ghost groom = room as int;
                proof {
                    assert(q0[0] == room);
                    assert forall|i: int| 0 <= i < queue@.len() implies queue@[i] != room by {
                        assert(q0[i + 1] == queue@[i]);
                    }
                    assert forall|m: int, n: int|
                        0 <= m < 0x80 && m != groom && visited@[m] && !queue@.contains(m as u8)
                            && room_edge(gbuf, base, m, n) implies visited@[n] by {
                        if q0.contains(m as u8) {
                            let k = choose|k: int| 0 <= k < q0.len() && q0[k] == m as u8;
                            assert(k != 0);
                            assert(queue@[k - 1] == m as u8);
                        }
                    }
                }
                let row = room >> 4;
                let col = room & 0x0F;
                assert(row == room / 16 && col == room % 16) by (bit_vector)
                    requires row == room >> 4, col == room & 0x0F;
                let attrs_a = byte_at_or(buf, block_base + ATTRS_A_OFFSET + room as usize, 0);
                let attrs_b = byte_at_or(buf, block_base + ATTRS_B_OFFSET + room as usize, 0);
                let north_kind = (attrs_a >> 5) & 0x07;
                let south_kind = (attrs_a >> 2) & 0x07;
                let west_kind = (attrs_b >> 5) & 0x07;
                let east_kind = (attrs_b >> 2) & 0x07;
                let ghost q1 = queue@;
                let ghost c1 = count_true(visited@);
                // South
                if is_passable(south_kind) && row < 0x07 {
                    step_to(&mut visited, &mut queue, room + 0x10, Ghost(gbuf), Ghost(base), Ghost(seeds@), Ghost(groom));
                }
                // North
                if is_passable(north_kind) && row > 0 {
                    step_to(&mut visited, &mut queue, room - 0x10, Ghost(gbuf), Ghost(base), Ghost(seeds@), Ghost(groom));
                }
                // East
                if is_passable(east_kind) && col < 0x0F {
                    step_to(&mut visited, &mut queue, room + 1, Ghost(gbuf), Ghost(base), Ghost(seeds@), Ghost(groom));
                }
                // West
                if is_passable(west_kind) && col > 0 {
                    step_to(&mut visited, &mut queue, room - 1, Ghost(gbuf), Ghost(base), Ghost(seeds@), Ghost(groom));
                }
                proof {
                    lemma_count_true_bound(visited@);
                    assert forall|n: int| room_edge(gbuf, base, groom, n) implies visited@[n] by {
                    }
                }
            },
        }
    }
    proof {
        assert forall|m: int, n: int| 0 <= m < 0x80 && visited@[m] && room_edge(gbuf, base, m, n) implies visited@[n] by {
        }
    }
    collect_visited(&visited, Ghost(gbuf), Ghost(base), Ghost(seeds@))
}

proof fn lemma_count_zero(s: Seq<bool>, k: int)
    requires
        0 <= k <= s.len(),
        forall|j: int| 0 <= j < s.len() ==> !s[j],
    ensures
        count_true(s.take(k)) == 0,
    decreases k,
{
    if k > 0 {
        lemma_count_zero(s, k - 1);
        assert(s.take(k).drop_last() =~= s.take(k - 1));
    }
}

/// A door code that the walk may pass.
fn is_passable(k: u8) -> (b: bool)
    ensures
        b == passable_code(k),
{
    k == 0 || k == 2 || k == 3 || k == 4 || k == 5
}

/// List, in increasing order, the room IDs marked in a closed, sound visited set.
fn collect_visited(
    visited: &Vec<bool>,
    Ghost(buf): Ghost<Seq<u8>>,
    Ghost(base): Ghost<int>,
    Ghost(seeds): Ghost<Seq<u8>>,
) -> (rooms: Vec<u8>)
    requires
        visited@.len() == 0x80,
        forall|r: int| 0 <= r < 0x80 && visited@[r] ==> reachable(buf, base, seeds, r),
        forall|s: int| is_seed(seeds, s) ==> visited@[s],
        forall|m: int, n: int| 0 <= m < 0x80 && visited@[m] && room_edge(buf, base, m, n) ==> visited@[n],
    ensures
        lists_reachable(rooms@, buf, base, seeds),
{
    let rooms = marked_ids(visited);
    proof {
        assert forall|r: u8| rooms@.contains(r) <==> (r < 0x80 && reachable(buf, base, seeds, r as int)) by {
            if r < 0x80 && reachable(buf, base, seeds, r as int) {
                let k = choose|k: nat| reach_within(buf, base, seeds, k, r as int);
                lemma_reach_closed(buf, base, seeds, visited@, k, r as int);
            }
        }
    }
    rooms
}

/// Determine which room IDs belong to a dungeon by a walk from its start room.
///
/// Room connectivity is derived from the door types stored in AttrsA/B:
/// AttrsA bits 7-5 = north door, bits 4-2 = south door; AttrsB bits 7-5 = west door,
/// bits 4-2 = east door. Codes 0, 2, 3, 4 and 5 can be passed; 1 (wall), 6 and 7 cannot.
/// Room IDs encode grid position: row = id >> 4, col = id & 0x0F.
pub fn bfs_dungeon_rooms(buf: &[u8], block_base: usize, start_room: u8) -> (rooms: Vec<u8>)
    requires
        block_base + 0x100 <= usize::MAX,
    ensures
        lists_reachable(rooms@, buf@, block_base as int, seq![start_room]),
{
    let seeds: Vec<u8> = vec![start_room];
    assert(seeds@ =~= seq![start_room]);
    bfs_from_seeds(buf, block_base, seeds.as_slice())
}

/// ROM offset of the LevelInfoAddrsQ1 table, which immediately follows the
/// LevelBlockAddrsQ1 table (10 entries of 2 bytes) at the level addresses.
pub fn level_info_addrs_q1_rom_offset() -> (off: usize)
    ensures
        off == LEVEL_ADDRESSES + 10 * 2,
{
    LEVEL_ADDRESSES + 10 * 2
}

/// ROM offset where bank 6 begins; CPU $8000-$BFFF map there.
pub const BANK6_ROM_BASE: usize = 0x18010;
/// CPU address at which bank 6 is mapped.
pub const BANK6_CPU_BASE: usize = 0x8000;

/// The ROM base of the LevelInfo block of `dungeon`: its little-endian CPU address is
/// entry `dungeon` of LevelInfoAddrsQ1, mapped to a ROM offset through bank 6. None if the entry lies
/// past the buffer or the address is below $8000.
pub open spec fn level_info_base(buf: Seq<u8>, dungeon: u8) -> Option<int> {
    let entry = LEVEL_ADDRESSES + 10 * 2 + dungeon * 2;
    if entry + 1 < buf.len() {
        let cpu = buf[entry + 1] * 256 + buf[entry];
        if cpu < BANK6_CPU_BASE {
            None
        } else {
            Some(BANK6_ROM_BASE + (cpu - BANK6_CPU_BASE))
        }
    } else {
        None
    }
}

/// Resolve the ROM base address of the LevelInfo block for a dungeon (1-9).
fn level_info_rom_base(buf: &[u8], dungeon: u8) -> (base: Option<usize>)
    requires
        1 <= dungeon <= 9,
    ensures
        base matches Some(b) ==> level_info_base(buf@, dungeon) == Some(b as int),
        base is None ==> level_info_base(buf@, dungeon) is None,
        base matches Some(b) ==> b < BANK6_ROM_BASE + 0x8000,
{
    let table_off = level_info_addrs_q1_rom_offset();
    let entry_off = table_off + dungeon as usize * 2;
    if entry_off + 1 >= buf.len() {
        return None;
    }
    let lo = buf[entry_off] as usize;
    let hi = buf[entry_off + 1] as usize;
    let cpu_addr = (hi << 8) | lo;
    assert(cpu_addr == hi * 256 + lo) by (bit_vector)
        requires
            cpu_addr == (hi << 8) | lo,
            hi < 256,
            lo < 256,
    ;
    if cpu_addr < BANK6_CPU_BASE {
        return None;
    }
    Some(BANK6_ROM_BASE + (cpu_addr - BANK6_CPU_BASE))
}

/// Key room IDs read directly from a dungeon's LevelInfo block.
#[derive(Debug, Clone, Copy, PartialEq, Eq)]
pub struct LevelInfoRooms {
    pub start_room: u8,
    pub triforce_room: u8,
    pub boss_room: u8,
    /// Room IDs that contain staircases to hidden cellar rooms ($FF = unused slot).
    pub cellar_rooms: [u8; 10],
}

/// The seed rooms of a dungeon walk: start, triforce and boss rooms, then the cellar slots.
pub open spec fn info_seeds(info: LevelInfoRooms) -> Seq<u8> {
    seq![info.start_room, info.triforce_room, info.boss_room] + info.cellar_rooms@
}

/// The LevelInfo block of `dungeon` can be located and holds its start room.
pub open spec fn start_room_present(buf: Seq<u8>, dungeon: u8) -> bool {
    level_info_base(buf, dungeon) matches Some(b) && b + 0x2F < buf.len()
}

/// The LevelInfo block of `dungeon` can be located and holds its start, triforce and boss rooms.
pub open spec fn level_info_present(buf: Seq<u8>, dungeon: u8) -> bool {
    level_info_base(buf, dungeon) matches Some(b) && b + 0x3E < buf.len()
}

/// `info` is what the LevelInfo block of `dungeon` records: start room at +$2F, triforce
/// room at +$30, boss room at +$3E, and cellar slots at +$34.. (each $FF past the buffer).
pub open spec fn level_info_matches(buf: Seq<u8>, dungeon: u8, info: LevelInfoRooms) -> bool {
    level_info_base(buf, dungeon) matches Some(b) && {
        &&& info.start_room == buf[b + 0x2F]
        &&& info.triforce_room == buf[b + 0x30]
        &&& info.boss_room == buf[b + 0x3E]
        &&& forall|i: int| 0 <= i < 10 ==> #[trigger] info.cellar_rooms@[i] == byte_or(buf, b + 0x34 + i, 0xFF)
    }
}

/// The start room recorded in the LevelInfo block of a dungeon (1-9).
pub fn level_info_start_room(buf: &[u8], dungeon: u8) -> (room: Option<u8>)
    requires
        1 <= dungeon <= 9,
    ensures
        room is Some <==> start_room_present(buf@, dungeon),
        room matches Some(r) ==> r == buf@[level_info_base(buf@, dungeon)->0 + 0x2F],
{
    let base = match level_info_rom_base(buf, dungeon) {
        Some(b) => b,
        None => {
            return None;
        },
    };
    if base + 0x2F < buf.len() {
        Some(buf[base + 0x2F])
    } else {
        None
    }
}

/// Extract the full set of key room IDs from the LevelInfo block of a dungeon (1-9).
pub fn level_info_rooms(buf: &[u8], dungeon: u8) -> (info: Option<LevelInfoRooms>)
    requires
        1 <= dungeon <= 9,
    ensures
        info is Some <==> level_info_present(buf@, dungeon),
        info matches Some(i) ==> level_info_matches(buf@, dungeon, i),
{
    let base = match level_info_rom_base(buf, dungeon) {
        Some(b) => b,
        None => {
            return None;
        },
    };
    if base + 0x3E >= buf.len() {
        return None;
    }
    let start_room = buf[base + 0x2F];
    let triforce_room = buf[base + 0x30];
    let boss_room = buf[base + 0x3E];
    let c = base + 0x34;
    let cellar_rooms: [u8; 10] = [
        byte_at_or(buf, c, 0xFF),
        byte_at_or(buf, c + 1, 0xFF),
        byte_at_or(buf, c + 2, 0xFF),
        byte_at_or(buf, c + 3, 0xFF),
        byte_at_or(buf, c + 4, 0xFF),
        byte_at_or(buf, c + 5, 0xFF),
        byte_at_or(buf, c + 6, 0xFF),
        byte_at_or(buf, c + 7, 0xFF),
        byte_at_or(buf, c + 8, 0xFF),
        byte_at_or(buf, c + 9, 0xFF),
    ];
    let info = LevelInfoRooms { start_room, triforce_room, boss_room, cellar_rooms };
    assert forall|i: int| 0 <= i < 10 implies #[trigger] info.cellar_rooms@[i] == byte_or(buf@, base + 0x34 + i, 0xFF) by {
        assert(info.cellar_rooms@ == cellar_rooms@);
    }
    Some(info)
}

/// Determine which room IDs belong to a dungeon by a walk from all known seed rooms:
/// start room, triforce room, boss room, and every cellar room listed in LevelInfo
/// ($FF slots, like every ID of $80 or more, are not rooms and seed nothing).
/// Door traversal follows the rules of `bfs_dungeon_rooms`.
pub fn bfs_dungeon_rooms_full(buf: &[u8], block_base: usize, info: &LevelInfoRooms) -> (rooms: Vec<u8>)
    requires
        block_base + 0x100 <= usize::MAX,
    ensures
        lists_reachable(rooms@, buf@, block_base as int, info_seeds(*info)),
{
    let mut seeds: Vec<u8> = vec![info.start_room, info.triforce_room, info.boss_room];
    let mut i: usize = 0;
    while i < 10
        invariant
            i <= 10,
            seeds@ =~= seq![info.start_room, info.triforce_room, info.boss_room] + info.cellar_rooms@.take(i as int),
        decreases 10 - i,
    {
        seeds.push(info.cellar_rooms[i]);
        assert(info.cellar_rooms@.take(i + 1) =~= info.cellar_rooms@.take(i as int).push(info.cellar_rooms@[i as int]));
        i = i + 1;
    }
    assert(info.cellar_rooms@.take(10) =~= info.cellar_rooms@);
    bfs_from_seeds(buf, block_base, seeds.as_slice())
}

/// `ids` lists, in strictly increasing order, exactly the room IDs below $80 marked in `marks`.
pub open spec fn lists_marked(ids: Seq<u8>, marks: Seq<bool>) -> bool {
    &&& forall|i: int, j: int| 0 <= i < j < ids.len() ==> ids[i] < ids[j]
    &&& forall|r: u8| ids.contains(r) <==> (r < 0x80 && marks[r as int])
}

/// List, in increasing order, the room IDs marked in a table of 128 marks.
pub fn marked_ids(marks: &Vec<bool>) -> (ids: Vec<u8>)
    requires
        marks@.len() == 0x80,
    ensures
        lists_marked(ids@, marks@),
{
    let mut ids: Vec<u8> = Vec::new();
    let mut id: u8 = 0;
    while id < 0x80
        invariant
            id <= 0x80,
            marks@.len() == 0x80,
            forall|i: int, j: int| 0 <= i < j < ids@.len() ==> ids@[i] < ids@[j],
            forall|i: int| 0 <= i < ids@.len() ==> ids@[i] < id,
            forall|r: u8| r < id ==> (ids@.contains(r) <==> marks@[r as int]),
        decreases 0x80 - id,
    {
        let ghost old_ids = ids@;
        if marks[id as usize] {
            ids.push(id);
            proof {
                assert forall|r: u8| r < id + 1 implies (ids@.contains(r) <==> marks@[r as int]) by {
                    if r < id {
                        if old_ids.contains(r) {
                            let k = choose|k: int| 0 <= k < old_ids.len() && old_ids[k] == r;
                            assert(ids@[k] == r);
                        }
                        if ids@.contains(r) {
                            let k = choose|k: int| 0 <= k < ids@.len() && ids@[k] == r;
                            assert(k < old_ids.len());
                        }
                    } else {
                        assert(ids@[ids@.len() - 1] == r);
                    }
                }
            }
        } else {
            proof {
                assert forall|r: u8| r < id + 1 implies (ids@.contains(r) <==> marks@[r as int]) by {
                    if r == id && ids@.contains(r) {
                        let k = choose|k: int| 0 <= k < ids@.len() && ids@[k] == r;
                    }
                }
            }
        }
        id = id + 1;
    }
    proof {
        assert forall|r: u8| ids@.contains(r) implies r < 0x80 by {
            let k = choose|k: int| 0 <= k < ids@.len() && ids@[k] == r;
        }
    }
    ids
}

/// A walk's room list holds every seed that is a room, and is closed under steps:
/// from a listed room, every neighbour behind a passable door is listed too.
pub proof fn lemma_walk_holds_seeds_and_closed(rooms: Seq<u8>, buf: Seq<u8>, base: int, seeds: Seq<u8>)
    requires
        lists_reachable(rooms, buf, base, seeds),
    ensures
        forall|i: int| 0 <= i < seeds.len() && seeds[i] < 0x80 ==> rooms.contains(#[trigger] seeds[i]),
        forall|r: u8, n: int| rooms.contains(r) && room_edge(buf, base, r as int, n) ==> 0 <= n < 0x80 && rooms.contains(
            n as u8,
        ),
{
    assert forall|i: int| 0 <= i < seeds.len() && seeds[i] < 0x80 implies rooms.contains(#[trigger] seeds[i]) by {
        assert(is_seed(seeds, seeds[i] as int));
        assert(reach_within(buf, base, seeds, 0, seeds[i] as int));
    }
    assert forall|r: u8, n: int| rooms.contains(r) && room_edge(buf, base, r as int, n) implies 0 <= n < 0x80
        && rooms.contains(n as u8) by {
        lemma_reach_step(buf, base, seeds, r as int, n);
    }
}

proof fn lemma_reach_within_more_seeds(buf: Seq<u8>, base: int, seeds: Seq<u8>, more: Seq<u8>, k: nat, r: int)
    requires
        forall|x: int| is_seed(seeds, x) ==> is_seed(more, x),
        reach_within(buf, base, seeds, k, r),
    ensures
        reach_within(buf, base, more, k, r),
    decreases k,
{
    if k > 0 {
        let j = (k - 1) as nat;
        if reach_within(buf, base, seeds, j, r) {
            lemma_reach_within_more_seeds(buf, base, seeds, more, j, r);
        }
        if reach_within(buf, base, seeds, j, r - 0x10) {
            lemma_reach_within_more_seeds(buf, base, seeds, more, j, r - 0x10);
        }
        if reach_within(buf, base, seeds, j, r + 0x10) {
            lemma_reach_within_more_seeds(buf, base, seeds, more, j, r + 0x10);
        }
        if reach_within(buf, base, seeds, j, r - 1) {
            lemma_reach_within_more_seeds(buf, base, seeds, more, j, r - 1);
        }
        if reach_within(buf, base, seeds, j, r + 1) {
            lemma_reach_within_more_seeds(buf, base, seeds, more, j, r + 1);
        }
    }
}

/// A walk from more seed rooms finds at least the same rooms: when every seed of `seeds`
/// is also in `more_seeds`, each room listed for `seeds` is listed for `more_seeds`.
/// So a dungeon's rooms found from all its LevelInfo rooms include those found from its
/// start room alone.
pub proof fn lemma_more_seeds_more_rooms(
    rooms: Seq<u8>,
    more_rooms: Seq<u8>,
    buf: Seq<u8>,
    base: int,
    seeds: Seq<u8>,
    more_seeds: Seq<u8>,
)
    requires
        lists_reachable(rooms, buf, base, seeds),
        lists_reachable(more_rooms, buf, base, more_seeds),
        forall|i: int| 0 <= i < seeds.len() ==> more_seeds.contains(#[trigger] seeds[i]),
    ensures
        forall|r: u8| rooms.contains(r) ==> more_rooms.contains(r),
{
    assert forall|x: int| is_seed(seeds, x) implies is_seed(more_seeds, x) by {
        let i = choose|i: int| 0 <= i < seeds.len() && seeds[i] == x;
        assert(more_seeds.contains(seeds[i]));
    }
    assert forall|r: u8| rooms.contains(r) implies more_rooms.contains(r) by {
        let k = choose|k: nat| reach_within(buf, base, seeds, k, r as int);
        lemma_reach_within_more_seeds(buf, base, seeds, more_seeds, k, r as int);
    }
}

proof fn lemma_increasing_same_elements(a: Seq<u8>, b: Seq<u8>)
    requires
        forall|i: int, j: int| 0 <= i < j < a.len() ==> a[i] < a[j],
        forall|i: int, j: int| 0 <= i < j < b.len() ==> b[i] < b[j],
        forall|x: u8| a.contains(x) <==> b.contains(x),
    ensures
        a == b,
    decreases a.len(),
{
    if a.len() == 0 {
        if b.len() > 0 {
            assert(b.contains(b[0]));
        }
        assert(a =~= b);
    } else {
        assert(a.contains(a[0]));
        assert(b.len() > 0);
        assert(b.contains(b[0]));
        let j = choose|j: int| 0 <= j < b.len() && b[j] == a[0];
        let i = choose|i: int| 0 <= i < a.len() && a[i] == b[0];
        assert(a[0] == b[0]) by {
            if j > 0 {
                assert(b[0] < b[j]);
            }
            if i > 0 {
                assert(a[0] < a[i]);
            }
        }
        let a1 = a.drop_first();
        let b1 = b.drop_first();
        assert forall|x: u8| a1.contains(x) implies b1.contains(x) by {
            let k = choose|k: int| 0 <= k < a1.len() && a1[k] == x;
            assert(a[k + 1] == x && a[0] < a[k + 1]);
            assert(a.contains(x));
            let m = choose|m: int| 0 <= m < b.len() && b[m] == x;
            assert(m != 0);
            assert(b1[m - 1] == x);
        }
        assert forall|x: u8| b1.contains(x) implies a1.contains(x) by {
            let k = choose|k: int| 0 <= k < b1.len() && b1[k] == x;
            assert(b[k + 1] == x && b[0] < b[k + 1]);
            assert(b.contains(x));
            let m = choose|m: int| 0 <= m < a.len() && a[m] == x;
            assert(m != 0);
            assert(a1[m - 1] == x);
        }
        lemma_increasing_same_elements(a1, b1);
        assert(a =~= seq![a[0]] + a1);
        assert(b =~= seq![b[0]] + b1);
    }
}

/// The room list of a walk is determined by the image, the block and the seeds: two
/// lists that both list the reachable rooms in increasing order are the same list.
pub proof fn lemma_walk_list_unique(rooms: Seq<u8>, other: Seq<u8>, buf: Seq<u8>, base: int, seeds: Seq<u8>)
    requires
        lists_reachable(rooms, buf, base, seeds),
        lists_reachable(other, buf, base, seeds),
    ensures
        rooms == other,
{
    lemma_increasing_same_elements(rooms, other);
}

/// A walk passes every door with code 0, 2, 3, 4 or 5: from a listed room, the grid
/// neighbour behind such a door (south and north from AttrsA bits 4-2 and 7-5, east and
/// west from AttrsB bits 4-2 and 7-5) is listed too.
pub proof fn lemma_open_codes_are_passed(rooms: Seq<u8>, buf: Seq<u8>, base: int, seeds: Seq<u8>, r: u8)
    requires
        lists_reachable(rooms, buf, base, seeds),
        rooms.contains(r),
    ensures
        ({
            let a = attrs_a_at(buf, base, r as int);
            let b = attrs_b_at(buf, base, r as int);
            let south = (a >> 2u8) & 7u8;
            let north = (a >> 5u8) & 7u8;
            let east = (b >> 2u8) & 7u8;
            let west = (b >> 5u8) & 7u8;
            &&& (south == 0 || south == 2 || south == 3 || south == 4 || south == 5) && r / 16 < 7 ==> rooms.contains(
                (r + 16) as u8,
            )
            &&& (north == 0 || north == 2 || north == 3 || north == 4 || north == 5) && r / 16 > 0 ==> rooms.contains(
                (r - 16) as u8,
            )
            &&& (east == 0 || east == 2 || east == 3 || east == 4 || east == 5) && r % 16 < 15 ==> rooms.contains(
                (r + 1) as u8,
            )
            &&& (west == 0 || west == 2 || west == 3 || west == 4 || west == 5) && r % 16 > 0 ==> rooms.contains(
                (r - 1) as u8,
            )
        }),
{
    lemma_walk_holds_seeds_and_closed(rooms, buf, base, seeds);
    assert(r < 0x80);
    let a = attrs_a_at(buf, base, r as int);
    let b = attrs_b_at(buf, base, r as int);
    if passable_code((a >> 2u8) & 7u8) && r / 16 < 7 {
        assert(room_edge(buf, base, r as int, r + 16));
    }
    if passable_code((a >> 5u8) & 7u8) && r / 16 > 0 {
        assert(room_edge(buf, base, r as int, r - 16));
    }
    if passable_code((b >> 2u8) & 7u8) && r % 16 < 15 {
        assert(room_edge(buf, base, r as int, r + 1));
    }
    if passable_code((b >> 5u8) & 7u8) && r % 16 > 0 {
        assert(room_edge(buf, base, r as int, r - 1));
    }
}

/// The four door codes of room `r` are all solid: 1 (wall), 6 or 7.
spec fn room_walled(buf: Seq<u8>, base: int, r: int) -> bool {
    let a = attrs_a_at(buf, base, r);
    let b = attrs_b_at(buf, base, r);
    let solid = |k: u8| k == 1u8 || k == 6u8 || k == 7u8;
    &&& solid((a >> 2u8) & 7u8)
    &&& solid((a >> 5u8) & 7u8)
    &&& solid((b >> 2u8) & 7u8)
    &&& solid((b >> 5u8) & 7u8)
}

proof fn lemma_walled_reach_only_seeds(buf: Seq<u8>, base: int, seeds: Seq<u8>, k: nat, r: int)
    requires
        forall|x: int| 0 <= x < 0x80 ==> room_walled(buf, base, x),
        reach_within(buf, base, seeds, k, r),
    ensures
        is_seed(seeds, r),
    decreases k,
{
    if k > 0 {
        let j = (k - 1) as nat;
        if reach_within(buf, base, seeds, j, r) {
            lemma_walled_reach_only_seeds(buf, base, seeds, j, r);
        } else {
            let ns = seq![r - 0x10, r + 0x10, r - 1, r + 1];
            assert forall|q: int| 0 <= q < 4 implies !(reach_within(buf, base, seeds, j, #[trigger] ns[q]) && room_edge(
                buf,
                base,
                ns[q],
                r,
            )) by {
                if reach_within(buf, base, seeds, j, ns[q]) && room_edge(buf, base, ns[q], r) {
                    assert(room_walled(buf, base, ns[q]));
                }
            }
            assert(ns[0] == r - 0x10 && ns[1] == r + 0x10 && ns[2] == r - 1 && ns[3] == r + 1);
        }
    }
}

/// Walls stop a walk: when every room's doors all have codes 1 (wall), 6 or 7, the walk
/// lists only its seed rooms.
pub proof fn lemma_walls_stop_the_walk(rooms: Seq<u8>, buf: Seq<u8>, base: int, seeds: Seq<u8>)
    requires
        lists_reachable(rooms, buf, base, seeds),
        forall|x: int|
            #![trigger attrs_a_at(buf, base, x)]
            0 <= x < 0x80 ==> {
                let a = attrs_a_at(buf, base, x);
                let b = attrs_b_at(buf, base, x);
                &&& ((a >> 2u8) & 7u8 == 1 || (a >> 2u8) & 7u8 == 6 || (a >> 2u8) & 7u8 == 7)
                &&& ((a >> 5u8) & 7u8 == 1 || (a >> 5u8) & 7u8 == 6 || (a >> 5u8) & 7u8 == 7)
                &&& ((b >> 2u8) & 7u8 == 1 || (b >> 2u8) & 7u8 == 6 || (b >> 2u8) & 7u8 == 7)
                &&& ((b >> 5u8) & 7u8 == 1 || (b >> 5u8) & 7u8 == 6 || (b >> 5u8) & 7u8 == 7)
            },
    ensures
        forall|r: u8| rooms.contains(r) ==> seeds.contains(r),
{
    assert forall|x: int| 0 <= x < 0x80 implies room_walled(buf, base, x) by {
        assert(attrs_a_at(buf, base, x) == attrs_a_at(buf, base, x));
    }
    assert forall|r: u8| rooms.contains(r) implies seeds.contains(r) by {
        let k = choose|k: nat| reach_within(buf, base, seeds, k, r as int);
        lemma_walled_reach_only_seeds(buf, base, seeds, k, r as int);
        let i = choose|i: int| 0 <= i < seeds.len() && seeds[i] == r;
        assert(seeds[i] == r);
    }
}

} // verus!
