use vstd::prelude::*;
use crate::dungeon::door_kind::DoorKind;
use crate::dungeon::room_data::{RoomData, room_is_notable, room_row};
use crate::dungeon::room_item::RoomItem;
use crate::text::{decimal, push_char, push_decimal};

verus! {

/// Everything the spoiler log shows of one dungeon.
#[derive(Debug)]
pub struct DungeonLevel {
    pub dungeon: u8,
    pub start_room: u8,
    pub rooms: Vec<RoomData>,
    pub map_mask: [u8; 16],
    pub map_rotation: u8,
    pub cellar_entrances: Vec<u8>,
    pub item_cellar_entrances: Vec<u8>,
    pub cellar_rooms: Vec<u8>,
    pub triforce_room: u8,
}

/// The nine dungeons of the first quest, dungeon 1 first.
#[derive(Debug)]
pub struct DungeonLevels {
    pub levels: [DungeonLevel; 9],
}

// ---------------------------------------------------------------------------
// The map drawing.
// ---------------------------------------------------------------------------

/// Room `id` (row = id / 16, column = id % 16) is shown on the dungeon map: bit
/// `7 - row` of mask byte `(column + rotation) % 16` is set.
pub open spec fn room_visible(mask: Seq<u8>, rotation: u8, id: u8) -> bool {
    let col = (id % 16) as int;
    let row = (id / 16) as int;
    (mask[(col + rotation) % 16] >> ((7 - row) as u8)) & 1u8 == 1u8
}

/// The map character of a door: a gap for an open door, a letter or symbol for special
/// doors, and for a wall a double line on visible rooms, a single line otherwise.
pub open spec fn door_glyph(kind: DoorKind, vertical: bool, is_visible: bool) -> char {
    match kind {
        DoorKind::Open => ' ',
        DoorKind::Locked => 'Ω',
        DoorKind::PushBlock => 'p',
        DoorKind::Bombable => '~',
        DoorKind::Shutter => 'x',
        DoorKind::InvisibleWall => '░',
        DoorKind::Wall => if is_visible {
            if vertical { '║' } else { '═' }
        } else {
            if vertical { '│' } else { '─' }
        },
    }
}

/// The map character in the centre of a room, by its item.
pub open spec fn center_glyph(room: RoomData) -> char {
    match room.item {
        RoomItem::HeartContainer => '♥',
        RoomItem::Triforce | RoomItem::TriforceOfPower => '▲',
        RoomItem::Compass => 'c',
        RoomItem::DungeonMap => 'm',
        RoomItem::Key | RoomItem::MagicKey => '⚷',
        RoomItem::Rupees | RoomItem::FiveRupees => '$',
        RoomItem::NoItem => ' ',
        _ => 'i',
    }
}

/// The map character of a door.
pub fn door_char(kind: DoorKind, vertical: bool, is_visible: bool) -> (c: char)
    ensures
        c == door_glyph(kind, vertical, is_visible),
{
    match kind {
        DoorKind::Open => ' ',
        DoorKind::Locked => 'Ω',
        DoorKind::PushBlock => 'p',
        DoorKind::Bombable => '~',
        DoorKind::Shutter => 'x',
        DoorKind::InvisibleWall => '░',
        DoorKind::Wall => {
            if is_visible {
                if vertical {
                    '║'
                } else {
                    '═'
                }
            } else {
                if vertical {
                    '│'
                } else {
                    '─'
                }
            }
        },
    }
}

/// The map character in the centre of a room.
pub fn center_char(room: &RoomData) -> (c: char)
    ensures
        c == center_glyph(*room),
{
    match room.item {
        RoomItem::HeartContainer => '♥',
        RoomItem::Triforce | RoomItem::TriforceOfPower => '▲',
        RoomItem::Compass => 'c',
        RoomItem::DungeonMap => 'm',
        RoomItem::Key | RoomItem::MagicKey => '⚷',
        RoomItem::Rupees | RoomItem::FiveRupees => '$',
        RoomItem::NoItem => ' ',
        _ => 'i',
    }
}

/// The first room in `rooms` with ID `id`.
pub open spec fn first_room(rooms: Seq<RoomData>, id: u8) -> Option<RoomData>
    decreases rooms.len(),
{
    if rooms.len() == 0 {
        None
    } else if rooms[0].room_id == id {
        Some(rooms[0])
    } else {
        first_room(rooms.drop_first(), id)
    }
}

/// The room drawn at map position `id`: the first room with that ID, unless it is a cellar.
pub open spec fn drawn_room(lvl: &DungeonLevel, id: u8) -> Option<RoomData> {
    if lvl.cellar_rooms@.contains(id) {
        None
    } else {
        first_room(lvl.rooms@, id)
    }
}

/// The room ID at map row `row` and column `col` (0-7) of a half-map starting at `base_col`.
pub open spec fn map_id(row: int, base_col: int, col: int) -> u8 {
    (row * 16 + base_col + col) as u8
}

/// Blank space for a map cell without a room.
pub open spec fn blank_cell() -> Seq<char> {
    seq![' ', ' ', ' ', ' ', ' ']
}

/// Top line of a map cell: corners and wall, with the north door in the middle.
pub open spec fn cell_top(lvl: &DungeonLevel, id: u8) -> Seq<char> {
    match drawn_room(lvl, id) {
        Some(r) => {
            let vis = room_visible(lvl.map_mask@, lvl.map_rotation, r.room_id);
            let hw = if vis { '═' } else { '─' };
            seq![if vis { '╔' } else { '┌' }, hw, door_glyph(r.doors.north, false, vis), hw, if vis { '╗' } else { '┐' }]
        },
        None => blank_cell(),
    }
}

/// The centre mark of a drawn room: 'z' for the triforce room of dungeon 9, 'i' for an
/// entrance of an item cellar, 's' for an entrance of another cellar, else by its item.
pub open spec fn center_mark(lvl: &DungeonLevel, r: RoomData) -> char {
    if lvl.dungeon == 9 && r.room_id == lvl.triforce_room {
        'z'
    } else if lvl.item_cellar_entrances@.contains(r.room_id) {
        'i'
    } else if lvl.cellar_entrances@.contains(r.room_id) {
        's'
    } else {
        center_glyph(r)
    }
}

/// Middle line of a map cell: west door, centre mark, east door.
pub open spec fn cell_mid(lvl: &DungeonLevel, id: u8) -> Seq<char> {
    match drawn_room(lvl, id) {
        Some(r) => {
            let vis = room_visible(lvl.map_mask@, lvl.map_rotation, r.room_id);
            seq![door_glyph(r.doors.west, true, vis), ' ', center_mark(lvl, r), ' ', door_glyph(r.doors.east, true, vis)]
        },
        None => blank_cell(),
    }
}

/// Bottom line of a map cell: corners and wall, with the south door in the middle, or a
/// house for the start room.
pub open spec fn cell_bottom(lvl: &DungeonLevel, id: u8) -> Seq<char> {
    match drawn_room(lvl, id) {
        Some(r) => {
            let vis = room_visible(lvl.map_mask@, lvl.map_rotation, r.room_id);
            let hw = if vis { '═' } else { '─' };
            let s = if r.room_id == lvl.start_room { '⌂' } else { door_glyph(r.doors.south, false, vis) };
            seq![if vis { '╚' } else { '└' }, hw, s, hw, if vis { '╝' } else { '┘' }]
        },
        None => blank_cell(),
    }
}

/// The first `n` cells of line `part` (0 top, 1 middle, 2 bottom) of map row `row`.
pub open spec fn cells(lvl: &DungeonLevel, part: int, row: int, base_col: int, n: nat) -> Seq<char>
    decreases n,
{
    if n == 0 {
        seq![]
    } else {
        let id = map_id(row, base_col, n - 1);
        cells(lvl, part, row, base_col, (n - 1) as nat) + if part == 0 {
            cell_top(lvl, id)
        } else if part == 1 {
            cell_mid(lvl, id)
        } else {
            cell_bottom(lvl, id)
        }
    }
}

/// The three text lines of map row `row`; the middle one is labelled with the row number.
pub open spec fn row_text(lvl: &DungeonLevel, row: int, base_col: int) -> Seq<char> {
    "  "@ + cells(lvl, 0, row, base_col, 8) + "\n"@ + decimal((row + 1) as nat) + " "@ + cells(lvl, 1, row, base_col, 8)
        + "\n"@ + "  "@ + cells(lvl, 2, row, base_col, 8) + "\n"@
}

/// The first `n` map rows.
pub open spec fn rows_text(lvl: &DungeonLevel, base_col: int, n: nat) -> Seq<char>
    decreases n,
{
    if n == 0 {
        seq![]
    } else {
        rows_text(lvl, base_col, (n - 1) as nat) + row_text(lvl, n - 1, base_col)
    }
}

/// The table rows of the notable rooms among the first `n`.
pub open spec fn notable_rows(rooms: Seq<RoomData>, n: nat) -> Seq<char>
    decreases n,
{
    if n == 0 {
        seq![]
    } else {
        notable_rows(rooms, (n - 1) as nat) + if room_is_notable(rooms[n - 1]) {
            room_row(rooms[n - 1]) + "\n"@
        } else {
            seq![]
        }
    }
}

/// The map header: the column letters.
pub open spec fn map_header() -> Seq<char> {
    "    A    B    C    D    E    F    G    H\n"@
}

/// The table header.
pub open spec fn table_header() -> Seq<char> {
    "| Room | Item | Trigger | N | S | E | W |\n"@ + "|------|------|---------|---|---|---|---|\n"@
}

/// The spoiler-log text of a dungeon: the half of the map that holds the start room
/// (columns 0-7 or 8-15) in a fenced block, then a table of the notable rooms.
pub open spec fn level_text(lvl: &DungeonLevel) -> Seq<char> {
    if lvl.rooms@.len() == 0 {
        "No rooms found.\n"@
    } else {
        let base_col = if lvl.start_room % 16 < 8 { 0int } else { 8int };
        "```text\n"@ + map_header() + rows_text(lvl, base_col, 8) + "```\n\n"@ + table_header() + notable_rows(
            lvl.rooms@,
            lvl.rooms@.len(),
        )
    }
}

/// Whether `v` holds `x`.
fn holds(v: &Vec<u8>, x: u8) -> (b: bool)
    ensures
        b == v@.contains(x),
{
    let mut i: usize = 0;
    while i < v.len()
        invariant
            i <= v@.len(),
            forall|k: int| 0 <= k < i ==> v@[k] != x,
        decreases v@.len() - i,
    {
        if v[i] == x {
            return true;
        }
        i = i + 1;
    }
    false
}

impl DungeonLevel {
    /// Whether a room (ID below $80) is shown on the dungeon map.
    pub fn is_room_visible(&self, room_id: u8) -> (b: bool)
        requires
            room_id < 0x80,
        ensures
            b == room_visible(self.map_mask@, self.map_rotation, room_id),
    {
        let col = (room_id & 0x0F) as usize;
        let row = (room_id >> 4) as usize;
        assert(col == room_id % 16 && row == room_id / 16 && row < 8) by (bit_vector)
            requires col == (room_id & 0x0F) as usize, row == (room_id >> 4) as usize, room_id < 0x80;
        let mask_col = (col + self.map_rotation as usize) % 16;
        let mask_byte = self.map_mask[mask_col];
        let shift = (7 - row) as u8;
        assert((mask_byte & (1u8 << shift)) != 0 <==> (mask_byte >> shift) & 1u8 == 1u8) by (bit_vector)
            requires shift < 8;
        (mask_byte & (1u8 << shift)) != 0
    }

    /// The room drawn at map position `id`.
    fn find_drawn(&self, id: u8) -> (r: Option<&RoomData>)
        ensures
            match r {
                Some(x) => drawn_room(self, id) == Some(*x) && x.room_id == id,
                None => drawn_room(self, id) is None,
            },
    {
        if holds(&self.cellar_rooms, id) {
            return None;
        }
        assert(self.rooms@.subrange(0, self.rooms@.len() as int) =~= self.rooms@);
        let mut i: usize = 0;
        while i < self.rooms.len()
            invariant
                i <= self.rooms@.len(),
                !self.cellar_rooms@.contains(id),
                first_room(self.rooms@, id) == first_room(self.rooms@.subrange(i as int, self.rooms@.len() as int), id),
            decreases self.rooms@.len() - i,
        {
            let ghost rest = self.rooms@.subrange(i as int, self.rooms@.len() as int);
            if self.rooms[i].room_id == id {
                return Some(&self.rooms[i]);
            }
            assert(rest.drop_first() =~= self.rooms@.subrange(i + 1, self.rooms@.len() as int));
            i = i + 1;
        }
        None
    }

    /// Append the top line of the map cell at `id`.
    fn push_cell_top(&self, s: &mut String, id: u8)
        requires
            id < 0x80,
        ensures
            final(s)@ == old(s)@ + cell_top(self, id),
    {
        match self.find_drawn(id) {
            Some(r) => {
                let vis = self.is_room_visible(r.room_id);
                let hw = if vis { '═' } else { '─' };
                push_char(s, if vis { '╔' } else { '┌' });
                push_char(s, hw);
                push_char(s, door_char(r.doors.north, false, vis));
                push_char(s, hw);
                push_char(s, if vis { '╗' } else { '┐' });
                assert(s@ =~= old(s)@ + cell_top(self, id));
            },
            None => {
                s.append("     ");
                proof {
                    reveal_strlit("     ");
                }
                assert(s@ =~= old(s)@ + cell_top(self, id));
            },
        }
    }

    /// Append the middle line of the map cell at `id`.
    fn push_cell_mid(&self, s: &mut String, id: u8)
        requires
            id < 0x80,
        ensures
            final(s)@ == old(s)@ + cell_mid(self, id),
    {
        match self.find_drawn(id) {
            Some(r) => {
                let vis = self.is_room_visible(r.room_id);
                let c = if self.dungeon == 9 && r.room_id == self.triforce_room {
                    'z'
                } else if holds(&self.item_cellar_entrances, r.room_id) {
                    'i'
                } else if holds(&self.cellar_entrances, r.room_id) {
                    's'
                } else {
                    center_char(r)
                };
                push_char(s, door_char(r.doors.west, true, vis));
                push_char(s, ' ');
                push_char(s, c);
                push_char(s, ' ');
                push_char(s, door_char(r.doors.east, true, vis));
                assert(s@ =~= old(s)@ + cell_mid(self, id));
            },
            None => {
                s.append("     ");
                proof {
                    reveal_strlit("     ");
                }
                assert(s@ =~= old(s)@ + cell_mid(self, id));
            },
        }
    }

    /// Append the bottom line of the map cell at `id`.
    fn push_cell_bottom(&self, s: &mut String, id: u8)
        requires
            id < 0x80,
        ensures
            final(s)@ == old(s)@ + cell_bottom(self, id),
    {
        match self.find_drawn(id) {
            Some(r) => {
                let vis = self.is_room_visible(r.room_id);
                let hw = if vis { '═' } else { '─' };
                let south = if r.room_id == self.start_room {
                    '⌂'
                } else {
                    door_char(r.doors.south, false, vis)
                };
                push_char(s, if vis { '╚' } else { '└' });
                push_char(s, hw);
                push_char(s, south);
                push_char(s, hw);
                push_char(s, if vis { '╝' } else { '┘' });
                assert(s@ =~= old(s)@ + cell_bottom(self, id));
            },
            None => {
                s.append("     ");
                proof {
                    reveal_strlit("     ");
                }
                assert(s@ =~= old(s)@ + cell_bottom(self, id));
            },
        }
    }

    /// Append the cells of line `part` of map row `row`.
    fn push_cells(&self, s: &mut String, part: u8, row: u8, base_col: u8)
        requires
            part < 3,
            row < 8,
            base_col == 0 || base_col == 8,
        ensures
            final(s)@ == old(s)@ + cells(self, part as int, row as int, base_col as int, 8),
    {
        let mut col: u8 = 0;
        while col < 8
            invariant
                col <= 8,
                part < 3,
                row < 8,
                base_col == 0 || base_col == 8,
                s@ == old(s)@ + cells(self, part as int, row as int, base_col as int, col as nat),
            decreases 8 - col,
        {
            let id: u8 = row * 16 + base_col + col;
            let ghost before = s@;
            if part == 0 {
                self.push_cell_top(s, id);
            } else if part == 1 {
                self.push_cell_mid(s, id);
            } else {
                self.push_cell_bottom(s, id);
            }
            assert(map_id(row as int, base_col as int, col as int) == id);
            assert(s@ =~= old(s)@ + cells(self, part as int, row as int, base_col as int, (col + 1) as nat));
            col = col + 1;
        }
    }
}

impl DungeonLevel {
    /// Append the three text lines of map row `row`.
    fn push_row_text(&self, s: &mut String, row: u8, base_col: u8)
        requires
            row < 8,
            base_col == 0 || base_col == 8,
        ensures
            final(s)@ == old(s)@ + row_text(self, row as int, base_col as int),
    {
        let ghost s0 = s@;
        s.append("  ");
        self.push_cells(s, 0, row, base_col);
        s.append("\n");
        let ghost p1 = "  "@ + cells(self, 0, row as int, base_col as int, 8) + "\n"@;
        assert(s@ =~= s0 + p1);
        push_decimal(s, (row + 1) as u64);
        s.append(" ");
        self.push_cells(s, 1, row, base_col);
        s.append("\n");
        let ghost p2 = p1 + decimal((row + 1) as nat) + " "@ + cells(self, 1, row as int, base_col as int, 8) + "\n"@;
        assert(s@ =~= s0 + p2);
        s.append("  ");
        self.push_cells(s, 2, row, base_col);
        s.append("\n");
        let ghost p3 = p2 + "  "@ + cells(self, 2, row as int, base_col as int, 8) + "\n"@;
        assert(s@ =~= s0 + p3);
        assert(p3 =~= row_text(self, row as int, base_col as int));
    }

    /// The spoiler-log text of this dungeon: the map half that holds the start room,
    /// then a table of the notable rooms.
    pub fn to_string(&self) -> (s: String)
        ensures
            s@ == level_text(self),
    {
        let mut s = String::new();
        if self.rooms.len() == 0 {
            s.append("No rooms found.\n");
            return s;
        }
        let start = self.start_room;
        let base_col: u8 = if (start & 0x0F) < 8 { 0 } else { 8 };
        assert((start & 0x0Fu8) == start % 16) by (bit_vector);
        s.append("```text\n");
        s.append("    A    B    C    D    E    F    G    H\n");
        assert(s@ =~= "```text\n"@ + map_header());
        let mut row: u8 = 0;
        while row < 8
            invariant
                row <= 8,
                base_col == 0 || base_col == 8,
                base_col == (if self.start_room % 16 < 8 { 0int } else { 8int }),
                s@ == "```text\n"@ + map_header() + rows_text(self, base_col as int, row as nat),
            decreases 8 - row,
        {
            self.push_row_text(&mut s, row, base_col);
            row = row + 1;
        }
        let ghost head = "```text\n"@ + map_header() + rows_text(self, base_col as int, 8);
        s.append("```\n\n");
        s.append("| Room | Item | Trigger | N | S | E | W |\n");
        s.append("|------|------|---------|---|---|---|---|\n");
        assert(s@ =~= head + "```\n\n"@ + table_header());
        let mut i: usize = 0;
        while i < self.rooms.len()
            invariant
                i <= self.rooms@.len(),
                s@ == head + "```\n\n"@ + table_header() + notable_rows(self.rooms@, i as nat),
            decreases self.rooms@.len() - i,
        {
            let ghost before = s@;
            if self.rooms[i].is_notable() {
                self.rooms[i].push_row(&mut s);
                s.append("\n");
                assert(s@ =~= before + (room_row(self.rooms@[i as int]) + "\n"@));
            }
            assert(s@ =~= head + "```\n\n"@ + table_header() + notable_rows(self.rooms@, (i + 1) as nat));
            i = i + 1;
        }
        s
    }
}

/// The spoiler-log text of the first `n` dungeons: a heading with the dungeon number,
/// then the dungeon's text and a blank line.
pub open spec fn levels_text(levels: Seq<DungeonLevel>, n: nat) -> Seq<char>
    decreases n,
{
    if n == 0 {
        seq![]
    } else {
        let d = levels[n - 1];
        levels_text(levels, (n - 1) as nat) + "## Dungeon "@ + decimal(d.dungeon as nat) + "\n\n"@ + level_text(&d)
            + "\n"@
    }
}

impl DungeonLevels {
    /// The spoiler-log text of all nine dungeons, followed by a blank line.
    pub fn to_string(&self) -> (s: String)
        ensures
            s@ == levels_text(self.levels@, 9) + "\n"@,
    {
        let mut s = String::new();
        let mut i: usize = 0;
        while i < 9
            invariant
                i <= 9,
                s@ == levels_text(self.levels@, i as nat),
            decreases 9 - i,
        {
            let ghost before = s@;
            let d = &self.levels[i];
            s.append("## Dungeon ");
            push_decimal(&mut s, d.dungeon as u64);
            s.append("\n\n");
            let t = d.to_string();
            s.append(t.as_str());
            s.append("\n");
            assert(s@ =~= levels_text(self.levels@, (i + 1) as nat));
            i = i + 1;
        }
        s.append("\n");
        s
    }
}

proof fn lemma_first_room_found(rooms: Seq<RoomData>, id: u8)
    requires
        exists|i: int| 0 <= i < rooms.len() && rooms[i].room_id == id,
    ensures
        first_room(rooms, id) matches Some(r) && r.room_id == id,
    decreases rooms.len(),
{
    if rooms[0].room_id != id {
        let i = choose|i: int| 0 <= i < rooms.len() && rooms[i].room_id == id;
        assert(rooms.drop_first()[i - 1] == rooms[i]);
        lemma_first_room_found(rooms.drop_first(), id);
    }
}

proof fn lemma_concat_contains(a: Seq<char>, b: Seq<char>, c: char)
    requires
        a.contains(c) || b.contains(c),
    ensures
        (a + b).contains(c),
{
    if a.contains(c) {
        let i = choose|i: int| 0 <= i < a.len() && a[i] == c;
        assert((a + b)[i] == c);
    } else {
        let j = choose|j: int| 0 <= j < b.len() && b[j] == c;
        assert((a + b)[a.len() + j] == c);
    }
}

proof fn lemma_bottom_cells_contain(lvl: &DungeonLevel, row: int, base_col: int, n: nat, col: int, c: char)
    requires
        0 <= col < n,
        cell_bottom(lvl, map_id(row, base_col, col)).contains(c),
    ensures
        cells(lvl, 2, row, base_col, n).contains(c),
    decreases n,
{
    let prev = cells(lvl, 2, row, base_col, (n - 1) as nat);
    let last = cell_bottom(lvl, map_id(row, base_col, n - 1));
    if col < n - 1 {
        lemma_bottom_cells_contain(lvl, row, base_col, (n - 1) as nat, col, c);
    }
    lemma_concat_contains(prev, last, c);
}

proof fn lemma_rows_contain(lvl: &DungeonLevel, base_col: int, n: nat, row: int, c: char)
    requires
        0 <= row < n,
        row_text(lvl, row, base_col).contains(c),
    ensures
        rows_text(lvl, base_col, n).contains(c),
    decreases n,
{
    if row < n - 1 {
        lemma_rows_contain(lvl, base_col, (n - 1) as nat, row, c);
    }
    lemma_concat_contains(rows_text(lvl, base_col, (n - 1) as nat), row_text(lvl, n - 1, base_col), c);
}

/// The dungeon map shows the half that holds the start room: when the start room is one
/// of the dungeon's rooms (and not a cellar), its house '⌂' is drawn, so the map covers
/// columns 8-15 when the start room lies in them and columns 0-7 otherwise.
pub proof fn lemma_start_room_is_drawn(lvl: &DungeonLevel)
    requires
        lvl.start_room < 0x80,
        !lvl.cellar_rooms@.contains(lvl.start_room),
        exists|i: int| 0 <= i < lvl.rooms@.len() && lvl.rooms@[i].room_id == lvl.start_room,
    ensures
        level_text(lvl).contains('⌂'),
{
    let start = lvl.start_room;
    let row = (start / 16) as int;
    let base_col = if start % 16 < 8 { 0int } else { 8int };
    let col = (start % 16) - base_col;
    lemma_first_room_found(lvl.rooms@, start);
    assert(map_id(row, base_col, col) == start);
    let bottom = cell_bottom(lvl, start);
    assert(bottom[2] == '⌂');
    assert(bottom.contains('⌂'));
    lemma_bottom_cells_contain(lvl, row, base_col, 8, col, '⌂');
    let c2 = cells(lvl, 2, row, base_col, 8);
    let p = "  "@ + cells(lvl, 0, row, base_col, 8) + "\n"@ + decimal((row + 1) as nat) + " "@ + cells(
        lvl,
        1,
        row,
        base_col,
        8,
    ) + "\n"@ + "  "@;
    lemma_concat_contains(p, c2, '⌂');
    lemma_concat_contains(p + c2, "\n"@, '⌂');
    assert(row_text(lvl, row, base_col) == p + c2 + "\n"@);
    lemma_rows_contain(lvl, base_col, 8, row, '⌂');
    let rows = rows_text(lvl, base_col, 8);
    let q = "```text\n"@ + map_header();
    lemma_concat_contains(q, rows, '⌂');
    lemma_concat_contains(q + rows, "```\n\n"@, '⌂');
    lemma_concat_contains(q + rows + "```\n\n"@, table_header(), '⌂');
    lemma_concat_contains(
        q + rows + "```\n\n"@ + table_header(),
        notable_rows(lvl.rooms@, lvl.rooms@.len()),
        '⌂',
    );
}

proof fn lemma_cells_shape(lvl: &DungeonLevel, part: int, row: int, base_col: int, n: nat)
    ensures
        cells(lvl, part, row, base_col, n).len() == 5 * n,
        part == 2 ==> forall|col: int|
            0 <= col < n ==> #[trigger] cells(lvl, part, row, base_col, n)[5 * col + 2] == cell_bottom(
                lvl,
                map_id(row, base_col, col),
            )[2],
    decreases n,
{
    if n > 0 {
        lemma_cells_shape(lvl, part, row, base_col, (n - 1) as nat);
        let prev = cells(lvl, part, row, base_col, (n - 1) as nat);
        if part == 2 {
            assert forall|col: int| 0 <= col < n implies #[trigger] cells(lvl, part, row, base_col, n)[5 * col + 2]
                == cell_bottom(lvl, map_id(row, base_col, col))[2] by {
                if col < n - 1 {
                    assert(cells(lvl, part, row, base_col, n)[5 * col + 2] == prev[5 * col + 2]);
                }
            }
        }
    }
}

proof fn lemma_row_text_shape(lvl: &DungeonLevel, row: int, base_col: int)
    requires
        0 <= row < 8,
    ensures
        row_text(lvl, row, base_col).len() == 129,
        forall|col: int|
            0 <= col < 8 ==> #[trigger] row_text(lvl, row, base_col)[88 + 5 * col + 2] == cell_bottom(
                lvl,
                map_id(row, base_col, col),
            )[2],
{
    lemma_cells_shape(lvl, 0, row, base_col, 8);
    lemma_cells_shape(lvl, 1, row, base_col, 8);
    lemma_cells_shape(lvl, 2, row, base_col, 8);
    assert(decimal((row + 1) as nat).len() == 1);
    reveal_strlit("  ");
    reveal_strlit("\n");
    reveal_strlit(" ");
    let c2 = cells(lvl, 2, row, base_col, 8);
    let p = "  "@ + cells(lvl, 0, row, base_col, 8) + "\n"@ + decimal((row + 1) as nat) + " "@ + cells(
        lvl,
        1,
        row,
        base_col,
        8,
    ) + "\n"@ + "  "@;
    assert(p.len() == 88);
    assert(row_text(lvl, row, base_col) == p + c2 + "\n"@);
    assert forall|col: int| 0 <= col < 8 implies #[trigger] row_text(lvl, row, base_col)[88 + 5 * col + 2]
        == cell_bottom(lvl, map_id(row, base_col, col))[2] by {
        assert((p + c2 + "\n"@)[88 + 5 * col + 2] == c2[5 * col + 2]);
    }
}

proof fn lemma_rows_text_shape(lvl: &DungeonLevel, base_col: int, n: nat)
    requires
        n <= 8,
    ensures
        rows_text(lvl, base_col, n).len() == 129 * n,
        forall|row: int, k: int|
            0 <= row < n && 0 <= k < 129 ==> #[trigger] rows_text(lvl, base_col, n)[129 * row + k] == row_text(
                lvl,
                row,
                base_col,
            )[k],
    decreases n,
{
    if n > 0 {
        lemma_rows_text_shape(lvl, base_col, (n - 1) as nat);
        lemma_row_text_shape(lvl, n - 1, base_col);
        let prev = rows_text(lvl, base_col, (n - 1) as nat);
        assert forall|row: int, k: int| 0 <= row < n && 0 <= k < 129 implies #[trigger] rows_text(
            lvl,
            base_col,
            n,
        )[129 * row + k] == row_text(lvl, row, base_col)[k] by {
            if row < n - 1 {
                assert(rows_text(lvl, base_col, n)[129 * row + k] == prev[129 * row + k]);
            } else {
                assert(rows_text(lvl, base_col, n)[129 * row + k] == row_text(lvl, n - 1, base_col)[k]);
            }
        }
    }
}

/// The start room's house sits in the start room's own map cell: counting from the start
/// of the dungeon text, the map's row of the start room (`start_room / 16`) and its
/// column within the drawn half (`start_room % 8`) place the '⌂' at character
/// 139 + 129 * row + 5 * column. Drawing the wrong half, or the wrong cell, breaks this.
pub proof fn lemma_start_room_house_position(lvl: &DungeonLevel)
    requires
        lvl.start_room < 0x80,
        !lvl.cellar_rooms@.contains(lvl.start_room),
        exists|i: int| 0 <= i < lvl.rooms@.len() && lvl.rooms@[i].room_id == lvl.start_room,
    ensures
        level_text(lvl).len() > 139 + 129 * (lvl.start_room / 16) + 5 * (lvl.start_room % 8),
        level_text(lvl)[139 + 129 * (lvl.start_room / 16) + 5 * (lvl.start_room % 8)] == '⌂',
{
    let start = lvl.start_room;
    let row = (start / 16) as int;
    let base_col = if start % 16 < 8 { 0int } else { 8int };
    let col = (start % 16) - base_col;
    assert(col == start % 8);
    lemma_first_room_found(lvl.rooms@, start);
    assert(map_id(row, base_col, col) == start);
    assert(cell_bottom(lvl, start)[2] == '⌂');
    lemma_row_text_shape(lvl, row, base_col);
    lemma_rows_text_shape(lvl, base_col, 8);
    let rows = rows_text(lvl, base_col, 8);
    assert(rows[129 * row + (88 + 5 * col + 2)] == '⌂');
    reveal_strlit("```text\n");
    reveal_strlit("    A    B    C    D    E    F    G    H\n");
    let q = "```text\n"@ + map_header();
    assert(q.len() == 49);
    let rest = "```\n\n"@ + table_header() + notable_rows(lvl.rooms@, lvl.rooms@.len());
    let idx = 49 + 129 * row + 88 + 5 * col + 2;
    assert(level_text(lvl) =~= q + rows + rest) by {
        assert(q + rows + "```\n\n"@ + table_header() + notable_rows(lvl.rooms@, lvl.rooms@.len()) =~= q + rows + rest);
    }
    assert((q + rows + rest)[idx] == rows[idx - 49]);
}

} // verus!
