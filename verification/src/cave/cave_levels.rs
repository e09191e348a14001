use vstd::prelude::*;
use crate::cave::shop::Shop;
use crate::text::{decimal, push_decimal};

verus! {

/// What the spoiler log shows of the caves: the shop slots that sell a key.
#[derive(Debug)]
pub struct CaveLevels {
    pub shop_keys: Vec<Shop>,
}

/// The name of a shop slot: 0 left, 1 middle, anything else right.
pub open spec fn slot_name(slot: u8) -> Seq<char> {
    if slot == 0 {
        "Left"@
    } else if slot == 1 {
        "Middle"@
    } else {
        "Right"@
    }
}

/// The table line of a key-selling shop slot.
pub open spec fn shop_line(sk: Shop) -> Seq<char> {
    "| "@ + decimal(sk.shop_index as nat) + " | "@ + slot_name(sk.slot) + " | "@ + decimal(sk.price as nat)
        + " rupees |\n"@
}

/// The table lines of the first `n` slots.
pub open spec fn shop_lines(keys: Seq<Shop>, n: nat) -> Seq<char>
    decreases n,
{
    if n == 0 {
        seq![]
    } else {
        shop_lines(keys, (n - 1) as nat) + shop_line(keys[n - 1])
    }
}

/// The spoiler-log text of the caves: a heading and one line per key-selling slot, or a
/// note that there are no shops.
pub open spec fn cave_text(c: &CaveLevels) -> Seq<char> {
    if c.shop_keys@.len() == 0 {
        "No shops\n"@
    } else {
        "## Shop Keys\n\n"@ + shop_lines(c.shop_keys@, c.shop_keys@.len()) + "\n"@
    }
}

fn slot_label(slot: u8) -> (s: &'static str)
    ensures
        s@ == slot_name(slot),
{
    match slot {
        0 => "Left",
        1 => "Middle",
        _ => "Right",
    }
}

impl CaveLevels {
    /// The spoiler-log text of the caves.
    pub fn to_string(&self) -> (s: String)
        ensures
            s@ == cave_text(self),
    {
        let mut s = String::new();
        if self.shop_keys.len() == 0 {
            s.append("No shops\n");
            return s;
        }
        s.append("## Shop Keys\n\n");
        let mut i: usize = 0;
        while i < self.shop_keys.len()
            invariant
                i <= self.shop_keys@.len(),
                s@ == "## Shop Keys\n\n"@ + shop_lines(self.shop_keys@, i as nat),
            decreases self.shop_keys@.len() - i,
        {
            let sk = self.shop_keys[i];
            let ghost before = s@;
            s.append("| ");
            push_decimal(&mut s, sk.shop_index as u64);
            s.append(" | ");
            s.append(slot_label(sk.slot));
            s.append(" | ");
            push_decimal(&mut s, sk.price as u64);
            s.append(" rupees |\n");
            assert(s@ =~= before + shop_line(sk));
            assert(s@ =~= "## Shop Keys\n\n"@ + shop_lines(self.shop_keys@, (i + 1) as nat));
            i = i + 1;
        }
        s.append("\n");
        s
    }
}

proof fn lemma_shop_lines_hold_line(keys: Seq<Shop>, n: nat, i: int)
    requires
        0 <= i < n <= keys.len(),
    ensures
        exists|p: int|
            0 <= p && p + shop_line(keys[i]).len() <= shop_lines(keys, n).len() && #[trigger] shop_lines(keys, n).subrange(
                p,
                p + shop_line(keys[i]).len(),
            ) == shop_line(keys[i]),
    decreases n,
{
    let line = shop_line(keys[i]);
    let prev = shop_lines(keys, (n - 1) as nat);
    if i == n - 1 {
        let p = prev.len() as int;
        assert(shop_lines(keys, n).subrange(p, p + line.len()) =~= line);
    } else {
        lemma_shop_lines_hold_line(keys, (n - 1) as nat, i);
        let p = choose|p: int|
            0 <= p && p + line.len() <= prev.len() && #[trigger] prev.subrange(p, p + line.len()) == line;
        assert(shop_lines(keys, n).subrange(p, p + line.len()) =~= prev.subrange(p, p + line.len()));
    }
}

/// `t` holds `line` at some position.
pub open spec fn holds_text(t: Seq<char>, line: Seq<char>) -> bool {
    exists|p: int| 0 <= p && p + line.len() <= t.len() && #[trigger] t.subrange(p, p + line.len()) == line
}

/// The caves text lists every key-selling slot on a line of its own: the shop number,
/// the slot named "Left" for slot 0, "Middle" for slot 1 and "Right" otherwise, and the
/// price in rupees.
pub proof fn lemma_cave_text_lists_each_slot(c: &CaveLevels, i: int)
    requires
        0 <= i < c.shop_keys@.len(),
    ensures
        c.shop_keys@[i].slot == 0 ==> holds_text(
            cave_text(c),
            "| "@ + decimal(c.shop_keys@[i].shop_index as nat) + " | Left | "@ + decimal(c.shop_keys@[i].price as nat)
                + " rupees |\n"@,
        ),
        c.shop_keys@[i].slot == 1 ==> holds_text(
            cave_text(c),
            "| "@ + decimal(c.shop_keys@[i].shop_index as nat) + " | Middle | "@ + decimal(c.shop_keys@[i].price as nat)
                + " rupees |\n"@,
        ),
        c.shop_keys@[i].slot >= 2 ==> holds_text(
            cave_text(c),
            "| "@ + decimal(c.shop_keys@[i].shop_index as nat) + " | Right | "@ + decimal(c.shop_keys@[i].price as nat)
                + " rupees |\n"@,
        ),
{
    let keys = c.shop_keys@;
    let sk = keys[i];
    let line = shop_line(sk);
    lemma_shop_lines_hold_line(keys, keys.len(), i);
    let lines = shop_lines(keys, keys.len());
    let p = choose|p: int| 0 <= p && p + line.len() <= lines.len() && #[trigger] lines.subrange(p, p + line.len()) == line;
    let head = "## Shop Keys\n\n"@;
    let q = head.len() + p;
    assert(cave_text(c) == head + lines + "\n"@);
    assert(cave_text(c).subrange(q, q + line.len()) =~= lines.subrange(p, p + line.len()));
    let l0 = "| "@ + decimal(sk.shop_index as nat) + " | Left | "@ + decimal(sk.price as nat) + " rupees |\n"@;
    let l1 = "| "@ + decimal(sk.shop_index as nat) + " | Middle | "@ + decimal(sk.price as nat) + " rupees |\n"@;
    let l2 = "| "@ + decimal(sk.shop_index as nat) + " | Right | "@ + decimal(sk.price as nat) + " rupees |\n"@;
    reveal_strlit(" | ");
    reveal_strlit("Left");
    reveal_strlit("Middle");
    reveal_strlit("Right");
    reveal_strlit(" | Left | ");
    reveal_strlit(" | Middle | ");
    reveal_strlit(" | Right | ");
    if sk.slot == 0 {
        assert(line =~= l0);
    } else if sk.slot == 1 {
        assert(line =~= l1);
    } else {
        assert(line =~= l2);
    }
    assert(cave_text(c).subrange(q, q + line.len()) == line);
}

} // verus!
