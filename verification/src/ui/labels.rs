use vstd::prelude::*;

verus! {

/// Whether two strings hold the same characters.
pub fn str_eq(a: &str, b: &str) -> (r: bool)
    ensures
        r == (a@ == b@),
{
    let n = a.unicode_len();
    if n != b.unicode_len() {
        return false;
    }
    let mut i: usize = 0;
    while i < n
        invariant
            i <= n,
            n == a@.len(),
            n == b@.len(),
            forall|k: int| 0 <= k < i ==> a@[k] == b@[k],
        decreases n - i,
    {
        if a.get_char(i) != b.get_char(i) {
            return false;
        }
        i = i + 1;
    }
    assert(a@ =~= b@);
    true
}

/// The arrow picker's label of an arrow level: 1 wood, 2 silver, else none.
pub open spec fn arrow_name(level: u8) -> Seq<char> {
    if level == 1 {
        "Wood"@
    } else if level == 2 {
        "Silver"@
    } else {
        "None"@
    }
}

/// The boomerang picker's label: 1 wood, 2 magical, else none.
pub open spec fn boomerang_name(level: u8) -> Seq<char> {
    if level == 1 {
        "Wood"@
    } else if level == 2 {
        "Magical"@
    } else {
        "None"@
    }
}

/// The label of a candle, potion or ring level: 1 blue, 2 red, else none.
pub open spec fn tier_name(level: u8) -> Seq<char> {
    if level == 1 {
        "Blue"@
    } else if level == 2 {
        "Red"@
    } else {
        "None"@
    }
}

/// The shield picker's label: 1 the magical shield, else the small one.
pub open spec fn shield_name(level: u8) -> Seq<char> {
    if level == 1 {
        "Magical Shield"@
    } else {
        "Small Shield"@
    }
}

/// The sword picker's label: 1 wood, 2 white, 3 magical, 7 fairy, else none.
pub open spec fn sword_name(level: u8) -> Seq<char> {
    if level == 1 {
        "Wood"@
    } else if level == 2 {
        "White"@
    } else if level == 3 {
        "Magical"@
    } else if level == 7 {
        "Fairy"@
    } else {
        "None"@
    }
}

/// The arrow level a picker label selects.
pub open spec fn arrow_level_of(label: Seq<char>) -> u8 {
    if label == "Wood"@ {
        1
    } else if label == "Silver"@ {
        2
    } else {
        0
    }
}

/// The boomerang level a picker label selects.
pub open spec fn boomerang_level_of(label: Seq<char>) -> u8 {
    if label == "Wood"@ {
        1
    } else if label == "Magical"@ {
        2
    } else {
        0
    }
}

/// The candle, potion or ring level a picker label selects.
pub open spec fn tier_level_of(label: Seq<char>) -> u8 {
    if label == "Blue"@ {
        1
    } else if label == "Red"@ {
        2
    } else {
        0
    }
}

/// The shield level a picker label selects.
pub open spec fn shield_level_of(label: Seq<char>) -> u8 {
    if label == "Magical Shield"@ {
        1
    } else {
        0
    }
}

/// The sword level a picker label selects.
pub open spec fn sword_level_of(label: Seq<char>) -> u8 {
    if label == "Wood"@ {
        1
    } else if label == "White"@ {
        2
    } else if label == "Magical"@ {
        3
    } else if label == "Fairy"@ {
        7
    } else {
        0
    }
}

/// The arrow picker's label of a level.
pub fn arrow_label(level: u8) -> (s: &'static str)
    ensures
        s@ == arrow_name(level),
{
    match level {
        1 => "Wood",
        2 => "Silver",
        _ => "None",
    }
}

/// The boomerang picker's label of a level.
pub fn boomerang_label(level: u8) -> (s: &'static str)
    ensures
        s@ == boomerang_name(level),
{
    match level {
        1 => "Wood",
        2 => "Magical",
        _ => "None",
    }
}

/// The label of a candle, potion or ring level.
pub fn tier_label(level: u8) -> (s: &'static str)
    ensures
        s@ == tier_name(level),
{
    match level {
        1 => "Blue",
        2 => "Red",
        _ => "None",
    }
}

/// The shield picker's label of a level.
pub fn shield_label(level: u8) -> (s: &'static str)
    ensures
        s@ == shield_name(level),
{
    match level {
        1 => "Magical Shield",
        _ => "Small Shield",
    }
}

/// The sword picker's label of a level.
pub fn sword_label(level: u8) -> (s: &'static str)
    ensures
        s@ == sword_name(level),
{
    match level {
        1 => "Wood",
        2 => "White",
        3 => "Magical",
        7 => "Fairy",
        _ => "None",
    }
}

/// The arrow level a picker label selects.
pub fn arrow_level(label: &str) -> (level: u8)
    ensures
        level == arrow_level_of(label@),
{
    if str_eq(label, "Wood") {
        1
    } else if str_eq(label, "Silver") {
        2
    } else {
        0
    }
}

/// The boomerang level a picker label selects.
pub fn boomerang_level(label: &str) -> (level: u8)
    ensures
        level == boomerang_level_of(label@),
{
    if str_eq(label, "Wood") {
        1
    } else if str_eq(label, "Magical") {
        2
    } else {
        0
    }
}

/// The candle, potion or ring level a picker label selects.
pub fn tier_level(label: &str) -> (level: u8)
    ensures
        level == tier_level_of(label@),
{
    if str_eq(label, "Blue") {
        1
    } else if str_eq(label, "Red") {
        2
    } else {
        0
    }
}

/// The shield level a picker label selects.
pub fn shield_level(label: &str) -> (level: u8)
    ensures
        level == shield_level_of(label@),
{
    if str_eq(label, "Magical Shield") {
        1
    } else {
        0
    }
}

/// The sword level a picker label selects.
pub fn sword_level(label: &str) -> (level: u8)
    ensures
        level == sword_level_of(label@),
{
    if str_eq(label, "Wood") {
        1
    } else if str_eq(label, "White") {
        2
    } else if str_eq(label, "Magical") {
        3
    } else if str_eq(label, "Fairy") {
        7
    } else {
        0
    }
}

/// Picking the label of a level gives the level back, for every level a picker offers;
/// a level it does not offer shows as the one for 0 (none, or the small shield).
pub proof fn lemma_picker_roundtrip(level: u8)
    ensures
        level <= 2 ==> arrow_level_of(arrow_name(level)) == level,
        level > 2 ==> arrow_level_of(arrow_name(level)) == 0,
        level <= 2 ==> boomerang_level_of(boomerang_name(level)) == level,
        level > 2 ==> boomerang_level_of(boomerang_name(level)) == 0,
        level <= 2 ==> tier_level_of(tier_name(level)) == level,
        level > 2 ==> tier_level_of(tier_name(level)) == 0,
        level <= 1 ==> shield_level_of(shield_name(level)) == level,
        level > 1 ==> shield_level_of(shield_name(level)) == 0,
        (level <= 3 || level == 7) ==> sword_level_of(sword_name(level)) == level,
        !(level <= 3 || level == 7) ==> sword_level_of(sword_name(level)) == 0,
{
    reveal_strlit("Wood");
    reveal_strlit("Silver");
    reveal_strlit("None");
    reveal_strlit("Magical");
    reveal_strlit("Blue");
    reveal_strlit("Red");
    reveal_strlit("Magical Shield");
    reveal_strlit("Small Shield");
    reveal_strlit("White");
    reveal_strlit("Fairy");
    assert("Wood"@.len() != "Silver"@.len());
    assert("Wood"@[0] != "None"@[0]);
    assert("Wood"@.len() != "Magical"@.len());
    assert("Wood"@[0] != "Blue"@[0]);
    assert("Wood"@.len() != "Red"@.len());
    assert("Wood"@.len() != "Magical Shield"@.len());
    assert("Wood"@.len() != "Small Shield"@.len());
    assert("Wood"@.len() != "White"@.len());
    assert("Wood"@.len() != "Fairy"@.len());
    assert("Silver"@.len() != "None"@.len());
    assert("Silver"@.len() != "Magical"@.len());
    assert("Silver"@.len() != "Blue"@.len());
    assert("Silver"@.len() != "Red"@.len());
    assert("Silver"@.len() != "Magical Shield"@.len());
    assert("Silver"@.len() != "Small Shield"@.len());
    assert("Silver"@.len() != "White"@.len());
    assert("Silver"@.len() != "Fairy"@.len());
    assert("None"@.len() != "Magical"@.len());
    assert("None"@[0] != "Blue"@[0]);
    assert("None"@.len() != "Red"@.len());
    assert("None"@.len() != "Magical Shield"@.len());
    assert("None"@.len() != "Small Shield"@.len());
    assert("None"@.len() != "White"@.len());
    assert("None"@.len() != "Fairy"@.len());
    assert("Magical"@.len() != "Blue"@.len());
    assert("Magical"@.len() != "Red"@.len());
    assert("Magical"@.len() != "Magical Shield"@.len());
    assert("Magical"@.len() != "Small Shield"@.len());
    assert("Magical"@.len() != "White"@.len());
    assert("Magical"@.len() != "Fairy"@.len());
    assert("Blue"@.len() != "Red"@.len());
    assert("Blue"@.len() != "Magical Shield"@.len());
    assert("Blue"@.len() != "Small Shield"@.len());
    assert("Blue"@.len() != "White"@.len());
    assert("Blue"@.len() != "Fairy"@.len());
    assert("Red"@.len() != "Magical Shield"@.len());
    assert("Red"@.len() != "Small Shield"@.len());
    assert("Red"@.len() != "White"@.len());
    assert("Red"@.len() != "Fairy"@.len());
    assert("Magical Shield"@.len() != "Small Shield"@.len());
    assert("Magical Shield"@.len() != "White"@.len());
    assert("Magical Shield"@.len() != "Fairy"@.len());
    assert("Small Shield"@.len() != "White"@.len());
    assert("Small Shield"@.len() != "Fairy"@.len());
    assert("White"@[0] != "Fairy"@[0]);
}

} // verus!
