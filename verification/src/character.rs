//! Making an investigator: characteristics rolled with six-sided dice and the values
//! derived from them.
use vstd::prelude::*;
use crate::dice::{
    get_dice_val, lemma_roll_total_bounds, possible_dice_value, valid_rolls, dice_value,
    extra_dice_count,
};
use crate::text::{decimal, push_decimal};

verus! {

/// The dice totals a character is made from, in the order they are rolled: 3d6 for
/// STR, CON, DEX, APP, POW and luck; 2d6 for SIZ, INT and EDU.
#[derive(Debug, Clone, Copy, PartialEq, Eq, Structural)]
pub struct StatRolls {
    pub strength: usize,
    pub constitution: usize,
    pub size: usize,
    pub dexterity: usize,
    pub appearance: usize,
    pub intelligence: usize,
    pub power: usize,
    pub education: usize,
    pub luck: usize,
}

/// The damage bonus, with the build that goes with it.
#[derive(Debug, Clone, Copy, PartialEq, Eq, Structural)]
pub enum DamageBonus {
    MinusTwo,
    MinusOne,
    Zero,
    PlusD4,
    PlusD6,
}

/// A character's characteristics and derived values.
#[derive(Debug, Clone, Copy, PartialEq, Eq, Structural)]
pub struct Character {
    pub strength: usize,
    pub constitution: usize,
    pub size: usize,
    pub dexterity: usize,
    pub appearance: usize,
    pub intelligence: usize,
    pub power: usize,
    pub education: usize,
    pub sanity: usize,
    pub magic_points: usize,
    pub luck: usize,
    pub hit_points: usize,
    pub damage_bonus: DamageBonus,
    pub movement: usize,
}

/// Each total is one that its dice can give.
pub open spec fn possible_stat_rolls(r: StatRolls) -> bool {
    &&& possible_dice_value(r.strength as int, 3, 6, 0, 0)
    &&& possible_dice_value(r.constitution as int, 3, 6, 0, 0)
    &&& possible_dice_value(r.size as int, 2, 6, 0, 0)
    &&& possible_dice_value(r.dexterity as int, 3, 6, 0, 0)
    &&& possible_dice_value(r.appearance as int, 3, 6, 0, 0)
    &&& possible_dice_value(r.intelligence as int, 2, 6, 0, 0)
    &&& possible_dice_value(r.power as int, 3, 6, 0, 0)
    &&& possible_dice_value(r.education as int, 2, 6, 0, 0)
    &&& possible_dice_value(r.luck as int, 3, 6, 0, 0)
}

/// Each total lies in the range of its dice.
pub open spec fn stat_rolls_in_range(r: StatRolls) -> bool {
    &&& 3 <= r.strength <= 18
    &&& 3 <= r.constitution <= 18
    &&& 2 <= r.size <= 12
    &&& 3 <= r.dexterity <= 18
    &&& 3 <= r.appearance <= 18
    &&& 2 <= r.intelligence <= 12
    &&& 3 <= r.power <= 18
    &&& 2 <= r.education <= 12
    &&& 3 <= r.luck <= 18
}

/// The damage bonus for the sum of STR and SIZ.
pub open spec fn damage_bonus_for(attack: int) -> DamageBonus {
    if attack <= 64 {
        DamageBonus::MinusTwo
    } else if attack <= 84 {
        DamageBonus::MinusOne
    } else if attack <= 124 {
        DamageBonus::Zero
    } else if attack <= 164 {
        DamageBonus::PlusD4
    } else {
        DamageBonus::PlusD6
    }
}

/// The movement rate: 7 when DEX is below SIZ and STR above it, 9 when both DEX and
/// STR are above SIZ, 8 otherwise.
pub open spec fn movement_for(strength: int, dexterity: int, size: int) -> int {
    if dexterity < size && strength > size {
        7
    } else if dexterity > size && strength > size {
        9
    } else {
        8
    }
}

/// The character made from the given dice totals.
pub open spec fn character_spec(r: StatRolls) -> Character {
    let strength = (5 * r.strength) as usize;
    let constitution = (5 * r.constitution) as usize;
    let size = (5 * (r.size + 6)) as usize;
    let dexterity = (5 * r.dexterity) as usize;
    let power = (5 * r.power) as usize;
    Character {
        strength,
        constitution,
        size,
        dexterity,
        appearance: (5 * r.appearance) as usize,
        intelligence: (5 * (r.intelligence + 6)) as usize,
        power,
        education: (5 * (r.education + 6)) as usize,
        sanity: power,
        magic_points: (power / 5) as usize,
        luck: (5 * r.luck) as usize,
        hit_points: ((constitution + size) / 10) as usize,
        damage_bonus: damage_bonus_for(strength + size),
        movement: movement_for(strength as int, dexterity as int, size as int) as usize,
    }
}

fn damage_bonus_of(attack: usize) -> (db: DamageBonus)
    ensures
        db == damage_bonus_for(attack as int),
{
    if attack <= 64 {
        DamageBonus::MinusTwo
    } else if attack <= 84 {
        DamageBonus::MinusOne
    } else if attack <= 124 {
        DamageBonus::Zero
    } else if attack <= 164 {
        DamageBonus::PlusD4
    } else {
        DamageBonus::PlusD6
    }
}

/// Makes the character of the given dice totals.
pub fn character_from_rolls(r: &StatRolls) -> (c: Character)
    requires
        stat_rolls_in_range(*r),
    ensures
        c == character_spec(*r),
{
    let strength = 5 * r.strength;
    let constitution = 5 * r.constitution;
    let size = 5 * (r.size + 6);
    let dexterity = 5 * r.dexterity;
    let power = 5 * r.power;
    let movement: usize = if dexterity < size && strength > size {
        7
    } else if dexterity > size && strength > size {
        9
    } else {
        8
    };
    Character {
        strength,
        constitution,
        size,
        dexterity,
        appearance: 5 * r.appearance,
        intelligence: 5 * (r.intelligence + 6),
        power,
        education: 5 * (r.education + 6),
        sanity: power,
        magic_points: power / 5,
        luck: 5 * r.luck,
        hit_points: (constitution + size) / 10,
        damage_bonus: damage_bonus_of(strength + size),
        movement,
    }
}

/// The damage bonus as a sheet shows it.
pub open spec fn damage_bonus_text(db: DamageBonus) -> Seq<char> {
    match db {
        DamageBonus::MinusTwo => "-2"@,
        DamageBonus::MinusOne => "-1"@,
        DamageBonus::Zero => "0"@,
        DamageBonus::PlusD4 => "+1d4"@,
        DamageBonus::PlusD6 => "+1d6"@,
    }
}

/// The build that goes with a damage bonus, as a sheet shows it.
pub open spec fn build_text(db: DamageBonus) -> Seq<char> {
    match db {
        DamageBonus::MinusTwo => "-2"@,
        DamageBonus::MinusOne => "-1"@,
        DamageBonus::Zero => "0"@,
        DamageBonus::PlusD4 => "1"@,
        DamageBonus::PlusD6 => "2"@,
    }
}

fn damage_bonus_str(db: DamageBonus) -> (s: &'static str)
    ensures
        s@ == damage_bonus_text(db),
{
    match db {
        DamageBonus::MinusTwo => "-2",
        DamageBonus::MinusOne => "-1",
        DamageBonus::Zero => "0",
        DamageBonus::PlusD4 => "+1d4",
        DamageBonus::PlusD6 => "+1d6",
    }
}

fn build_str(db: DamageBonus) -> (s: &'static str)
    ensures
        s@ == build_text(db),
{
    match db {
        DamageBonus::MinusTwo => "-2",
        DamageBonus::MinusOne => "-1",
        DamageBonus::Zero => "0",
        DamageBonus::PlusD4 => "1",
        DamageBonus::PlusD6 => "2",
    }
}

/// The text of a character sheet.
pub open spec fn sheet_text(c: Character) -> Seq<char> {
    "`探索者作成`\nSTR: "@ + decimal(c.strength as nat) + "\nCON: "@ + decimal(c.constitution as nat)
        + "\nSIZ: "@ + decimal(c.size as nat) + "\nDEX: "@ + decimal(c.dexterity as nat) + "\nAPP: "@
        + decimal(c.appearance as nat) + "\nINT: "@ + decimal(c.intelligence as nat) + "\nPOW: "@
        + decimal(c.power as nat) + "\nEDU: "@ + decimal(c.education as nat) + "\nSAN: "@ + decimal(
        c.sanity as nat,
    ) + "\nMP: "@ + decimal(c.magic_points as nat) + "\n幸運: "@ + decimal(c.luck as nat)
        + "\n耐久力: "@ + decimal(c.hit_points as nat) + "\ndb: "@ + damage_bonus_text(c.damage_bonus)
        + "\nビルド: "@ + build_text(c.damage_bonus) + "\nMOV: "@ + decimal(c.movement as nat)
}

/// The message that shows a character sheet.
pub fn character_sheet_msg(c: &Character) -> (msg: String)
    ensures
        msg@ == sheet_text(*c),
{
    let mut msg = String::from_str("`探索者作成`\nSTR: ");
    push_decimal(&mut msg, c.strength);
    msg.append("\nCON: ");
    push_decimal(&mut msg, c.constitution);
    msg.append("\nSIZ: ");
    push_decimal(&mut msg, c.size);
    msg.append("\nDEX: ");
    push_decimal(&mut msg, c.dexterity);
    msg.append("\nAPP: ");
    push_decimal(&mut msg, c.appearance);
    msg.append("\nINT: ");
    push_decimal(&mut msg, c.intelligence);
    msg.append("\nPOW: ");
    push_decimal(&mut msg, c.power);
    msg.append("\nEDU: ");
    push_decimal(&mut msg, c.education);
    msg.append("\nSAN: ");
    push_decimal(&mut msg, c.sanity);
    msg.append("\nMP: ");
    push_decimal(&mut msg, c.magic_points);
    msg.append("\n幸運: ");
    push_decimal(&mut msg, c.luck);
    msg.append("\n耐久力: ");
    push_decimal(&mut msg, c.hit_points);
    msg.append("\ndb: ");
    msg.append(damage_bonus_str(c.damage_bonus));
    msg.append("\nビルド: ");
    msg.append(build_str(c.damage_bonus));
    msg.append("\nMOV: ");
    push_decimal(&mut msg, c.movement);
    msg
}

/// A total that `count` six-sided dice can give lies between `count` and `6 * count`.
pub proof fn lemma_possible_total_range(x: int, count: nat)
    requires
        possible_dice_value(x, count, 6, 0, 0),
    ensures
        count <= x <= 6 * count,
{
    let (rolls, extra) = choose|rolls: Seq<usize>, extra: Seq<usize>|
        #![trigger valid_rolls(rolls, count, 6), valid_rolls(extra, extra_dice_count(0, 0), 10)]
        valid_rolls(rolls, count, 6) && valid_rolls(extra, extra_dice_count(0, 0), 10) && x
            == dice_value(rolls, extra, 0, 0);
    lemma_roll_total_bounds(rolls, count, 6);
}

/// Totals that their dice can give are in range.
pub proof fn lemma_possible_stat_rolls_in_range(r: StatRolls)
    requires
        possible_stat_rolls(r),
    ensures
        stat_rolls_in_range(r),
{
    lemma_possible_total_range(r.strength as int, 3);
    lemma_possible_total_range(r.constitution as int, 3);
    lemma_possible_total_range(r.size as int, 2);
    lemma_possible_total_range(r.dexterity as int, 3);
    lemma_possible_total_range(r.appearance as int, 3);
    lemma_possible_total_range(r.intelligence as int, 2);
    lemma_possible_total_range(r.power as int, 3);
    lemma_possible_total_range(r.education as int, 2);
    lemma_possible_total_range(r.luck as int, 3);
}

/// How large a damage bonus is: higher is larger.
pub open spec fn damage_bonus_rank(db: DamageBonus) -> int {
    match db {
        DamageBonus::MinusTwo => 0,
        DamageBonus::MinusOne => 1,
        DamageBonus::Zero => 2,
        DamageBonus::PlusD4 => 3,
        DamageBonus::PlusD6 => 4,
    }
}

/// A larger sum of STR and SIZ never gives a smaller damage bonus.
pub proof fn lemma_damage_bonus_monotone(a1: int, a2: int)
    requires
        a1 <= a2,
    ensures
        damage_bonus_rank(damage_bonus_for(a1)) <= damage_bonus_rank(damage_bonus_for(a2)),
{
}

/// The derived values follow from the characteristics: SAN equals POW, MP is a fifth of
/// POW, HP a tenth of CON plus SIZ, MOV is 7, 8 or 9; every characteristic is a multiple
/// of 5, from 15 to 90 for those rolled with 3d6 and from 40 to 90 for SIZ, INT and EDU.
pub proof fn lemma_character_values(r: StatRolls)
    requires
        stat_rolls_in_range(r),
    ensures
        ({
            let c = character_spec(r);
            &&& c.sanity == c.power
            &&& c.magic_points == c.power / 5
            &&& c.hit_points == (c.constitution + c.size) / 10
            &&& 7 <= c.movement <= 9
            &&& c.strength % 5 == 0 && 15 <= c.strength <= 90
            &&& c.constitution % 5 == 0 && 15 <= c.constitution <= 90
            &&& c.dexterity % 5 == 0 && 15 <= c.dexterity <= 90
            &&& c.appearance % 5 == 0 && 15 <= c.appearance <= 90
            &&& c.power % 5 == 0 && 15 <= c.power <= 90
            &&& c.luck % 5 == 0 && 15 <= c.luck <= 90
            &&& c.size % 5 == 0 && 40 <= c.size <= 90
            &&& c.intelligence % 5 == 0 && 40 <= c.intelligence <= 90
            &&& c.education % 5 == 0 && 40 <= c.education <= 90
        }),
{
}

/// The damage bonus and build a made character's sheet shows, by the sum of its STR
/// and SIZ: up to 64 "-2" and "-2", 65 to 84 "-1" and "-1", 85 to 124 "0" and "0",
/// 125 to 164 "+1d4" and "1", from 165 "+1d6" and "2"; and its MOV: 7 when DEX is
/// below SIZ and STR above it, 9 when both are above SIZ, 8 otherwise.
pub proof fn lemma_sheet_bands(r: StatRolls)
    requires
        stat_rolls_in_range(r),
    ensures
        ({
            let c = character_spec(r);
            let attack = 5 * r.strength + 5 * (r.size + 6);
            &&& c.strength + c.size == attack
            &&& attack <= 64 ==> damage_bonus_text(c.damage_bonus) == "-2"@ && build_text(
                c.damage_bonus,
            ) == "-2"@
            &&& 65 <= attack <= 84 ==> damage_bonus_text(c.damage_bonus) == "-1"@ && build_text(
                c.damage_bonus,
            ) == "-1"@
            &&& 85 <= attack <= 124 ==> damage_bonus_text(c.damage_bonus) == "0"@ && build_text(
                c.damage_bonus,
            ) == "0"@
            &&& 125 <= attack <= 164 ==> damage_bonus_text(c.damage_bonus) == "+1d4"@ && build_text(
                c.damage_bonus,
            ) == "1"@
            &&& 165 <= attack ==> damage_bonus_text(c.damage_bonus) == "+1d6"@ && build_text(
                c.damage_bonus,
            ) == "2"@
            &&& (c.movement == 7) <==> (c.dexterity < c.size && c.strength > c.size)
            &&& (c.movement == 9) <==> (c.dexterity > c.size && c.strength > c.size)
            &&& (c.movement == 8) <==> !(c.strength > c.size && c.dexterity != c.size)
        }),
{
}

/// Rolls a new character and shows its sheet.
pub fn character_make() -> (msg: String)
    ensures
        exists|r: StatRolls| possible_stat_rolls(r) && msg@ == sheet_text(character_spec(r)),
{
    let strength = get_dice_val(3, 6, Some(0), Some(0));
    let constitution = get_dice_val(3, 6, Some(0), Some(0));
    let size = get_dice_val(2, 6, Some(0), Some(0));
    let dexterity = get_dice_val(3, 6, Some(0), Some(0));
    let appearance = get_dice_val(3, 6, Some(0), Some(0));
    let intelligence = get_dice_val(2, 6, Some(0), Some(0));
    let power = get_dice_val(3, 6, Some(0), Some(0));
    let education = get_dice_val(2, 6, Some(0), Some(0));
    let luck = get_dice_val(3, 6, Some(0), Some(0));
    let rolls = StatRolls {
        strength,
        constitution,
        size,
        dexterity,
        appearance,
        intelligence,
        power,
        education,
        luck,
    };
    proof {
        lemma_possible_stat_rolls_in_range(rolls);
    }
    let c = character_from_rolls(&rolls);
    let msg = character_sheet_msg(&c);
    assert(possible_stat_rolls(rolls) && msg@ == sheet_text(character_spec(rolls)));
    msg
}

} // verus!
