use sugata::character::{character_from_rolls, character_make, character_sheet_msg, DamageBonus, StatRolls};
use sugata::commands::{dice, make, realtime, sdice, summary};
use sugata::correction::{
    apply_correction, checked_correction, checked_skill_target, operator_names, parse_operator,
    saturating_correction, Operator,
};
use sugata::messages::{
    desire_dice_result_msg, insan_realtime_msg, insan_realtime_result_msg, insan_summary_msg,
    insan_summary_result_msg, set_status_msg, simple_dice_msg, simple_dice_result_msg,
    simple_dice_with_desire_msg, skill_dice_msg, skill_result_msg,
};

#[test]
fn plain_dice_message() {
    assert_eq!(simple_dice_result_msg(2, 6, 7), "`ダイスロール`\n2d6 => 7");
    let msg = simple_dice_msg(1, 1);
    assert_eq!(msg, "`ダイスロール`\n1d1 => 1");
    let msg = simple_dice_msg(0, 6);
    assert_eq!(msg, "`ダイスロール`\n0d6 => 0");
}

#[test]
fn desire_dice_message() {
    assert_eq!(
        desire_dice_result_msg(1, 100, 60, 12),
        "`ダイスロール / 目標値: 60`\n1d100 => 12: **Extreme**"
    );
    assert_eq!(
        desire_dice_result_msg(1, 100, 60, 97),
        "`ダイスロール / 目標値: 60`\n1d100 => 97: **Failure(Fumble)**"
    );
    assert_eq!(
        simple_dice_with_desire_msg(2, 1, 50),
        "`ダイスロール / 目標値: 50`\n2d1 => 2: **Extreme**"
    );
    assert_eq!(dice(3, 1, Some(3)), "`ダイスロール / 目標値: 3`\n3d1 => 3: **Regular**");
    assert_eq!(sdice(3, 1, None), "`ダイスロール`\n3d1 => 3");
}

#[test]
fn skill_messages() {
    assert_eq!(
        skill_result_msg("目星", 60, "+", 10, 2, 0, 27),
        "`技能ロール / 目星: 60(+10, b2)`\n=> 27: **Hard**"
    );
    assert_eq!(
        skill_result_msg("聞き耳", 50, "±", 0, 0, 1, 96),
        "`技能ロール / 聞き耳: 50(±0, p1)`\n=> 96: **Failure(Fumble)**"
    );
    assert_eq!(
        skill_result_msg("図書館", 70, "±", 0, 1, 1, 1),
        "`技能ロール / 図書館: 70(±0)`\n=> 1: **Critical**"
    );
}

#[test]
fn skill_roll_applies_correction() {
    let msg = skill_dice_msg("目星".to_string(), 60, None, None, Some("+".to_string()), Some(10));
    assert!(msg.starts_with("`技能ロール / 目星: 70(+10)`\n=> "), "{}", msg);
    let msg = skill_dice_msg("目星".to_string(), 60, None, None, Some("/".to_string()), Some(4));
    assert!(msg.starts_with("`技能ロール / 目星: 15(/4)`\n=> "), "{}", msg);
    let msg = skill_dice_msg("目星".to_string(), 60, Some(1), None, None, Some(10));
    assert!(msg.starts_with("`技能ロール / 目星: 60(±10, b1)`\n=> "), "{}", msg);
    let msg = skill_dice_msg("目星".to_string(), 60, None, Some(2), Some("%".to_string()), Some(10));
    assert!(msg.starts_with("`技能ロール / 目星: 60(%10, p2)`\n=> "), "{}", msg);
    let msg = skill_dice_msg("目星".to_string(), 60, None, None, Some("-".to_string()), None);
    assert!(msg.starts_with("`技能ロール / 目星: 60(-0)`\n=> "), "{}", msg);
}

#[test]
fn status_message() {
    assert_eq!(set_status_msg("SAN", 60, 55, "-", 5), "`ステータス修正 / SAN(60) - 5`\n=> **55**");
}

#[test]
fn insanity_messages() {
    assert_eq!(
        insan_realtime_result_msg(6, 3),
        "`狂気の発作(リアルタイム)`\n**失神: 3ラウンド**\n失神し，その場に倒れ込む．"
    );
    assert_eq!(
        insan_realtime_result_msg(1, 10),
        "`狂気の発作(リアルタイム)`\n**健忘症: 10ラウンド**\n最後にいた安全な場所の記憶以降に起きた出来事を忘れてしまう"
    );
    assert_eq!(insan_realtime_result_msg(11, 3), "`狂気の発作(リアルタイム)`\n");
    assert_eq!(
        insan_summary_result_msg(9),
        "`狂気の発作(サマリ)`\n**恐怖症**\n新たに恐怖症を獲得する．"
    );
    assert_eq!(
        insan_summary_result_msg(3),
        "`狂気の発作(サマリ)`\n**暴行**\n時間後に意識を取り戻すと怪我をしており，\n耐久力が発作を起こす前の半分に減少している"
    );
    assert_eq!(insan_summary_result_msg(0), "`狂気の発作(サマリ)`\n");
    for _ in 0..50 {
        let m = insan_realtime_msg();
        assert!(m.starts_with("`狂気の発作(リアルタイム)`\n**") && m.contains("ラウンド**\n"), "{}", m);
        let s = insan_summary_msg();
        assert!(s.starts_with("`狂気の発作(サマリ)`\n**"), "{}", s);
        assert!(realtime().starts_with("`狂気の発作(リアルタイム)`\n**"));
        assert!(summary().starts_with("`狂気の発作(サマリ)`\n**"));
    }
}

#[test]
fn character_sheet() {
    let r = StatRolls {
        strength: 10,
        constitution: 12,
        size: 8,
        dexterity: 11,
        appearance: 9,
        intelligence: 7,
        power: 13,
        education: 10,
        luck: 14,
    };
    let c = character_from_rolls(&r);
    assert_eq!(c.damage_bonus, DamageBonus::Zero);
    assert_eq!(
        character_sheet_msg(&c),
        "`探索者作成`\nSTR: 50\nCON: 60\nSIZ: 70\nDEX: 55\nAPP: 45\nINT: 65\nPOW: 65\nEDU: 80\nSAN: 65\nMP: 13\n幸運: 70\n耐久力: 13\ndb: 0\nビルド: 0\nMOV: 8"
    );
}

#[test]
fn damage_bonus_and_movement() {
    let base = StatRolls {
        strength: 18,
        constitution: 10,
        size: 2,
        dexterity: 3,
        appearance: 10,
        intelligence: 2,
        power: 10,
        education: 2,
        luck: 10,
    };
    let c = character_from_rolls(&base);
    assert_eq!((c.strength, c.size, c.dexterity), (90, 40, 15));
    assert_eq!(c.damage_bonus, DamageBonus::PlusD4);
    assert_eq!(c.movement, 7);
    let c = character_from_rolls(&StatRolls { dexterity: 18, ..base });
    assert_eq!(c.movement, 9);
    let c = character_from_rolls(&StatRolls { size: 12, ..base });
    assert_eq!(c.damage_bonus, DamageBonus::PlusD6);
    assert_eq!(c.movement, 8);
    assert!(character_sheet_msg(&c).ends_with("db: +1d6\nビルド: 2\nMOV: 8"));
    let c = character_from_rolls(&StatRolls { strength: 3, ..base });
    assert_eq!(c.damage_bonus, DamageBonus::MinusTwo);
    let c = character_from_rolls(&StatRolls { strength: 5, size: 2, ..base });
    assert_eq!(c.strength + c.size, 65);
    assert_eq!(c.damage_bonus, DamageBonus::MinusOne);
    assert!(character_sheet_msg(&c).contains("db: -1\nビルド: -1\n"));
}

#[test]
fn made_characters_are_consistent() {
    for _ in 0..50 {
        let msg = character_make();
        assert!(msg.starts_with("`探索者作成`\nSTR: "));
        let values: Vec<(String, String)> = msg
            .lines()
            .skip(1)
            .map(|l| {
                let (k, v) = l.split_once(": ").unwrap();
                (k.to_string(), v.to_string())
            })
            .collect();
        let get = |k: &str| values.iter().find(|(n, _)| n == k).unwrap().1.clone();
        let pow: usize = get("POW").parse().unwrap();
        assert_eq!(get("SAN"), get("POW"));
        assert_eq!(get("MP").parse::<usize>().unwrap(), pow / 5);
        let siz: usize = get("SIZ").parse().unwrap();
        assert!(siz % 5 == 0 && (40..=90).contains(&siz));
        assert!(make().starts_with("`探索者作成`\n"));
    }
}

#[test]
fn operators() {
    assert_eq!(parse_operator("+"), Some(Operator::Add));
    assert_eq!(parse_operator("-"), Some(Operator::Sub));
    assert_eq!(parse_operator("*"), Some(Operator::Mul));
    assert_eq!(parse_operator("/"), Some(Operator::Div));
    assert_eq!(parse_operator("++"), None);
    assert_eq!(parse_operator(""), None);
    assert_eq!(parse_operator("%"), None);
    assert_eq!(operator_names(), vec!["+", "-", "*", "/"]);
}

#[test]
fn corrections() {
    assert_eq!(apply_correction(60, Operator::Add, 10), 70);
    assert_eq!(apply_correction(60, Operator::Sub, 10), 50);
    assert_eq!(apply_correction(60, Operator::Mul, 2), 120);
    assert_eq!(apply_correction(60, Operator::Div, 7), 8);
    assert_eq!(checked_correction(5, Operator::Sub, 6), None);
    assert_eq!(checked_correction(5, Operator::Div, 0), None);
    assert_eq!(checked_correction(usize::MAX, Operator::Add, 1), None);
    assert_eq!(saturating_correction(5, Operator::Sub, 6), 0);
    assert_eq!(saturating_correction(usize::MAX, Operator::Add, 1), usize::MAX);
    assert_eq!(saturating_correction(usize::MAX / 2 + 1, Operator::Mul, 2), usize::MAX);
    assert_eq!(saturating_correction(65, Operator::Div, 2), 32);
    assert_eq!(saturating_correction(saturating_correction(40, Operator::Add, 7), Operator::Sub, 7), 40);
    assert_eq!(checked_skill_target(60, &Some("-".to_string()), Some(70)), None);
    assert_eq!(checked_skill_target(60, &Some("x".to_string()), Some(70)), Some(60));
    assert_eq!(checked_skill_target(60, &None, Some(70)), Some(60));
    assert_eq!(checked_skill_target(60, &Some("*".to_string()), None), Some(60));
}
