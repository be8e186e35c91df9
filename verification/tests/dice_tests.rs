use sugata::dice::{dice_value_from_rolls, get_dice_val, sum_rolls};
use sugata::judge::{judge, judgement_label, Judgement};

#[test]
fn total_of_plain_rolls() {
    assert_eq!(sum_rolls(&vec![3, 4, 6]), 13);
    assert_eq!(dice_value_from_rolls(&vec![3, 4], &vec![], None, None), 7);
    assert_eq!(dice_value_from_rolls(&vec![], &vec![], Some(0), Some(0)), 0);
}

#[test]
fn bonus_dice_take_the_lowest_tens() {
    // 57 with bonus dice 2 and 4: the tens become 2
    assert_eq!(dice_value_from_rolls(&vec![57], &vec![4, 2], Some(2), None), 27);
    // a roll already below the bonus tens stays
    assert_eq!(dice_value_from_rolls(&vec![15], &vec![3], Some(1), Some(0)), 15);
    // bonus and penalty cancel to one bonus die
    assert_eq!(dice_value_from_rolls(&vec![88], &vec![1], Some(3), Some(2)), 18);
}

#[test]
fn penalty_dice_take_the_highest_tens() {
    assert_eq!(dice_value_from_rolls(&vec![23], &vec![5], None, Some(1)), 53);
    assert_eq!(dice_value_from_rolls(&vec![23], &vec![1, 7, 3], Some(0), Some(3)), 73);
    assert_eq!(dice_value_from_rolls(&vec![95], &vec![4], None, Some(1)), 95);
    // a ten on a penalty die goes past 100
    assert_eq!(dice_value_from_rolls(&vec![5], &vec![10], None, Some(1)), 105);
}

#[test]
fn equal_bonus_and_penalty_change_nothing() {
    assert_eq!(dice_value_from_rolls(&vec![57], &vec![], Some(2), Some(2)), 57);
}

#[test]
fn rolled_values_stay_in_range() {
    let mut seen = std::collections::HashSet::new();
    for _ in 0..500 {
        let r = get_dice_val(3, 6, Some(0), Some(0));
        assert!((3..=18).contains(&r));
        seen.insert(r);
        let p = get_dice_val(1, 100, None, None);
        assert!((1..=100).contains(&p));
        assert_eq!(get_dice_val(0, 6, None, None), 0);
    }
    assert!(seen.len() > 1);
}

#[test]
fn bonus_rolls_keep_ones_digit_range() {
    for _ in 0..200 {
        let r = get_dice_val(1, 100, Some(2), None);
        assert!(r >= 1 && r <= 100);
        let q = get_dice_val(1, 100, None, Some(2));
        assert!(q >= 1 && q <= 109);
    }
}

#[test]
fn judgements() {
    assert_eq!(judge(1, 0), Judgement::Critical);
    assert_eq!(judge(10, 50), Judgement::Extreme);
    assert_eq!(judge(11, 50), Judgement::Hard);
    assert_eq!(judge(25, 50), Judgement::Hard);
    assert_eq!(judge(26, 50), Judgement::Regular);
    assert_eq!(judge(50, 50), Judgement::Regular);
    assert_eq!(judge(51, 50), Judgement::Failure);
    assert_eq!(judge(95, 50), Judgement::Failure);
    assert_eq!(judge(96, 50), Judgement::Fumble);
    assert_eq!(judge(96, 99), Judgement::Regular);
    assert_eq!(judge(0, 0), Judgement::Extreme);
}

#[test]
fn judgement_labels() {
    assert_eq!(judgement_label(Judgement::Critical), "**Critical**");
    assert_eq!(judgement_label(Judgement::Extreme), "**Extreme**");
    assert_eq!(judgement_label(Judgement::Hard), "**Hard**");
    assert_eq!(judgement_label(Judgement::Regular), "**Regular**");
    assert_eq!(judgement_label(Judgement::Failure), "**Failure**");
    assert_eq!(judgement_label(Judgement::Fumble), "**Failure(Fumble)**");
}

#[test]
fn lower_rolls_judge_no_worse() {
    fn rank(j: Judgement) -> u8 {
        match j {
            Judgement::Critical => 5,
            Judgement::Extreme => 4,
            Judgement::Hard => 3,
            Judgement::Regular => 2,
            Judgement::Failure => 1,
            Judgement::Fumble => 0,
        }
    }
    for d in [0usize, 1, 30, 50, 99, 120] {
        for r in 1..110usize {
            assert!(rank(judge(r, d)) >= rank(judge(r + 1, d)));
            assert!(rank(judge(r, d + 7)) >= rank(judge(r, d)));
        }
    }
}

#[test]
fn only_the_difference_of_bonus_and_penalty_counts() {
    assert_eq!(
        dice_value_from_rolls(&vec![88], &vec![1], Some(3), Some(2)),
        dice_value_from_rolls(&vec![88], &vec![1], Some(1), None)
    );
    assert_eq!(
        dice_value_from_rolls(&vec![23], &vec![5, 2], Some(4), Some(6)),
        dice_value_from_rolls(&vec![23], &vec![5, 2], Some(0), Some(2))
    );
    assert_eq!(
        dice_value_from_rolls(&vec![23], &vec![], Some(4), Some(4)),
        dice_value_from_rolls(&vec![23], &vec![], None, Some(0))
    );
}
