//! The texts of the messages that answer dice, skill, status and insanity requests.
use vstd::prelude::*;
use crate::correction::{opt_text, skill_target, skill_target_fits, skill_target_value};
use crate::dice::{count_of, gen_range_inclusive, get_dice_val, possible_dice_value};
use crate::judge::{judge, judge_spec, judgement_label, judgement_text};
use crate::text::{decimal, push_decimal};

verus! {

/// The text of a plain dice roll.
pub open spec fn simple_dice_text(qty: nat, die: nat, roll: nat) -> Seq<char> {
    "`ダイスロール`\n"@ + decimal(qty) + "d"@ + decimal(die) + " => "@ + decimal(roll)
}

/// The message for a plain roll of `qty` dice with `die` sides that came out as `roll`.
pub fn simple_dice_result_msg(qty: usize, die: usize, roll: usize) -> (msg: String)
    ensures
        msg@ == simple_dice_text(qty as nat, die as nat, roll as nat),
{
    let mut msg = String::from_str("`ダイスロール`\n");
    push_decimal(&mut msg, qty);
    msg.append("d");
    push_decimal(&mut msg, die);
    msg.append(" => ");
    push_decimal(&mut msg, roll);
    msg
}

/// Rolls `qty` dice with `die` sides and reports the total.
pub fn simple_dice_msg(qty: usize, die: usize) -> (msg: String)
    requires
        qty == 0 || die >= 1,
        qty * die <= usize::MAX,
    ensures
        exists|roll: usize|
            possible_dice_value(roll as int, qty as nat, die as nat, 0, 0) && msg@ == simple_dice_text(
                qty as nat,
                die as nat,
                roll as nat,
            ),
{
    let roll = get_dice_val(qty, die, Some(0), Some(0));
    simple_dice_result_msg(qty, die, roll)
}

/// The text of a dice roll judged against a target.
pub open spec fn desire_dice_text(qty: nat, die: nat, desire: nat, roll: nat) -> Seq<char> {
    "`ダイスロール / 目標値: "@ + decimal(desire) + "`\n"@ + decimal(qty) + "d"@ + decimal(die) + " => "@
        + decimal(roll) + ": "@ + judgement_text(judge_spec(roll as int, desire as int))
}

/// The message for a roll of `qty` dice with `die` sides against the target `desire`
/// that came out as `roll`.
pub fn desire_dice_result_msg(qty: usize, die: usize, desire: usize, roll: usize) -> (msg: String)
    ensures
        msg@ == desire_dice_text(qty as nat, die as nat, desire as nat, roll as nat),
{
    let mut msg = String::from_str("`ダイスロール / 目標値: ");
    push_decimal(&mut msg, desire);
    msg.append("`\n");
    push_decimal(&mut msg, qty);
    msg.append("d");
    push_decimal(&mut msg, die);
    msg.append(" => ");
    push_decimal(&mut msg, roll);
    msg.append(": ");
    msg.append(judgement_label(judge(roll, desire)));
    msg
}

/// Rolls `qty` dice with `die` sides and judges the total against the target `desire`.
pub fn simple_dice_with_desire_msg(qty: usize, die: usize, desire: usize) -> (msg: String)
    requires
        qty == 0 || die >= 1,
        qty * die <= usize::MAX,
    ensures
        exists|roll: usize|
            possible_dice_value(roll as int, qty as nat, die as nat, 0, 0) && msg@ == desire_dice_text(
                qty as nat,
                die as nat,
                desire as nat,
                roll as nat,
            ),
{
    let roll = get_dice_val(qty, die, Some(0), Some(0));
    desire_dice_result_msg(qty, die, desire, roll)
}

/// The text of a skill roll: the skill, its (corrected) target, the operator and
/// correction shown, the surplus of bonus or penalty dice, the roll and its judgement.
pub open spec fn skill_text(
    name: Seq<char>,
    target: nat,
    op: Seq<char>,
    corr: nat,
    bonus: nat,
    penalty: nat,
    roll: nat,
) -> Seq<char> {
    let head = "`技能ロール / "@ + name + ": "@ + decimal(target) + "("@ + op + decimal(corr);
    let mid = if bonus > penalty {
        head + ", b"@ + decimal(bonus)
    } else if penalty > bonus {
        head + ", p"@ + decimal(penalty)
    } else {
        head
    };
    mid + ")`\n=> "@ + decimal(roll) + ": "@ + judgement_text(judge_spec(roll as int, target as int))
}

/// The message for a roll of the skill `skill_name` against `target` that came out as
/// `roll`.
pub fn skill_result_msg(
    skill_name: &str,
    target: usize,
    operator: &str,
    corr: usize,
    bonus: usize,
    penalty: usize,
    roll: usize,
) -> (msg: String)
    ensures
        msg@ == skill_text(
            skill_name@,
            target as nat,
            operator@,
            corr as nat,
            bonus as nat,
            penalty as nat,
            roll as nat,
        ),
{
    let mut msg = String::from_str("`技能ロール / ");
    msg.append(skill_name);
    msg.append(": ");
    push_decimal(&mut msg, target);
    msg.append("(");
    msg.append(operator);
    push_decimal(&mut msg, corr);
    if bonus > penalty {
        msg.append(", b");
        push_decimal(&mut msg, bonus);
    } else if penalty > bonus {
        msg.append(", p");
        push_decimal(&mut msg, penalty);
    }
    msg.append(")`\n=> ");
    push_decimal(&mut msg, roll);
    msg.append(": ");
    msg.append(judgement_label(judge(roll, target)));
    msg
}

/// The operator text that a skill message shows: the one given, or `±`.
pub open spec fn shown_operator(operator: Option<Seq<char>>) -> Seq<char> {
    match operator {
        Some(o) => o,
        None => "±"@,
    }
}

/// Rolls the skill `skill_name` of value `desire` with a percentile die, with bonus and
/// penalty dice and an optional correction of the target.
pub fn skill_dice_msg(
    skill_name: String,
    desire: usize,
    bonus: Option<usize>,
    penalty: Option<usize>,
    operator: Option<String>,
    corr_val: Option<usize>,
) -> (msg: String)
    requires
        skill_target_fits(desire as int, opt_text(&operator), corr_val),
    ensures
        exists|roll: usize|
            possible_dice_value(roll as int, 1, 100, count_of(bonus), count_of(penalty)) && msg@
                == skill_text(
                skill_name@,
                skill_target(desire as int, opt_text(&operator), corr_val) as nat,
                shown_operator(opt_text(&operator)),
                count_of(corr_val),
                count_of(bonus),
                count_of(penalty),
                roll as nat,
            ),
{
    let target = skill_target_value(desire, &operator, corr_val);
    let roll = get_dice_val(1, 100, bonus, penalty);
    let b = match bonus {
        Some(n) => n,
        None => 0,
    };
    let p = match penalty {
        Some(n) => n,
        None => 0,
    };
    let c = match corr_val {
        Some(n) => n,
        None => 0,
    };
    match operator {
        Some(o) => skill_result_msg(skill_name.as_str(), target, o.as_str(), c, b, p, roll),
        None => skill_result_msg(skill_name.as_str(), target, "±", c, b, p, roll),
    }
}

/// The text of a status correction.
pub open spec fn set_status_text(
    name: Seq<char>,
    before: nat,
    after: nat,
    op: Seq<char>,
    corr: nat,
) -> Seq<char> {
    "`ステータス修正 / "@ + name + "("@ + decimal(before) + ") "@ + op + " "@ + decimal(corr) + "`\n=> **"@
        + decimal(after) + "**"@
}

/// The message for a status that went from `before` to `after` by `operator` and `corr`.
pub fn set_status_msg(skill_name: &str, before: usize, after: usize, operator: &str, corr: usize) -> (msg: String)
    ensures
        msg@ == set_status_text(skill_name@, before as nat, after as nat, operator@, corr as nat),
{
    let mut msg = String::from_str("`ステータス修正 / ");
    msg.append(skill_name);
    msg.append("(");
    push_decimal(&mut msg, before);
    msg.append(") ");
    msg.append(operator);
    msg.append(" ");
    push_decimal(&mut msg, corr);
    msg.append("`\n=> **");
    push_decimal(&mut msg, after);
    msg.append("**");
    msg
}

/// The name of a realtime bout of madness, up to where its rounds are shown.
pub open spec fn realtime_head(num: int) -> Seq<char> {
    if num == 1 {
        "**健忘症: "@
    } else if num == 2 {
        "**身体的症状: "@
    } else if num == 3 {
        "**暴力衝動: "@
    } else if num == 4 {
        "**偏執症: "@
    } else if num == 5 {
        "**重要な存在: "@
    } else if num == 6 {
        "**失神: "@
    } else if num == 7 {
        "**パニックになって逃亡する: "@
    } else if num == 8 {
        "**身体的ヒステリーもしくは感情爆発: "@
    } else if num == 9 {
        "**恐怖症: "@
    } else {
        "**マニア: "@
    }
}

/// The rest of a realtime bout of madness, after its rounds.
pub open spec fn realtime_tail(num: int) -> Seq<char> {
    if num == 1 {
        "ラウンド**\n最後にいた安全な場所の記憶以降に起きた出来事を忘れてしまう"@
    } else if num == 2 {
        "ラウンド**\n狂気によって視覚や聴覚がおかしくなったり，手足が動かなくなったりする"@
    } else if num == 3 {
        "ラウンド**\n視界が赤く染まり，暴力と破壊の衝動に駆られる．"@
    } else if num == 4 {
        "ラウンド**\n周りの全てを疑い誰も信用せず，近づくものは的だと認識する．"@
    } else if num == 5 {
        "ラウンド**\nその場にいた人あるいはモノを自分にとって重要な存在だと思い込む．"@
    } else if num == 6 {
        "ラウンド**\n失神し，その場に倒れ込む．"@
    } else if num == 7 {
        "ラウンド**\nあらゆる手段を用いてその場から逃走しようとする．"@
    } else if num == 8 {
        "ラウンド**\n笑ったり泣いたり叫んだりし続けて行動ができなくなる"@
    } else if num == 9 {
        "ラウンド**\n恐怖症を発症し，そこに畏怖すべき存在があると思い込む．"@
    } else {
        "ラウンド**\n新しいマニアに陥り，今ある状況でそのマニアについて没頭してしまう．"@
    }
}

/// What a summary bout of madness says.
pub open spec fn summary_body(num: int) -> Seq<char> {
    if num == 1 {
        "**健忘症**\n意識を取り戻すと見知らぬ場所に移動しており，自分が何者かも忘れている．"@
    } else if num == 2 {
        "**盗難**\n意識を取り戻すと所持品が無くなっていることに気付く．"@
    } else if num == 3 {
        "**暴行**\n時間後に意識を取り戻すと怪我をしており，\n耐久力が発作を起こす前の半分に減少している"@
    } else if num == 4 {
        "**暴力**\n周囲に暴力を振るっている．\nもしかすると物を壊したり，人を傷つけているかもしれない．"@
    } else if num == 5 {
        "**重要な人々**\nバックストーリーの重要な人々に対して「最善」と思える行動を行う．\nただし，一方的な考えによるものである．"@
    } else if num == 6 {
        "**イデオロギー/信念**\nバックストーリーのイデオロギー/信念に基づく行為をする．\nその姿は感情的で狂気じみており，見た人は恐怖を感じるかもしれない．"@
    } else if num == 7 {
        "**収容**\n意識を取り戻すと精神医療施設や警察の留置所に収容されている．"@
    } else if num == 8 {
        "**パニック**\n狂気中に逃走を図ったため，意識を取り戻すと遠く離れた場所にいることに気付く．\nもしかするとチケットを買わず徒歩で山奥や荒野を延々と歩き続けているかもしれない．"@
    } else if num == 9 {
        "**恐怖症**\n新たに恐怖症を獲得する．"@
    } else {
        "**マニア**\n新たにマニアを獲得する．"@
    }
}

/// The text of a realtime bout of madness, entry `num` of the table, lasting `round`
/// rounds; an entry outside the table shows nothing after the heading.
pub open spec fn insan_realtime_text(num: int, round: nat) -> Seq<char> {
    if 1 <= num <= 10 {
        "`狂気の発作(リアルタイム)`\n"@ + realtime_head(num) + decimal(round) + realtime_tail(num)
    } else {
        "`狂気の発作(リアルタイム)`\n"@
    }
}

fn realtime_head_str(num: usize) -> (s: &'static str)
    requires
        1 <= num <= 10,
    ensures
        s@ == realtime_head(num as int),
{
    if num == 1 {
        "**健忘症: "
    } else if num == 2 {
        "**身体的症状: "
    } else if num == 3 {
        "**暴力衝動: "
    } else if num == 4 {
        "**偏執症: "
    } else if num == 5 {
        "**重要な存在: "
    } else if num == 6 {
        "**失神: "
    } else if num == 7 {
        "**パニックになって逃亡する: "
    } else if num == 8 {
        "**身体的ヒステリーもしくは感情爆発: "
    } else if num == 9 {
        "**恐怖症: "
    } else {
        "**マニア: "
    }
}

fn realtime_tail_str(num: usize) -> (s: &'static str)
    requires
        1 <= num <= 10,
    ensures
        s@ == realtime_tail(num as int),
{
    if num == 1 {
        "ラウンド**\n最後にいた安全な場所の記憶以降に起きた出来事を忘れてしまう"
    } else if num == 2 {
        "ラウンド**\n狂気によって視覚や聴覚がおかしくなったり，手足が動かなくなったりする"
    } else if num == 3 {
        "ラウンド**\n視界が赤く染まり，暴力と破壊の衝動に駆られる．"
    } else if num == 4 {
        "ラウンド**\n周りの全てを疑い誰も信用せず，近づくものは的だと認識する．"
    } else if num == 5 {
        "ラウンド**\nその場にいた人あるいはモノを自分にとって重要な存在だと思い込む．"
    } else if num == 6 {
        "ラウンド**\n失神し，その場に倒れ込む．"
    } else if num == 7 {
        "ラウンド**\nあらゆる手段を用いてその場から逃走しようとする．"
    } else if num == 8 {
        "ラウンド**\n笑ったり泣いたり叫んだりし続けて行動ができなくなる"
    } else if num == 9 {
        "ラウンド**\n恐怖症を発症し，そこに畏怖すべき存在があると思い込む．"
    } else {
        "ラウンド**\n新しいマニアに陥り，今ある状況でそのマニアについて没頭してしまう．"
    }
}

/// The message for entry `num` of the realtime madness table, lasting `round` rounds.
pub fn insan_realtime_result_msg(num: usize, round: usize) -> (msg: String)
    ensures
        msg@ == insan_realtime_text(num as int, round as nat),
{
    let mut msg = String::from_str("`狂気の発作(リアルタイム)`\n");
    if 1 <= num && num <= 10 {
        msg.append(realtime_head_str(num));
        push_decimal(&mut msg, round);
        msg.append(realtime_tail_str(num));
    }
    msg
}

/// Draws an entry of the realtime madness table and its duration, each from 1 to 10.
pub fn insan_realtime_msg() -> (msg: String)
    ensures
        exists|num: usize, round: usize|
            1 <= num <= 10 && 1 <= round <= 10 && msg@ == insan_realtime_text(num as int, round as nat),
{
    let mut rng = rand::thread_rng();
    let num = gen_range_inclusive(&mut rng, 1, 10);
    let round = gen_range_inclusive(&mut rng, 1, 10);
    insan_realtime_result_msg(num, round)
}

/// The text of a summary bout of madness, entry `num` of the table; an entry outside the
/// table shows nothing after the heading.
pub open spec fn insan_summary_text(num: int) -> Seq<char> {
    if 1 <= num <= 10 {
        "`狂気の発作(サマリ)`\n"@ + summary_body(num)
    } else {
        "`狂気の発作(サマリ)`\n"@
    }
}

fn summary_body_str(num: usize) -> (s: &'static str)
    requires
        1 <= num <= 10,
    ensures
        s@ == summary_body(num as int),
{
    if num == 1 {
        "**健忘症**\n意識を取り戻すと見知らぬ場所に移動しており，自分が何者かも忘れている．"
    } else if num == 2 {
        "**盗難**\n意識を取り戻すと所持品が無くなっていることに気付く．"
    } else if num == 3 {
        "**暴行**\n時間後に意識を取り戻すと怪我をしており，\n耐久力が発作を起こす前の半分に減少している"
    } else if num == 4 {
        "**暴力**\n周囲に暴力を振るっている．\nもしかすると物を壊したり，人を傷つけているかもしれない．"
    } else if num == 5 {
        "**重要な人々**\nバックストーリーの重要な人々に対して「最善」と思える行動を行う．\nただし，一方的な考えによるものである．"
    } else if num == 6 {
        "**イデオロギー/信念**\nバックストーリーのイデオロギー/信念に基づく行為をする．\nその姿は感情的で狂気じみており，見た人は恐怖を感じるかもしれない．"
    } else if num == 7 {
        "**収容**\n意識を取り戻すと精神医療施設や警察の留置所に収容されている．"
    } else if num == 8 {
        "**パニック**\n狂気中に逃走を図ったため，意識を取り戻すと遠く離れた場所にいることに気付く．\nもしかするとチケットを買わず徒歩で山奥や荒野を延々と歩き続けているかもしれない．"
    } else if num == 9 {
        "**恐怖症**\n新たに恐怖症を獲得する．"
    } else {
        "**マニア**\n新たにマニアを獲得する．"
    }
}

/// The message for entry `num` of the summary madness table.
pub fn insan_summary_result_msg(num: usize) -> (msg: String)
    ensures
        msg@ == insan_summary_text(num as int),
{
    let mut msg = String::from_str("`狂気の発作(サマリ)`\n");
    if 1 <= num && num <= 10 {
        msg.append(summary_body_str(num));
    }
    msg
}

/// Draws an entry of the summary madness table, from 1 to 10.
pub fn insan_summary_msg() -> (msg: String)
    ensures
        exists|num: usize| 1 <= num <= 10 && msg@ == insan_summary_text(num as int),
{
    let mut rng = rand::thread_rng();
    let num = gen_range_inclusive(&mut rng, 1, 10);
    insan_summary_result_msg(num)
}

/// Every entry of the realtime madness table, for every duration: its heading, the
/// rounds, and its own description.
pub proof fn lemma_realtime_table(round: nat)
    ensures
        insan_realtime_text(1, round) == "`狂気の発作(リアルタイム)`\n"@ + "**健忘症: "@ + decimal(round)
            + "ラウンド**\n最後にいた安全な場所の記憶以降に起きた出来事を忘れてしまう"@,
        insan_realtime_text(2, round) == "`狂気の発作(リアルタイム)`\n"@ + "**身体的症状: "@ + decimal(round)
            + "ラウンド**\n狂気によって視覚や聴覚がおかしくなったり，手足が動かなくなったりする"@,
        insan_realtime_text(3, round) == "`狂気の発作(リアルタイム)`\n"@ + "**暴力衝動: "@ + decimal(round)
            + "ラウンド**\n視界が赤く染まり，暴力と破壊の衝動に駆られる．"@,
        insan_realtime_text(4, round) == "`狂気の発作(リアルタイム)`\n"@ + "**偏執症: "@ + decimal(round)
            + "ラウンド**\n周りの全てを疑い誰も信用せず，近づくものは的だと認識する．"@,
        insan_realtime_text(5, round) == "`狂気の発作(リアルタイム)`\n"@ + "**重要な存在: "@ + decimal(round)
            + "ラウンド**\nその場にいた人あるいはモノを自分にとって重要な存在だと思い込む．"@,
        insan_realtime_text(6, round) == "`狂気の発作(リアルタイム)`\n"@ + "**失神: "@ + decimal(round)
            + "ラウンド**\n失神し，その場に倒れ込む．"@,
        insan_realtime_text(7, round) == "`狂気の発作(リアルタイム)`\n"@ + "**パニックになって逃亡する: "@ + decimal(round)
            + "ラウンド**\nあらゆる手段を用いてその場から逃走しようとする．"@,
        insan_realtime_text(8, round) == "`狂気の発作(リアルタイム)`\n"@ + "**身体的ヒステリーもしくは感情爆発: "@ + decimal(round)
            + "ラウンド**\n笑ったり泣いたり叫んだりし続けて行動ができなくなる"@,
        insan_realtime_text(9, round) == "`狂気の発作(リアルタイム)`\n"@ + "**恐怖症: "@ + decimal(round)
            + "ラウンド**\n恐怖症を発症し，そこに畏怖すべき存在があると思い込む．"@,
        insan_realtime_text(10, round) == "`狂気の発作(リアルタイム)`\n"@ + "**マニア: "@ + decimal(round)
            + "ラウンド**\n新しいマニアに陥り，今ある状況でそのマニアについて没頭してしまう．"@,
{
}

/// Every entry of the summary madness table, with its heading and its own description.
pub proof fn lemma_summary_table()
    ensures
        insan_summary_text(1) == "`狂気の発作(サマリ)`\n"@ + "**健忘症**\n意識を取り戻すと見知らぬ場所に移動しており，自分が何者かも忘れている．"@,
        insan_summary_text(2) == "`狂気の発作(サマリ)`\n"@ + "**盗難**\n意識を取り戻すと所持品が無くなっていることに気付く．"@,
        insan_summary_text(3) == "`狂気の発作(サマリ)`\n"@ + "**暴行**\n時間後に意識を取り戻すと怪我をしており，\n耐久力が発作を起こす前の半分に減少している"@,
        insan_summary_text(4) == "`狂気の発作(サマリ)`\n"@ + "**暴力**\n周囲に暴力を振るっている．\nもしかすると物を壊したり，人を傷つけているかもしれない．"@,
        insan_summary_text(5) == "`狂気の発作(サマリ)`\n"@ + "**重要な人々**\nバックストーリーの重要な人々に対して「最善」と思える行動を行う．\nただし，一方的な考えによるものである．"@,
        insan_summary_text(6) == "`狂気の発作(サマリ)`\n"@ + "**イデオロギー/信念**\nバックストーリーのイデオロギー/信念に基づく行為をする．\nその姿は感情的で狂気じみており，見た人は恐怖を感じるかもしれない．"@,
        insan_summary_text(7) == "`狂気の発作(サマリ)`\n"@ + "**収容**\n意識を取り戻すと精神医療施設や警察の留置所に収容されている．"@,
        insan_summary_text(8) == "`狂気の発作(サマリ)`\n"@ + "**パニック**\n狂気中に逃走を図ったため，意識を取り戻すと遠く離れた場所にいることに気付く．\nもしかするとチケットを買わず徒歩で山奥や荒野を延々と歩き続けているかもしれない．"@,
        insan_summary_text(9) == "`狂気の発作(サマリ)`\n"@ + "**恐怖症**\n新たに恐怖症を獲得する．"@,
        insan_summary_text(10) == "`狂気の発作(サマリ)`\n"@ + "**マニア**\n新たにマニアを獲得する．"@,
{
}

/// No two entries of a madness table share a heading or a description.
pub proof fn lemma_madness_entries_distinct()
    ensures
        forall|i: int, j: int|
            1 <= i <= 10 && 1 <= j <= 10 && i != j ==> realtime_head(i) != realtime_head(j)
                && realtime_tail(i) != realtime_tail(j) && summary_body(i) != summary_body(j),
{
    reveal_strlit("**健忘症: ");
    reveal_strlit("**身体的症状: ");
    reveal_strlit("**暴力衝動: ");
    reveal_strlit("**偏執症: ");
    reveal_strlit("**重要な存在: ");
    reveal_strlit("**失神: ");
    reveal_strlit("**パニックになって逃亡する: ");
    reveal_strlit("**身体的ヒステリーもしくは感情爆発: ");
    reveal_strlit("**恐怖症: ");
    reveal_strlit("**マニア: ");
    reveal_strlit("ラウンド**\n最後にいた安全な場所の記憶以降に起きた出来事を忘れてしまう");
    reveal_strlit("ラウンド**\n狂気によって視覚や聴覚がおかしくなったり，手足が動かなくなったりする");
    reveal_strlit("ラウンド**\n視界が赤く染まり，暴力と破壊の衝動に駆られる．");
    reveal_strlit("ラウンド**\n周りの全てを疑い誰も信用せず，近づくものは的だと認識する．");
    reveal_strlit("ラウンド**\nその場にいた人あるいはモノを自分にとって重要な存在だと思い込む．");
    reveal_strlit("ラウンド**\n失神し，その場に倒れ込む．");
    reveal_strlit("ラウンド**\nあらゆる手段を用いてその場から逃走しようとする．");
    reveal_strlit("ラウンド**\n笑ったり泣いたり叫んだりし続けて行動ができなくなる");
    reveal_strlit("ラウンド**\n恐怖症を発症し，そこに畏怖すべき存在があると思い込む．");
    reveal_strlit("ラウンド**\n新しいマニアに陥り，今ある状況でそのマニアについて没頭してしまう．");
    reveal_strlit("**健忘症**\n意識を取り戻すと見知らぬ場所に移動しており，自分が何者かも忘れている．");
    reveal_strlit("**盗難**\n意識を取り戻すと所持品が無くなっていることに気付く．");
    reveal_strlit("**暴行**\n時間後に意識を取り戻すと怪我をしており，\n耐久力が発作を起こす前の半分に減少している");
    reveal_strlit("**暴力**\n周囲に暴力を振るっている．\nもしかすると物を壊したり，人を傷つけているかもしれない．");
    reveal_strlit("**重要な人々**\nバックストーリーの重要な人々に対して「最善」と思える行動を行う．\nただし，一方的な考えによるものである．");
    reveal_strlit("**イデオロギー/信念**\nバックストーリーのイデオロギー/信念に基づく行為をする．\nその姿は感情的で狂気じみており，見た人は恐怖を感じるかもしれない．");
    reveal_strlit("**収容**\n意識を取り戻すと精神医療施設や警察の留置所に収容されている．");
    reveal_strlit("**パニック**\n狂気中に逃走を図ったため，意識を取り戻すと遠く離れた場所にいることに気付く．\nもしかするとチケットを買わず徒歩で山奥や荒野を延々と歩き続けているかもしれない．");
    reveal_strlit("**恐怖症**\n新たに恐怖症を獲得する．");
    reveal_strlit("**マニア**\n新たにマニアを獲得する．");
    assert(realtime_head(1)[2] != realtime_head(4)[2]);
    assert(realtime_head(1)[2] != realtime_head(9)[2]);
    assert(realtime_head(1)[2] != realtime_head(10)[2]);
    assert(realtime_head(2)[2] != realtime_head(5)[2]);
    assert(realtime_head(4)[2] != realtime_head(9)[2]);
    assert(realtime_head(4)[2] != realtime_head(10)[2]);
    assert(realtime_head(9)[2] != realtime_head(10)[2]);
    assert(realtime_tail(1)[7] != realtime_tail(4)[7]);
    assert(summary_body(3)[3] != summary_body(4)[3]);
    assert(summary_body(9)[2] != summary_body(10)[2]);
    assert(realtime_head(1).len() == 7);
    assert(realtime_head(2).len() == 9);
    assert(realtime_head(3).len() == 8);
    assert(realtime_head(4).len() == 7);
    assert(realtime_head(5).len() == 9);
    assert(realtime_head(6).len() == 6);
    assert(realtime_head(7).len() == 16);
    assert(realtime_head(8).len() == 20);
    assert(realtime_head(9).len() == 7);
    assert(realtime_head(10).len() == 7);
    assert(realtime_tail(1).len() == 36);
    assert(realtime_tail(2).len() == 41);
    assert(realtime_tail(3).len() == 30);
    assert(realtime_tail(4).len() == 36);
    assert(realtime_tail(5).len() == 39);
    assert(realtime_tail(6).len() == 20);
    assert(realtime_tail(7).len() == 31);
    assert(realtime_tail(8).len() == 32);
    assert(realtime_tail(9).len() == 34);
    assert(realtime_tail(10).len() == 40);
    assert(summary_body(1).len() == 43);
    assert(summary_body(2).len() == 33);
    assert(summary_body(3).len() == 49);
    assert(summary_body(4).len() == 49);
    assert(summary_body(5).len() == 62);
    assert(summary_body(6).len() == 76);
    assert(summary_body(7).len() == 37);
    assert(summary_body(8).len() == 88);
    assert(summary_body(9).len() == 20);
    assert(summary_body(10).len() == 20);
    assert forall|i: int, j: int|
        1 <= i <= 10 && 1 <= j <= 10 && i != j implies realtime_head(i) != realtime_head(j)
            && realtime_tail(i) != realtime_tail(j) && summary_body(i) != summary_body(j) by {
        if j == 1 {
        } else if j == 2 {
        } else if j == 3 {
        } else if j == 4 {
        } else if j == 5 {
        } else if j == 6 {
        } else if j == 7 {
        } else if j == 8 {
        } else if j == 9 {
        } else {
        }
    }
}

} // verus!
