//! Rolling dice, with the bonus and penalty dice of percentile skill rolls.
use vstd::prelude::*;
use rand::rngs::ThreadRng;
use rand::Rng;

verus! {

/// The thread-local random generator of `rand`; opaque here.
#[verifier::external_type_specification]
#[verifier::external_body]
pub struct ExThreadRng(ThreadRng);

/// `rand::thread_rng` hands out the thread's generator; nothing is stated of it.
pub assume_specification[ rand::thread_rng ]() -> ThreadRng;

/// Calls `Rng::gen_range` on the inclusive range `low..=high`.
/// Claimed: the result lies in `low..=high`, and the call does not panic when
/// `low <= high` (it panics on an empty range, which `requires` leaves out).
/// Which value in the range comes out is left unsaid: it is random.
#[verifier::external_body]
pub(crate) fn gen_range_inclusive(rng: &mut ThreadRng, low: usize, high: usize) -> (r: usize)
    requires
        low <= high,
    ensures
        low <= r <= high,
{
    rng.gen_range(low..=high)
}

/// The sum of the faces rolled.
pub open spec fn roll_total(rolls: Seq<usize>) -> int
    decreases rolls.len(),
{
    if rolls.len() == 0 {
        0
    } else {
        roll_total(rolls.drop_last()) + rolls.last()
    }
}

/// `rolls` are `count` faces of dice with `sides` sides.
pub open spec fn valid_rolls(rolls: Seq<usize>, count: nat, sides: nat) -> bool {
    &&& rolls.len() == count
    &&& forall|i: int| 0 <= i < rolls.len() ==> 1 <= #[trigger] rolls[i] <= sides
}

/// The smallest element of a non-empty sequence.
pub open spec fn seq_min(s: Seq<usize>) -> int
    decreases s.len(),
{
    if s.len() <= 1 {
        if s.len() == 0 {
            0
        } else {
            s[0] as int
        }
    } else if seq_min(s.drop_last()) <= s.last() {
        seq_min(s.drop_last())
    } else {
        s.last() as int
    }
}

/// The largest element of a non-empty sequence.
pub open spec fn seq_max(s: Seq<usize>) -> int
    decreases s.len(),
{
    if s.len() <= 1 {
        if s.len() == 0 {
            0
        } else {
            s[0] as int
        }
    } else if seq_max(s.drop_last()) >= s.last() {
        seq_max(s.drop_last())
    } else {
        s.last() as int
    }
}

/// An optional count, absent meaning zero.
pub open spec fn count_of(o: Option<usize>) -> nat {
    match o {
        Some(n) => n as nat,
        None => 0,
    }
}

/// How many ten-sided extra dice are rolled: bonus and penalty dice cancel out.
pub open spec fn extra_dice_count(bonus: nat, penalty: nat) -> nat {
    if bonus > penalty {
        (bonus - penalty) as nat
    } else {
        (penalty - bonus) as nat
    }
}

/// The result of a roll once the extra dice are applied.  With more bonus dice the
/// lowest extra die, with more penalty dice the highest, stands for the tens, and
/// replaces them where that makes the roll lower (bonus) or higher (penalty); the
/// ones are kept.
pub open spec fn adjusted_total(total: int, extra: Seq<usize>, bonus: nat, penalty: nat) -> int {
    if bonus > penalty {
        let tens = seq_min(extra);
        if total > tens * 10 {
            total % 10 + tens * 10
        } else {
            total
        }
    } else if penalty > bonus {
        let tens = seq_max(extra);
        if total < tens * 10 {
            total % 10 + tens * 10
        } else {
            total
        }
    } else {
        total
    }
}

/// The value a roll of `rolls` and `extra` gives with the given bonus and penalty dice.
pub open spec fn dice_value(rolls: Seq<usize>, extra: Seq<usize>, bonus: nat, penalty: nat) -> int {
    adjusted_total(roll_total(rolls), extra, bonus, penalty)
}

/// The value of `count` dice with `sides` sides can be any `dice_value` of faces in range.
pub open spec fn possible_dice_value(
    r: int,
    count: nat,
    sides: nat,
    bonus: nat,
    penalty: nat,
) -> bool {
    exists|rolls: Seq<usize>, extra: Seq<usize>|
        #![trigger valid_rolls(rolls, count, sides), valid_rolls(extra, extra_dice_count(bonus, penalty), 10)]
        valid_rolls(rolls, count, sides) && valid_rolls(extra, extra_dice_count(bonus, penalty), 10)
            && r == dice_value(rolls, extra, bonus, penalty)
}

/// The total of `count` dice with `sides` sides lies between `count` and `count * sides`.
pub proof fn lemma_roll_total_bounds(rolls: Seq<usize>, count: nat, sides: nat)
    requires
        valid_rolls(rolls, count, sides),
    ensures
        count <= roll_total(rolls) <= count * sides,
    decreases rolls.len(),
{
    if rolls.len() > 0 {
        let c = (count - 1) as nat;
        lemma_roll_total_bounds(rolls.drop_last(), c, sides);
        assert(rolls.last() == rolls[rolls.len() - 1]);
        assert(c * sides + sides == count * sides) by (nonlinear_arith)
            requires
                c + 1 == count,
        ;
    }
}

/// Every element lies between the smallest and the largest.
pub proof fn lemma_min_max_bounds(s: Seq<usize>, i: int)
    requires
        0 <= i < s.len(),
    ensures
        seq_min(s) <= s[i] <= seq_max(s),
    decreases s.len(),
{
    if s.len() > 1 && i < s.len() - 1 {
        lemma_min_max_bounds(s.drop_last(), i);
    }
}

/// The smallest and the largest elements are elements.
pub proof fn lemma_min_max_members(s: Seq<usize>)
    requires
        s.len() > 0,
    ensures
        exists|i: int| 0 <= i < s.len() && s[i] == seq_min(s),
        exists|j: int| 0 <= j < s.len() && s[j] == seq_max(s),
    decreases s.len(),
{
    if s.len() == 1 {
        assert(s[0] == seq_min(s));
        assert(s[0] == seq_max(s));
    } else {
        lemma_min_max_members(s.drop_last());
        let i = choose|i: int| 0 <= i < s.len() - 1 && s.drop_last()[i] == seq_min(s.drop_last());
        let j = choose|j: int| 0 <= j < s.len() - 1 && s.drop_last()[j] == seq_max(s.drop_last());
        assert(s[i] == s.drop_last()[i]);
        assert(s[j] == s.drop_last()[j]);
        assert(s[s.len() - 1] == s.last());
    }
}

/// Bonus dice never make a roll higher, penalty dice never make it lower, and neither
/// changes the ones digit; when they cancel out, the roll stands as it is.
pub proof fn lemma_extra_dice_direction(total: int, extra: Seq<usize>, bonus: nat, penalty: nat)
    requires
        total >= 0,
    ensures
        bonus > penalty ==> adjusted_total(total, extra, bonus, penalty) <= total,
        penalty > bonus ==> adjusted_total(total, extra, bonus, penalty) >= total,
        bonus == penalty ==> adjusted_total(total, extra, bonus, penalty) == total,
        adjusted_total(total, extra, bonus, penalty) % 10 == total % 10,
{
    let r = adjusted_total(total, extra, bonus, penalty);
    if bonus > penalty {
        let t = seq_min(extra);
        if total > t * 10 {
            assert(r == total % 10 + t * 10);
            assert(total % 10 + t * 10 <= total) by (nonlinear_arith)
                requires
                    total > t * 10,
                    total >= 0,
            ;
            assert((total % 10 + t * 10) % 10 == total % 10) by (nonlinear_arith);
        }
    } else if penalty > bonus {
        let t = seq_max(extra);
        if total < t * 10 {
            assert((total % 10 + t * 10) % 10 == total % 10) by (nonlinear_arith);
        }
    }
}

/// A prefix of the rolls never totals more than all of them.
pub proof fn lemma_roll_total_prefix(rolls: Seq<usize>, i: int)
    requires
        0 <= i <= rolls.len(),
    ensures
        roll_total(rolls.subrange(0, i)) <= roll_total(rolls),
    decreases rolls.len(),
{
    if i < rolls.len() {
        lemma_roll_total_prefix(rolls.drop_last(), i);
        assert(rolls.drop_last().subrange(0, i) =~= rolls.subrange(0, i));
    } else {
        assert(rolls.subrange(0, i) =~= rolls);
    }
}

/// Only the difference between bonus and penalty dice counts: adding the same number to
/// both changes neither how many extra dice are rolled, nor the value of any roll, nor
/// which values a roll can give; and no count is the same as a count of zero.
pub proof fn lemma_only_difference_counts(
    rolls: Seq<usize>,
    extra: Seq<usize>,
    bonus: nat,
    penalty: nat,
    k: nat,
    r: int,
    count: nat,
    sides: nat,
)
    ensures
        extra_dice_count(bonus + k, penalty + k) == extra_dice_count(bonus, penalty),
        dice_value(rolls, extra, bonus + k, penalty + k) == dice_value(rolls, extra, bonus, penalty),
        possible_dice_value(r, count, sides, bonus + k, penalty + k) == possible_dice_value(
            r,
            count,
            sides,
            bonus,
            penalty,
        ),
        count_of(None) == count_of(Some(0usize)),
{
    assert forall|rs: Seq<usize>, ex: Seq<usize>|
        #[trigger] dice_value(rs, ex, bonus + k, penalty + k) == dice_value(rs, ex, bonus, penalty) by {}
    if possible_dice_value(r, count, sides, bonus, penalty) {
        let (rs, ex) = choose|rs: Seq<usize>, ex: Seq<usize>|
            #![trigger valid_rolls(rs, count, sides), valid_rolls(ex, extra_dice_count(bonus, penalty), 10)]
            valid_rolls(rs, count, sides) && valid_rolls(ex, extra_dice_count(bonus, penalty), 10) && r
                == dice_value(rs, ex, bonus, penalty);
        assert(dice_value(rs, ex, bonus + k, penalty + k) == dice_value(rs, ex, bonus, penalty));
        assert(valid_rolls(ex, extra_dice_count(bonus + k, penalty + k), 10));
    }
    if possible_dice_value(r, count, sides, bonus + k, penalty + k) {
        let (rs, ex) = choose|rs: Seq<usize>, ex: Seq<usize>|
            #![trigger valid_rolls(rs, count, sides), valid_rolls(ex, extra_dice_count(bonus + k, penalty + k), 10)]
            valid_rolls(rs, count, sides) && valid_rolls(ex, extra_dice_count(bonus + k, penalty + k), 10)
                && r == dice_value(rs, ex, bonus + k, penalty + k);
        assert(dice_value(rs, ex, bonus + k, penalty + k) == dice_value(rs, ex, bonus, penalty));
        assert(valid_rolls(ex, extra_dice_count(bonus, penalty), 10));
    }
}

/// The sum of the faces in `rolls`, which must fit in a `usize`.
pub fn sum_rolls(rolls: &Vec<usize>) -> (total: usize)
    requires
        roll_total(rolls@) <= usize::MAX,
    ensures
        total == roll_total(rolls@),
{
    let mut total: usize = 0;
    let mut i: usize = 0;
    while i < rolls.len()
        invariant
            i <= rolls.len(),
            roll_total(rolls@) <= usize::MAX,
            total == roll_total(rolls@.subrange(0, i as int)),
        decreases rolls.len() - i,
    {
        assert(rolls@.subrange(0, i + 1).drop_last() =~= rolls@.subrange(0, i as int));
        proof {
            lemma_roll_total_prefix(rolls@, i + 1);
        }
        total = total + rolls[i];
        i = i + 1;
    }
    assert(rolls@.subrange(0, i as int) =~= rolls@);
    total
}

/// The value of a roll whose faces were `rolls` and whose extra ten-sided dice were
/// `extra`, with the given numbers of bonus and penalty dice.
pub fn dice_value_from_rolls(
    rolls: &Vec<usize>,
    extra: &Vec<usize>,
    bonus: Option<usize>,
    penalty: Option<usize>,
) -> (r: usize)
    requires
        roll_total(rolls@) <= usize::MAX,
        extra.len() == extra_dice_count(count_of(bonus), count_of(penalty)),
        forall|i: int| 0 <= i < extra.len() ==> extra[i] <= 10,
    ensures
        r == dice_value(rolls@, extra@, count_of(bonus), count_of(penalty)),
{
    let total = sum_rolls(rolls);
    let b = match bonus {
        Some(n) => n,
        None => 0,
    };
    let p = match penalty {
        Some(n) => n,
        None => 0,
    };
    if b > p {
        let mut tens = extra[0];
        let mut i: usize = 1;
        while i < extra.len()
            invariant
                1 <= i <= extra.len(),
                tens == seq_min(extra@.subrange(0, i as int)),
                tens <= 10,
                forall|j: int| 0 <= j < extra.len() ==> extra[j] <= 10,
            decreases extra.len() - i,
        {
            assert(extra@.subrange(0, i + 1).drop_last() =~= extra@.subrange(0, i as int));
            if extra[i] < tens {
                tens = extra[i];
            }
            i = i + 1;
        }
        assert(extra@.subrange(0, i as int) =~= extra@);
        if total > tens * 10 {
            total % 10 + tens * 10
        } else {
            total
        }
    } else if p > b {
        let mut tens = extra[0];
        let mut i: usize = 1;
        while i < extra.len()
            invariant
                1 <= i <= extra.len(),
                tens == seq_max(extra@.subrange(0, i as int)),
                tens <= 10,
                forall|j: int| 0 <= j < extra.len() ==> extra[j] <= 10,
            decreases extra.len() - i,
        {
            assert(extra@.subrange(0, i + 1).drop_last() =~= extra@.subrange(0, i as int));
            if extra[i] > tens {
                tens = extra[i];
            }
            i = i + 1;
        }
        assert(extra@.subrange(0, i as int) =~= extra@);
        if total < tens * 10 {
            total % 10 + tens * 10
        } else {
            total
        }
    } else {
        total
    }
}

/// A random generator that keeps a record of every number it has drawn, in order.
pub struct DiceBag {
    rng: ThreadRng,
    drawn: Ghost<Seq<usize>>,
}

impl DiceBag {
    /// The numbers drawn so far, oldest first.
    pub closed spec fn draws(&self) -> Seq<usize> {
        self.drawn@
    }

    /// A bag on the thread's generator, with nothing drawn yet.
    pub fn new() -> (bag: DiceBag)
        ensures
            bag.draws() == Seq::<usize>::empty(),
    {
        DiceBag { rng: rand::thread_rng(), drawn: Ghost(Seq::empty()) }
    }

    /// Draws a number from `low` to `high`, both included, and records it.
    pub fn draw(&mut self, low: usize, high: usize) -> (r: usize)
        requires
            low <= high,
        ensures
            low <= r <= high,
            final(self).draws() == old(self).draws().push(r),
    {
        let r = gen_range_inclusive(&mut self.rng, low, high);
        self.drawn = Ghost(self.drawn@.push(r));
        r
    }
}

/// The value with bonus dice is the lowest of the plain total and, for each extra die,
/// the total with that die's face as the tens; with penalty dice it is the highest of
/// them; with neither, or as many of each, it is the plain total.
pub proof fn lemma_extra_dice_choice(total: int, extra: Seq<usize>, bonus: nat, penalty: nat)
    requires
        total >= 0,
        bonus != penalty ==> extra.len() > 0,
    ensures
        bonus > penalty ==> {
            let r = adjusted_total(total, extra, bonus, penalty);
            &&& r <= total
            &&& forall|i: int| 0 <= i < extra.len() ==> r <= total % 10 + 10 * #[trigger] extra[i]
            &&& r == total || exists|i: int| 0 <= i < extra.len() && r == total % 10 + 10 * extra[i]
        },
        penalty > bonus ==> {
            let r = adjusted_total(total, extra, bonus, penalty);
            &&& r >= total
            &&& forall|i: int| 0 <= i < extra.len() ==> r >= total % 10 + 10 * #[trigger] extra[i]
            &&& r == total || exists|i: int| 0 <= i < extra.len() && r == total % 10 + 10 * extra[i]
        },
        bonus == penalty ==> adjusted_total(total, extra, bonus, penalty) == total,
{
    lemma_extra_dice_direction(total, extra, bonus, penalty);
    if bonus != penalty {
        lemma_min_max_members(extra);
        assert forall|i: int| 0 <= i < extra.len() implies seq_min(extra) <= #[trigger] extra[i] <= seq_max(
            extra,
        ) by {
            lemma_min_max_bounds(extra, i);
        }
        let m = seq_min(extra);
        let x = seq_max(extra);
        assert(total % 10 + 10 * m <= total || total <= 10 * m) by (nonlinear_arith)
            requires
                total >= 0,
        ;
        assert(total % 10 + 10 * x >= total || total >= 10 * x) by (nonlinear_arith)
            requires
                total >= 0,
        ;
        assert(total < 10 * x ==> total % 10 + 10 * x >= total) by (nonlinear_arith)
            requires
                total >= 0,
        ;
        assert(0 <= total % 10 < 10);
    }
}

/// Rolls `count` dice of `sides` sides from `bag`.
fn roll_dice(bag: &mut DiceBag, count: usize, sides: usize) -> (rolls: Vec<usize>)
    requires
        count == 0 || sides >= 1,
    ensures
        valid_rolls(rolls@, count as nat, sides as nat),
        final(bag).draws() == old(bag).draws() + rolls@,
{
    let mut rolls: Vec<usize> = Vec::new();
    let mut i: usize = 0;
    while i < count
        invariant
            i <= count,
            count == 0 || sides >= 1,
            rolls.len() == i,
            forall|j: int| 0 <= j < rolls.len() ==> 1 <= #[trigger] rolls[j] <= sides,
            bag.draws() == old(bag).draws() + rolls@,
        decreases count - i,
    {
        let face = bag.draw(1, sides);
        rolls.push(face);
        i = i + 1;
    }
    rolls
}

/// Rolls `qty` dice with `die` sides from `bag`, then the extra ten-sided dice that the
/// surplus of bonus or penalty dice calls for, each one drawn on its own.  The value is
/// that of exactly the faces drawn: the first `qty` for the roll, the rest for the
/// extra dice.
pub fn get_dice_val_with(
    bag: &mut DiceBag,
    qty: usize,
    die: usize,
    bonus: Option<usize>,
    penalty: Option<usize>,
) -> (r: usize)
    requires
        qty == 0 || die >= 1,
        qty * die <= usize::MAX,
    ensures
        ({
            let before = old(bag).draws();
            let after = final(bag).draws();
            let faces = after.subrange(before.len() as int, after.len() as int);
            let extra = extra_dice_count(count_of(bonus), count_of(penalty));
            &&& after.len() == before.len() + qty + extra
            &&& after.subrange(0, before.len() as int) == before
            &&& valid_rolls(faces.take(qty as int), qty as nat, die as nat)
            &&& valid_rolls(faces.skip(qty as int), extra, 10)
            &&& r == dice_value(faces.take(qty as int), faces.skip(qty as int), count_of(bonus), count_of(penalty))
        }),
{
    let rolls = roll_dice(bag, qty, die);
    let b = match bonus {
        Some(n) => n,
        None => 0,
    };
    let p = match penalty {
        Some(n) => n,
        None => 0,
    };
    let extra_count = if b > p {
        b - p
    } else {
        p - b
    };
    let extra = roll_dice(bag, extra_count, 10);
    proof {
        lemma_roll_total_bounds(rolls@, qty as nat, die as nat);
    }
    let r = dice_value_from_rolls(&rolls, &extra, bonus, penalty);
    let ghost before = old(bag).draws();
    let ghost after = bag.draws();
    let ghost faces = after.subrange(before.len() as int, after.len() as int);
    assert(faces =~= rolls@ + extra@);
    assert(faces.take(qty as int) =~= rolls@);
    assert(faces.skip(qty as int) =~= extra@);
    assert(after.subrange(0, before.len() as int) =~= before);
    r
}

/// Rolls `qty` dice with `die` sides, with the given numbers of bonus and penalty
/// dice (ten-sided) that stand for the tens of a percentile roll.
pub fn get_dice_val(qty: usize, die: usize, bonus: Option<usize>, penalty: Option<usize>) -> (r: usize)
    requires
        qty == 0 || die >= 1,
        qty * die <= usize::MAX,
    ensures
        possible_dice_value(r as int, qty as nat, die as nat, count_of(bonus), count_of(penalty)),
{
    let mut bag = DiceBag::new();
    let r = get_dice_val_with(&mut bag, qty, die, bonus, penalty);
    let ghost faces = bag.draws().subrange(0, bag.draws().len() as int);
    assert(valid_rolls(faces.take(qty as int), qty as nat, die as nat) && valid_rolls(
        faces.skip(qty as int),
        extra_dice_count(count_of(bonus), count_of(penalty)),
        10,
    ));
    r
}

} // verus!
