//! Quantities in mixed units: a number of items as stacks and shulker
//! boxes, a number of seconds as minutes, hours and days.

use vstd::prelude::*;
use vstd::string::StringExecFns;

verus! {

pub const STACK_SIZE: i32 = 64;

pub const SHULKER_SLOTS: i32 = CHEST_SLOTS;

pub const CHEST_SLOTS: i32 = 27;

/// The product of the numbers of `s`.
pub open spec fn product(s: Seq<i32>) -> int
    decreases s.len(),
{
    if s.len() == 0 {
        1
    } else {
        product(s.drop_last()) * s.last()
    }
}

/// The quotient of `a` by a positive `b`, rounded toward zero.
pub open spec fn quotient(a: int, b: int) -> int {
    if a >= 0 {
        a / b
    } else {
        -((-a) / b)
    }
}

/// What the quotient toward zero leaves of `a`.
pub open spec fn remainder(a: int, b: int) -> int {
    a - quotient(a, b) * b
}

/// Whether `col` can group a number: each of its steps is positive, and
/// together they stay within 32 bits.
pub open spec fn is_grouping(col: Seq<i32>) -> bool {
    &&& forall|i: int| 0 <= i < col.len() ==> #[trigger] col[i] >= 1
    &&& product(col) <= i32::MAX
}

/// `n` grouped by `col`, greatest unit first: `col[0]` of the least unit
/// make one of the next, `col[1]` of those one of the unit after, and so on.
/// The result has one number more than `col`; the last counts the least
/// unit.
pub open spec fn grouped(col: Seq<i32>, n: int) -> Seq<int>
    decreases col.len(),
{
    if col.len() == 0 {
        seq![n]
    } else {
        seq![quotient(n, product(col))] + grouped(col.drop_last(), remainder(n, product(col)))
    }
}

/// The products of the leading steps of a grouping are positive and grow.
proof fn lemma_product_grows(col: Seq<i32>, k: int)
    requires
        forall|i: int| 0 <= i < col.len() ==> #[trigger] col[i] >= 1,
        0 <= k <= col.len(),
    ensures
        1 <= product(col.take(k)) <= product(col),
    decreases col.len() - k,
{
    if k == 0 {
        assert(col.take(0).len() == 0);
        lemma_product_positive(col);
    } else if k < col.len() {
        lemma_product_grows(col, k + 1);
        let s = col.take(k + 1);
        assert(s.drop_last() == col.take(k));
        assert(s.last() == col[k]);
        lemma_product_positive(col.take(k));
        assert(product(col.take(k)) <= product(col.take(k)) * col[k]) by (nonlinear_arith)
            requires
                product(col.take(k)) >= 1,
                col[k] >= 1,
        ;
    } else {
        assert(col.take(k) == col);
        lemma_product_positive(col);
    }
}

proof fn lemma_product_positive(col: Seq<i32>)
    requires
        forall|i: int| 0 <= i < col.len() ==> #[trigger] col[i] >= 1,
    ensures
        1 <= product(col),
    decreases col.len(),
{
    if col.len() > 0 {
        lemma_product_positive(col.drop_last());
        assert(product(col.drop_last()) * col.last() >= 1) by (nonlinear_arith)
            requires
                product(col.drop_last()) >= 1,
                col.last() >= 1,
        ;
    }
}

/// What the quotient toward zero leaves has the sign of the dividend.
proof fn lemma_remainder(a: int, b: int)
    requires
        b >= 1,
    ensures
        remainder(a, b) == (if a >= 0 {
            a % b
        } else {
            -((-a) % b)
        }),
{
    vstd::arithmetic::div_mod::lemma_fundamental_div_mod(a, b);
    vstd::arithmetic::div_mod::lemma_fundamental_div_mod(-a, b);
    assert((a / b) * b == b * (a / b) && ((-a) / b) * b == b * ((-a) / b) && (-((-a) / b)) * b == -(
    b * ((-a) / b))) by (nonlinear_arith);
}

/// Groups `n` by the steps of `col`, greatest unit first.
///
/// With the steps 60, 60 and 24, 100 000 seconds are 1 day, 3 hours, 46
/// minutes and 40 seconds.
pub fn to_col_group(col: Vec<i32>, n: i32) -> (r: Vec<i32>)
    requires
        is_grouping(col@),
    ensures
        r@.len() == col@.len() + 1,
        r@.map_values(|v: i32| v as int) == grouped(col@, n as int),
{
    // create cumulative collection
    let mut cum_col: Vec<i32> = Vec::new();
    let mut t: i32 = 1;
    let mut i: usize = 0;
    while i < col.len()
        invariant
            i <= col.len(),
            is_grouping(col@),
            cum_col@.len() == i,
            t == product(col@.take(i as int)),
            forall|k: int| 0 <= k < i ==> #[trigger] cum_col@[k] == product(col@.take(k + 1)),
        decreases col.len() - i,
    {
        proof {
            lemma_product_grows(col@, i + 1);
            assert(col@.take(i + 1).drop_last() == col@.take(i as int));
        }
        t = t * col[i];
        cum_col.push(t);
        i += 1;
    }
    // go from largest group to smallest to find remainders
    let mut grouped_so_far: Vec<i32> = Vec::new();
    let mut v = n;
    let mut k: usize = col.len();
    proof {
        assert(col@.take(k as int) == col@);
    }
    while k > 0
        invariant
            k <= col.len(),
            is_grouping(col@),
            cum_col@.len() == col@.len(),
            forall|j: int| 0 <= j < col@.len() ==> #[trigger] cum_col@[j] == product(col@.take(j + 1)),
            grouped_so_far@.len() == col@.len() - k,
            grouped_so_far@.map_values(|x: i32| x as int) + grouped(col@.take(k as int), v as int)
                == grouped(col@, n as int),
        decreases k,
    {
        let cum_c = cum_col[k - 1];
        proof {
            lemma_product_grows(col@, k as int);
            assert(col@.take(k as int).drop_last() == col@.take(k - 1));
            assert(cum_c == product(col@.take(k as int)));
        }
        let q = v / cum_c;
        let rest = v % cum_c;
        proof {
            assert(q == quotient(v as int, cum_c as int));
            lemma_remainder(v as int, cum_c as int);
            let before = grouped_so_far@.map_values(|x: i32| x as int);
            assert(grouped_so_far@.push(q).map_values(|x: i32| x as int) == before + seq![q as int]);
        }
        grouped_so_far.push(q);
        v = rest;
        k -= 1;
    }
    proof {
        let before = grouped_so_far@.map_values(|x: i32| x as int);
        assert(col@.take(0).len() == 0);
        assert(grouped_so_far@.push(v).map_values(|x: i32| x as int) == before + seq![v as int]);
    }
    // add final remainder
    grouped_so_far.push(v);

    grouped_so_far
}

/// The steps between the units of storage: items in a stack, stacks in a
/// shulker box, shulker boxes in a double chest.
pub open spec fn space_steps() -> Seq<i32> {
    seq![STACK_SIZE, SHULKER_SLOTS, 54i32]
}

/// The steps between the units of time: seconds, minutes, hours, days,
/// months of 30 days, years of 12 months.
pub open spec fn time_steps() -> Seq<i32> {
    seq![60i32, 60i32, 24i32, 30i32, 12i32]
}

/// Both scales of units are groupings: a double chest of shulker boxes
/// holds 93 312 items, a year 31 104 000 seconds.
pub proof fn lemma_steps()
    ensures
        is_grouping(space_steps()),
        product(space_steps()) == 93_312,
        is_grouping(time_steps()),
        product(time_steps()) == 31_104_000,
{
    assert(product(Seq::<i32>::empty()) == 1);
    let s3 = space_steps();
    let s2 = seq![64i32, 27i32];
    let s1 = seq![64i32];
    assert(s3.drop_last() == s2);
    assert(s2.drop_last() == s1);
    assert(s1.drop_last() == Seq::<i32>::empty());
    assert(product(s1) == 64);
    assert(product(s2) == 64 * 27);
    assert(product(s3) == 64 * 27 * 54);
    let t5 = time_steps();
    let t4 = seq![60i32, 60i32, 24i32, 30i32];
    let t3 = seq![60i32, 60i32, 24i32];
    let t2 = seq![60i32, 60i32];
    let t1 = seq![60i32];
    assert(t5.drop_last() == t4);
    assert(t4.drop_last() == t3);
    assert(t3.drop_last() == t2);
    assert(t2.drop_last() == t1);
    assert(t1.drop_last() == Seq::<i32>::empty());
    assert(product(t1) == 60);
    assert(product(t2) == 3_600);
    assert(product(t3) == 86_400);
    assert(product(t4) == 2_592_000);
    assert(product(t5) == 31_104_000);
}

/// A quantity that can be told in mixed units.
pub trait Countable {
    /// The quantity as an integer.
    spec fn amount(&self) -> int;

    /// The quantity as a number of items: double chests of shulker boxes,
    /// shulker boxes, stacks and items.
    fn to_space(&self) -> (r: Vec<i32>)
        ensures
            r@.len() == 4,
            r@.map_values(|v: i32| v as int) == grouped(space_steps(), self.amount()),
    ;

    /// The quantity as a number of seconds: years, months, days, hours,
    /// minutes and seconds.
    fn to_time(&self) -> (r: Vec<i32>)
        ensures
            r@.len() == 6,
            r@.map_values(|v: i32| v as int) == grouped(time_steps(), self.amount()),
    ;
}

impl Countable for i32 {
    open spec fn amount(&self) -> int {
        *self as int
    }

    fn to_space(&self) -> (r: Vec<i32>) {
        let col: Vec<i32> = vec![STACK_SIZE, SHULKER_SLOTS, 2 * CHEST_SLOTS];
        proof {
            assert(col@ == space_steps());
            lemma_steps();
        }
        to_col_group(col, *self)
    }

    fn to_time(&self) -> (r: Vec<i32>) {
        let col: Vec<i32> = vec![60, 60, 24, 30, 12];
        proof {
            assert(col@ == time_steps());
            lemma_steps();
        }
        to_col_group(col, *self)
    }
}

/// The numeral of a digit.
pub open spec fn digit_text(d: int) -> Seq<char> {
    if d == 0 {
        "0"@
    } else if d == 1 {
        "1"@
    } else if d == 2 {
        "2"@
    } else if d == 3 {
        "3"@
    } else if d == 4 {
        "4"@
    } else if d == 5 {
        "5"@
    } else if d == 6 {
        "6"@
    } else if d == 7 {
        "7"@
    } else if d == 8 {
        "8"@
    } else {
        "9"@
    }
}

/// A natural number in decimal digits, without leading zeros.
pub open spec fn decimal_digits(n: nat) -> Seq<char>
    decreases n,
{
    if n < 10 {
        digit_text(n as int)
    } else {
        decimal_digits(n / 10) + digit_text((n % 10) as int)
    }
}

/// An integer in decimal digits, with a minus sign where it is negative.
pub open spec fn decimal(n: int) -> Seq<char> {
    if n < 0 {
        "-"@ + decimal_digits((-n) as nat)
    } else {
        decimal_digits(n as nat)
    }
}

/// An amount of a unit in words: the number, the unit's name, and the
/// plural's `s` unless the amount is one.
pub open spec fn unit_text(amount: int, name: Seq<char>) -> Seq<char> {
    decimal(amount) + " "@ + name + (if amount != 1 {
        "s"@
    } else {
        Seq::<char>::empty()
    })
}

/// The amounts from place `k` on in words, those that are zero left out,
/// with a comma between two. The amounts come greatest unit first, the
/// names least unit first.
pub open spec fn told_from(amounts: Seq<int>, names: Seq<Seq<char>>, k: int) -> Seq<char>
    decreases amounts.len() - k,
{
    if k < 0 || k >= amounts.len() {
        Seq::<char>::empty()
    } else {
        let rest = told_from(amounts, names, k + 1);
        let this = unit_text(amounts[k], names[amounts.len() - 1 - k]);
        if amounts[k] == 0 {
            rest
        } else if rest.len() == 0 {
            this
        } else {
            this + ", "@ + rest
        }
    }
}

/// A quantity in words: its amounts of each unit, or `zero` where every
/// amount is zero.
pub open spec fn told(amounts: Seq<int>, names: Seq<Seq<char>>, zero: Seq<char>) -> Seq<char> {
    if told_from(amounts, names, 0).len() == 0 {
        zero
    } else {
        told_from(amounts, names, 0)
    }
}

/// The names of the units of storage, least first.
pub open spec fn space_names() -> Seq<Seq<char>> {
    seq!["item"@, "stack"@, "Shulker"@, "Shulker Double Chest"@]
}

/// The names of the units of time, least first.
pub open spec fn time_names() -> Seq<Seq<char>> {
    seq!["second"@, "minute"@, "hour"@, "day"@, "month"@, "year"@]
}

/// The numeral of the digit `d`.
fn digit_str(d: u32) -> (r: &'static str)
    requires
        d < 10,
    ensures
        r@ == digit_text(d as int),
{
    match d {
        0 => "0",
        1 => "1",
        2 => "2",
        3 => "3",
        4 => "4",
        5 => "5",
        6 => "6",
        7 => "7",
        8 => "8",
        _ => "9",
    }
}

/// Writes `n` in decimal digits.
pub fn decimal_string(n: i32) -> (r: String)
    ensures
        r@ == decimal(n as int),
{
    let magnitude: u32 = if n < 0 {
        (-(n as i64)) as u32
    } else {
        n as u32
    };
    let mut rest = magnitude / 10;
    let mut digits = String::from_str(digit_str(magnitude % 10));
    while rest > 0
        invariant
            decimal_digits(magnitude as nat) == (if rest == 0 {
                digits@
            } else {
                decimal_digits(rest as nat) + digits@
            }),
        decreases rest,
    {
        let ghost before = digits@;
        digits = String::from_str(digit_str(rest % 10)).concat(digits.as_str());
        proof {
            if rest >= 10 {
                assert(decimal_digits(rest as nat) + before == decimal_digits((rest / 10) as nat)
                    + digits@);
            }
        }
        rest = rest / 10;
    }
    if n < 0 {
        String::from_str("-").concat(digits.as_str())
    } else {
        digits
    }
}

/// No amount in words is empty.
proof fn lemma_unit_text_not_empty(amount: int, name: Seq<char>)
    ensures
        unit_text(amount, name).len() > 0,
{
    reveal_strlit(" ");
}

/// Tells the amounts in words.
fn tell(amounts: &Vec<i32>, names: &Vec<&'static str>, zero: &'static str) -> (r: String)
    requires
        amounts@.len() == names@.len(),
    ensures
        r@ == told(
            amounts@.map_values(|v: i32| v as int),
            names@.map_values(|n: &'static str| n@),
            zero@,
        ),
{
    let ghost a = amounts@.map_values(|v: i32| v as int);
    let ghost n = names@.map_values(|n: &'static str| n@);
    let len = amounts.len();
    let mut text = String::new();
    let mut any = false;
    let mut k: usize = len;
    while k > 0
        invariant
            k <= len,
            len == amounts@.len(),
            len == names@.len(),
            a == amounts@.map_values(|v: i32| v as int),
            n == names@.map_values(|n: &'static str| n@),
            text@ == told_from(a, n, k as int),
            any == (text@.len() > 0),
        decreases k,
    {
        k -= 1;
        let quant = amounts[k];
        if quant != 0 {
            let mut this = decimal_string(quant);
            this.append(" ");
            this.append(names[len - 1 - k]);
            if quant != 1 {
                this.append("s");
            }
            proof {
                assert(this@ == unit_text(a[k as int], n[len - 1 - k]));
                lemma_unit_text_not_empty(a[k as int], n[len - 1 - k]);
            }
            if any {
                this.append(", ");
                this.append(text.as_str());
            }
            text = this;
            any = true;
        }
    }
    if any {
        text
    } else {
        String::from_str(zero)
    }
}

/// A quantity that can be told in words.
pub trait Denominable {
    /// The quantity as an integer.
    spec fn quantity(&self) -> int;

    /// The quantity as a number of items, in words: `"2 stacks, 2 items"`.
    fn to_space(&self) -> (r: String)
        ensures
            r@ == told(grouped(space_steps(), self.quantity()), space_names(), "0 items"@),
    ;

    /// The quantity as a number of seconds, in words:
    /// `"2 minutes, 10 seconds"`.
    fn to_time(&self) -> (r: String)
        ensures
            r@ == told(grouped(time_steps(), self.quantity()), time_names(), "0 seconds"@),
    ;
}

impl Denominable for i32 {
    open spec fn quantity(&self) -> int {
        *self as int
    }

    fn to_space(&self) -> (r: String) {
        let units: Vec<&'static str> = vec!["item", "stack", "Shulker", "Shulker Double Chest"];
        let denom = Countable::to_space(self);
        proof {
            assert(units@.map_values(|n: &'static str| n@) == space_names());
        }
        tell(&denom, &units, "0 items")
    }

    fn to_time(&self) -> (r: String) {
        let units: Vec<&'static str> = vec!["second", "minute", "hour", "day", "month", "year"];
        let denom = Countable::to_time(self);
        proof {
            assert(units@.map_values(|n: &'static str| n@) == time_names());
        }
        tell(&denom, &units, "0 seconds")
    }
}

} // verus!
