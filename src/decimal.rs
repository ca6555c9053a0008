use vstd::prelude::*;

verus! {

/// A non-negative decimal number: `units` scaled down by ten to the `scale`.
#[derive(Clone, Copy, Debug, PartialEq, Eq, Structural)]
pub struct Decimal {
    pub units: u64,
    pub scale: usize,
}

pub open spec fn is_digit(c: u8) -> bool {
    48 <= c <= 57
}

pub open spec fn is_dot(c: u8) -> bool {
    c == 46
}

/// The text with its decimal point taken out.
pub open spec fn digits_of(b: Seq<u8>) -> Seq<u8>
    decreases b.len(),
{
    if b.len() == 0 {
        Seq::empty()
    } else if is_dot(b.last()) {
        digits_of(b.drop_last())
    } else {
        digits_of(b.drop_last()).push(b.last())
    }
}

/// The number that a string of digits spells in base ten.
pub open spec fn digits_value(d: Seq<u8>) -> nat
    decreases d.len(),
{
    if d.len() == 0 {
        0
    } else {
        digits_value(d.drop_last()) * 10 + (d.last() - 48) as nat
    }
}

pub open spec fn count_dots(b: Seq<u8>) -> nat
    decreases b.len(),
{
    if b.len() == 0 {
        0
    } else {
        count_dots(b.drop_last()) + if is_dot(b.last()) { 1nat } else { 0nat }
    }
}

/// How many bytes follow the last decimal point.
pub open spec fn frac_len(b: Seq<u8>) -> nat
    decreases b.len(),
{
    if b.len() == 0 {
        0
    } else if is_dot(b.last()) {
        0
    } else {
        frac_len(b.drop_last()) + 1
    }
}

/// Digits, with at most one decimal point, which has a digit on each side.
pub open spec fn is_decimal_text(b: Seq<u8>) -> bool {
    &&& b.len() > 0
    &&& is_digit(b[0])
    &&& is_digit(b.last())
    &&& forall|i: int| 0 <= i < b.len() ==> (is_digit(#[trigger] b[i]) || is_dot(b[i]))
    &&& count_dots(b) <= 1
}

/// What a decimal text denotes, or `None` where it is malformed or its
/// digits do not fit in 64 bits.
pub open spec fn decimal_of(b: Seq<u8>) -> Option<Decimal> {
    if is_decimal_text(b) && digits_value(digits_of(b)) <= u64::MAX {
        Some(
            Decimal {
                units: digits_value(digits_of(b)) as u64,
                scale: if count_dots(b) == 1 { frac_len(b) as usize } else { 0usize },
            },
        )
    } else {
        None
    }
}

proof fn lemma_digits_monotone(b: Seq<u8>, i: int, j: int)
    requires
        0 <= i <= j <= b.len(),
        forall|k: int| 0 <= k < j ==> (is_digit(#[trigger] b[k]) || is_dot(b[k])),
    ensures
        digits_value(digits_of(b.take(i))) <= digits_value(digits_of(b.take(j))),
    decreases j - i,
{
    if i < j {
        lemma_digits_monotone(b, i, j - 1);
        let t = b.take(j);
        assert(t.drop_last() =~= b.take(j - 1));
        assert(t.last() == b[j - 1]);
        if !is_dot(t.last()) {
            let d = digits_of(b.take(j - 1));
            assert(digits_of(t) == d.push(t.last()));
            assert(d.push(t.last()).drop_last() =~= d);
            assert(digits_value(d.push(t.last())) == digits_value(d) * 10 + (t.last() - 48) as nat);
        }
    }
}

/// Parses a decimal text such as `26560.5`.
pub fn parse_decimal(b: &[u8]) -> (r: Option<Decimal>)
    ensures
        r == decimal_of(b@),
{
    let n = b.len();
    if n == 0 {
        return None;
    }
    let mut units: u64 = 0;
    let mut dots: usize = 0;
    let mut frac: usize = 0;
    let mut i: usize = 0;
    while i < n
        invariant
            n == b@.len(),
            0 <= i <= n,
            forall|k: int| 0 <= k < i ==> (is_digit(#[trigger] b@[k]) || is_dot(b@[k])),
            units as nat == digits_value(digits_of(b@.take(i as int))),
            dots as nat == count_dots(b@.take(i as int)),
            frac as nat == frac_len(b@.take(i as int)),
            dots <= 1,
            frac <= i,
        decreases n - i,
    {
        let c = b[i];
        let ghost t = b@.take(i as int + 1);
        assert(t.drop_last() =~= b@.take(i as int));
        assert(t.last() == c);
        if c == 46u8 {
            if dots == 1 {
                assert(count_dots(t) == 2);
                assert(b@.take(n as int) =~= b@);
                proof {
                    lemma_count_dots_monotone(b@, i as int + 1, n as int);
                }
                return None;
            }
            dots = dots + 1;
            frac = 0;
        } else if 48u8 <= c && c <= 57u8 {
            let d = (c - 48u8) as u64;
            if units > (u64::MAX - d) / 10 {
                proof {
                    let dd = digits_of(b@.take(i as int));
                    assert(digits_of(t) == dd.push(c));
                    assert(dd.push(c).drop_last() =~= dd);
                    assert(digits_value(digits_of(t)) == units * 10 + d);
                    assert(units * 10 + d > u64::MAX) by (nonlinear_arith)
                        requires
                            units > (u64::MAX - d) / 10,
                            d <= 9,
                    ;
                    assert(b@.take(n as int) =~= b@);
                    if forall|k: int| 0 <= k < n ==> (is_digit(#[trigger] b@[k]) || is_dot(b@[k])) {
                        lemma_digits_monotone(b@, i as int + 1, n as int);
                    }
                }
                return None;
            }
            units = units * 10 + d;
            frac = frac + 1;
            proof {
                let dd = digits_of(b@.take(i as int));
                assert(digits_of(t) == dd.push(c));
                assert(dd.push(c).drop_last() =~= dd);
            }
        } else {
            assert(!(is_digit(b@[i as int]) || is_dot(b@[i as int])));
            return None;
        }
        i = i + 1;
    }
    assert(b@.take(n as int) =~= b@);
    if !(48u8 <= b[0] && b[0] <= 57u8) || !(48u8 <= b[n - 1] && b[n - 1] <= 57u8) {
        return None;
    }
    Some(Decimal { units, scale: if dots == 1 { frac } else { 0 } })
}

proof fn lemma_count_dots_monotone(b: Seq<u8>, i: int, j: int)
    requires
        0 <= i <= j <= b.len(),
    ensures
        count_dots(b.take(i)) <= count_dots(b.take(j)),
    decreases j - i,
{
    if i < j {
        lemma_count_dots_monotone(b, i, j - 1);
        assert(b.take(j).drop_last() =~= b.take(j - 1));
    }
}

} // verus!
