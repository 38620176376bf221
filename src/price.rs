//! Price amounts and the normaliser that reads them out of free-form text.
use vstd::prelude::*;
use crate::text::is_ascii_digit;

verus! {

/// Millionths of a currency unit in one unit.
pub const MICROS_PER_UNIT: u64 = 1_000_000;

/// Fractional digits that an amount keeps.
pub const FRACTION_DIGITS: usize = 6;

/// Exclusive upper bound of a plausible monthly rent, in millionths of a unit.
pub const PRICE_CEILING_MICROS: u64 = 100_000_000_000;

/// An amount of money in millionths of a major currency unit.
#[derive(Clone, Copy, Debug, PartialEq, Eq, Structural)]
pub struct Amount {
    pub micros: u64,
}

impl Amount {
    /// The amount of `units` whole currency units, saturating at the largest amount.
    pub fn from_units(units: u64) -> (r: Amount)
        ensures
            r.micros == saturate((units * MICROS_PER_UNIT) as nat),
    {
        if units > u64::MAX / MICROS_PER_UNIT {
            Amount { micros: u64::MAX }
        } else {
            Amount { micros: units * MICROS_PER_UNIT }
        }
    }
}

/// `v`, or the largest `u64` where `v` exceeds it.
pub open spec fn saturate(v: nat) -> u64 {
    if v > u64::MAX {
        u64::MAX
    } else {
        v as u64
    }
}

pub open spec fn pow10(n: nat) -> nat
    decreases n,
{
    if n == 0 {
        1
    } else {
        10 * pow10((n - 1) as nat)
    }
}

/// Characters that carry a price's value: ASCII digits and the decimal point.
pub open spec fn is_price_char(c: char) -> bool {
    is_ascii_digit(c) || c == '.'
}

/// Index of the first occurrence of `ch` in `s`, or the length of `s` if there is none.
pub open spec fn first_index_of(s: Seq<char>, ch: char) -> nat
    decreases s.len(),
{
    if s.len() == 0 {
        0
    } else if s[0] == ch {
        0
    } else {
        1 + first_index_of(s.drop_first(), ch)
    }
}

/// The part of a price text before its first `/`.
pub open spec fn value_segment(s: Seq<char>) -> Seq<char> {
    s.take(first_index_of(s, '/') as int)
}

/// The digits and decimal points of `s`, in order.
pub open spec fn price_chars(s: Seq<char>) -> Seq<char>
    decreases s.len(),
{
    if s.len() == 0 {
        seq![]
    } else if is_price_char(s.last()) {
        price_chars(s.drop_last()).push(s.last())
    } else {
        price_chars(s.drop_last())
    }
}

/// Number of decimal points in `s`.
pub open spec fn point_count(s: Seq<char>) -> nat
    decreases s.len(),
{
    if s.len() == 0 {
        0
    } else {
        point_count(s.drop_last()) + if s.last() == '.' { 1nat } else { 0nat }
    }
}

/// Value of a run of decimal digits, most significant first.
pub open spec fn digits_value(s: Seq<char>) -> nat
    decreases s.len(),
{
    if s.len() == 0 {
        0
    } else {
        digits_value(s.drop_last()) * 10 + ((s.last() as int - 48) as nat)
    }
}

/// A well-formed decimal numeral over digits and points: at most one point and
/// at least one digit.
pub open spec fn is_decimal(c: Seq<char>) -> bool {
    point_count(c) <= 1 && point_count(c) < c.len()
}

/// The digits of the integer part of `c`.
pub open spec fn whole_digits(c: Seq<char>) -> Seq<char> {
    c.take(first_index_of(c, '.') as int)
}

/// The digits after the decimal point of `c` (empty when there is no point).
pub open spec fn fraction_digits(c: Seq<char>) -> Seq<char> {
    if first_index_of(c, '.') < c.len() {
        c.skip(first_index_of(c, '.') + 1int)
    } else {
        seq![]
    }
}

/// How many fractional digits an amount keeps from `c`.
pub open spec fn kept_fraction_len(c: Seq<char>) -> nat {
    if fraction_digits(c).len() < FRACTION_DIGITS {
        fraction_digits(c).len()
    } else {
        FRACTION_DIGITS as nat
    }
}

/// The value of the decimal numeral `c` in millionths, fractional digits past
/// the sixth dropped.
pub open spec fn decimal_micros(c: Seq<char>) -> nat {
    let kept = whole_digits(c) + fraction_digits(c).take(kept_fraction_len(c) as int);
    digits_value(kept) * pow10((FRACTION_DIGITS - kept_fraction_len(c)) as nat)
}

/// Whether a minus sign comes before the first digit of `s` (a negative price).
pub open spec fn minus_before_digits(s: Seq<char>) -> bool {
    exists|k: int|
        0 <= k < s.len() && #[trigger] s[k] == '-' && forall|j: int|
            0 <= j < k ==> !is_ascii_digit(#[trigger] s[j])
}

/// The amount, in millionths, that a price text gives: before its first `/`,
/// no minus sign may precede the first digit, and the digits and points must
/// form a decimal numeral of positive value. An amount beyond the range of
/// `u64` saturates.
pub open spec fn price_text_micros(s: Seq<char>) -> Option<u64> {
    let c = price_chars(value_segment(s));
    if !minus_before_digits(value_segment(s)) && is_decimal(c) && decimal_micros(c) > 0 {
        Some(saturate(decimal_micros(c)))
    } else {
        None
    }
}

/// Whether a price amount lies strictly between zero and the rent ceiling.
pub open spec fn price_in_range(micros: u64) -> bool {
    0 < micros && micros < PRICE_CEILING_MICROS
}

/// Accepts exactly the amounts strictly between zero and one hundred thousand units.
pub fn validate_price(amount: Amount) -> (r: bool)
    ensures
        r == price_in_range(amount.micros),
{
    amount.micros > 0 && amount.micros < PRICE_CEILING_MICROS
}


/// ASCII white space, as `char::is_ascii_whitespace` counts it.
pub open spec fn is_ascii_space(c: char) -> bool {
    c == ' ' || c == '\t' || c == '\n' || c == '\r' || c == '\x0c'
}

pub open spec fn strip_ascii_leading(s: Seq<char>) -> Seq<char>
    decreases s.len(),
{
    if s.len() > 0 && is_ascii_space(s[0]) {
        strip_ascii_leading(s.drop_first())
    } else {
        s
    }
}

pub open spec fn strip_ascii_trailing(s: Seq<char>) -> Seq<char>
    decreases s.len(),
{
    if s.len() > 0 && is_ascii_space(s.last()) {
        strip_ascii_trailing(s.drop_last())
    } else {
        s
    }
}

/// Whether `t` reads "POA" (price on application), in any mix of cases.
pub open spec fn is_poa(t: Seq<char>) -> bool {
    &&& t.len() == 3
    &&& (t[0] == 'p' || t[0] == 'P')
    &&& (t[1] == 'o' || t[1] == 'O')
    &&& (t[2] == 'a' || t[2] == 'A')
}

/// A price text that is blank, or is the "price on application" sentinel,
/// once surrounding ASCII white space is set aside.
pub open spec fn is_blank_or_sentinel(s: Seq<char>) -> bool {
    let t = strip_ascii_trailing(strip_ascii_leading(s));
    t.len() == 0 || is_poa(t)
}

pub open spec fn has_no_price_char(s: Seq<char>) -> bool {
    forall|k: int| 0 <= k < s.len() ==> !is_price_char(#[trigger] s[k])
}

proof fn lemma_strip_leading_no_price(s: Seq<char>)
    requires
        has_no_price_char(strip_ascii_leading(s)),
    ensures
        has_no_price_char(s),
    decreases s.len(),
{
    if s.len() > 0 && is_ascii_space(s[0]) {
        let t = s.drop_first();
        lemma_strip_leading_no_price(t);
        assert forall|k: int| 0 <= k < s.len() implies !is_price_char(#[trigger] s[k]) by {
            if k > 0 {
                assert(s[k] == t[k - 1]);
            }
        }
    }
}

proof fn lemma_strip_trailing_no_price(s: Seq<char>)
    requires
        has_no_price_char(strip_ascii_trailing(s)),
    ensures
        has_no_price_char(s),
    decreases s.len(),
{
    if s.len() > 0 && is_ascii_space(s.last()) {
        let t = s.drop_last();
        lemma_strip_trailing_no_price(t);
        assert forall|k: int| 0 <= k < s.len() implies !is_price_char(#[trigger] s[k]) by {
            if k < s.len() - 1 {
                assert(s[k] == t[k]);
            }
        }
    }
}

proof fn lemma_no_price_chars_empty(s: Seq<char>)
    requires
        has_no_price_char(s),
    ensures
        price_chars(s).len() == 0,
    decreases s.len(),
{
    if s.len() > 0 {
        let t = s.drop_last();
        assert(has_no_price_char(t)) by {
            assert forall|k: int| 0 <= k < t.len() implies !is_price_char(#[trigger] t[k]) by {
                assert(t[k] == s[k]);
            }
        }
        lemma_no_price_chars_empty(t);
        assert(!is_price_char(s[s.len() - 1]));
    }
}

/// Blank and sentinel texts carry no digits, so they give no amount.
proof fn lemma_sentinel_has_no_amount(s: Seq<char>)
    requires
        is_blank_or_sentinel(s),
    ensures
        price_text_micros(s) is None,
{
    let t = strip_ascii_trailing(strip_ascii_leading(s));
    assert(has_no_price_char(t));
    lemma_strip_trailing_no_price(strip_ascii_leading(s));
    lemma_strip_leading_no_price(s);
    let seg = value_segment(s);
    lemma_first_index_bound(s, '/');
    assert forall|k: int| 0 <= k < seg.len() implies !is_price_char(#[trigger] seg[k]) by {
        assert(seg[k] == s[k]);
    }
    lemma_no_price_chars_empty(seg);
}

proof fn lemma_first_index_bound(s: Seq<char>, ch: char)
    ensures
        first_index_of(s, ch) <= s.len(),
        forall|k: int| 0 <= k < first_index_of(s, ch) ==> s[k] != ch,
        first_index_of(s, ch) < s.len() ==> s[first_index_of(s, ch) as int] == ch,
    decreases s.len(),
{
    if s.len() > 0 && s[0] != ch {
        let t = s.drop_first();
        lemma_first_index_bound(t, ch);
        assert forall|k: int| 0 <= k < first_index_of(s, ch) implies s[k] != ch by {
            if k > 0 {
                assert(s[k] == t[k - 1]);
            }
        }
    }
}

proof fn lemma_first_index_is(s: Seq<char>, ch: char, i: int)
    requires
        0 <= i <= s.len(),
        forall|k: int| 0 <= k < i ==> s[k] != ch,
        i < s.len() ==> s[i] == ch,
    ensures
        first_index_of(s, ch) == i,
    decreases i,
{
    if i > 0 {
        let t = s.drop_first();
        assert forall|k: int| 0 <= k < i - 1 implies t[k] != ch by {
            assert(t[k] == s[k + 1]);
        }
        lemma_first_index_is(t, ch, i - 1);
    }
}

/// Position of the first `ch` in `s`, or the length of `s`.
fn find_char(s: &str, n: usize, ch: char) -> (r: usize)
    requires
        n == s@.len(),
    ensures
        r == first_index_of(s@, ch),
        r <= n,
        forall|k: int| 0 <= k < r ==> s@[k] != ch,
        r < n ==> s@[r as int] == ch,
{
    let mut i: usize = 0;
    while i < n && s.get_char(i) != ch
        invariant
            n == s@.len(),
            i <= n,
            forall|k: int| 0 <= k < i ==> s@[k] != ch,
        decreases n - i,
    {
        i = i + 1;
    }
    proof {
        lemma_first_index_is(s@, ch, i as int);
    }
    i
}

proof fn lemma_point_count_split(a: Seq<char>, b: Seq<char>)
    ensures
        point_count(a + b) == point_count(a) + point_count(b),
    decreases b.len(),
{
    if b.len() == 0 {
        assert(a + b =~= a);
    } else {
        lemma_point_count_split(a, b.drop_last());
        assert((a + b).drop_last() =~= a + b.drop_last());
    }
}

proof fn lemma_point_count_zero(s: Seq<char>)
    requires
        point_count(s) == 0,
    ensures
        forall|k: int| 0 <= k < s.len() ==> s[k] != '.',
    decreases s.len(),
{
    if s.len() > 0 {
        let t = s.drop_last();
        lemma_point_count_zero(t);
        assert forall|k: int| 0 <= k < s.len() implies s[k] != '.' by {
            if k < s.len() - 1 {
                assert(s[k] == t[k]);
            }
        }
    }
}

proof fn lemma_point_count_none(s: Seq<char>)
    requires
        forall|k: int| 0 <= k < s.len() ==> s[k] != '.',
    ensures
        point_count(s) == 0,
    decreases s.len(),
{
    if s.len() > 0 {
        let t = s.drop_last();
        assert forall|k: int| 0 <= k < t.len() implies t[k] != '.' by {
            assert(t[k] == s[k]);
        }
        lemma_point_count_none(t);
    }
}

proof fn lemma_saturate_step(x: nat, d: nat)
    requires
        d < 10,
    ensures
        saturate((saturate(x) as nat) * 10 + d) == saturate(x * 10 + d),
{
    if x > u64::MAX {
        assert(x * 10 + d > u64::MAX) by (nonlinear_arith)
            requires
                x > u64::MAX,
        ;
        assert((u64::MAX as nat) * 10 + d > u64::MAX);
    }
}

proof fn lemma_digits_push(g: Seq<char>, ch: char)
    ensures
        digits_value(g.push(ch)) == digits_value(g) * 10 + ((ch as int - 48) as nat),
{
    assert(g.push(ch).drop_last() =~= g);
}

/// Appends one digit to a saturated running value.
pub(crate) fn push_digit(acc: u64, ch: char, Ghost(g): Ghost<Seq<char>>) -> (r: u64)
    requires
        is_ascii_digit(ch),
        acc == saturate(digits_value(g)),
    ensures
        r == saturate(digits_value(g.push(ch))),
{
    let d: u64 = (ch as u32 - 48) as u64;
    proof {
        lemma_digits_push(g, ch);
        lemma_saturate_step(digits_value(g), d as nat);
    }
    if acc > (u64::MAX - d) / 10 {
        u64::MAX
    } else {
        acc * 10 + d
    }
}

/// The amount that a decimal numeral over digits and points gives, in
/// millionths, or `None` where it is not a well-formed numeral.
fn decimal_amount(c: &str) -> (r: Option<u64>)
    requires
        forall|k: int| 0 <= k < c@.len() ==> is_price_char(#[trigger] c@[k]),
    ensures
        r == (if is_decimal(c@) {
            Some(saturate(decimal_micros(c@)))
        } else {
            None::<u64>
        }),
{
    let n = c.unicode_len();
    let mut points: usize = 0;
    let mut i: usize = 0;
    while i < n
        invariant
            n == c@.len(),
            i <= n,
            points <= i,
            points == point_count(c@.take(i as int)),
        decreases n - i,
    {
        proof {
            assert(c@.take(i + 1).drop_last() =~= c@.take(i as int));
        }
        if c.get_char(i) == '.' {
            points = points + 1;
        }
        i = i + 1;
    }
    assert(c@.take(n as int) =~= c@);
    if points > 1 || points >= n {
        return None;
    }
    let p = find_char(c, n, '.');
    proof {
        lemma_first_index_bound(c@, '.');
    }
    let mut acc: u64 = 0;
    let ghost mut g: Seq<char> = seq![];
    let mut i: usize = 0;
    while i < p
        invariant
            n == c@.len(),
            p <= n,
            i <= p,
            forall|k: int| 0 <= k < p ==> c@[k] != '.',
            forall|k: int| 0 <= k < c@.len() ==> is_price_char(#[trigger] c@[k]),
            g == c@.take(i as int),
            acc == saturate(digits_value(g)),
        decreases p - i,
    {
        let ch = c.get_char(i);
        assert(is_price_char(c@[i as int]));
        acc = push_digit(acc, ch, Ghost(g));
        proof {
            g = g.push(ch);
            assert(g =~= c@.take(i + 1));
        }
        i = i + 1;
    }
    let mut kept: usize = 0;
    if p < n {
        proof {
            let tail = c@.skip(p + 1);
            assert(c@ =~= c@.take(p as int) + seq!['.'] + tail);
            lemma_point_count_none(c@.take(p as int));
            lemma_point_count_split(c@.take(p as int) + seq!['.'], tail);
            lemma_point_count_split(c@.take(p as int), seq!['.']);
            assert(seq!['.'].drop_last() =~= Seq::<char>::empty());
            lemma_point_count_zero(tail);
            assert forall|k: int| p < k < n implies #[trigger] c@[k] != '.' by {
                assert(c@[k] == tail[k - p - 1]);
            }
        }
        let mut j: usize = p + 1;
        while j < n && kept < FRACTION_DIGITS
            invariant
                n == c@.len(),
                p < n,
                p + 1 <= j <= n,
                kept == j - (p + 1),
                kept <= FRACTION_DIGITS,
                forall|k: int| p < k < n ==> #[trigger] c@[k] != '.',
                forall|k: int| 0 <= k < c@.len() ==> is_price_char(#[trigger] c@[k]),
                g == c@.take(p as int) + c@.subrange(p + 1, j as int),
                acc == saturate(digits_value(g)),
            decreases n - j,
        {
            let ch = c.get_char(j);
            assert(is_price_char(c@[j as int]));
            acc = push_digit(acc, ch, Ghost(g));
            proof {
                g = g.push(ch);
                assert(g =~= c@.take(p as int) + c@.subrange(p + 1, j + 1));
            }
            j = j + 1;
            kept = kept + 1;
        }
        proof {
            assert(fraction_digits(c@) == c@.skip(p + 1));
            assert(kept == kept_fraction_len(c@));
            assert(c@.subrange(p + 1, j as int) =~= fraction_digits(c@).take(kept as int));
        }
    } else {
        proof {
            assert(fraction_digits(c@).take(0) =~= Seq::<char>::empty());
            assert(g =~= c@.take(p as int) + fraction_digits(c@).take(0));
        }
    }
    assert(g == whole_digits(c@) + fraction_digits(c@).take(kept_fraction_len(c@) as int));
    let ghost v = digits_value(g);
    proof {
        assert(pow10(0) == 1);
        assert(v * pow10(0) == v * 1);
        assert(v * 1 == v);
    }
    let mut scale: usize = 0;
    while scale < FRACTION_DIGITS - kept
        invariant
            kept <= FRACTION_DIGITS,
            scale <= FRACTION_DIGITS - kept,
            acc == saturate(v * pow10(scale as nat)),
        decreases FRACTION_DIGITS - kept - scale,
    {
        proof {
            lemma_saturate_step(v * pow10(scale as nat), 0);
            assert(v * pow10(scale as nat) * 10 == v * pow10((scale + 1) as nat)) by (nonlinear_arith)
                requires
                    pow10((scale + 1) as nat) == 10 * pow10(scale as nat),
            ;
        }
        if acc > u64::MAX / 10 {
            acc = u64::MAX;
        } else {
            acc = acc * 10;
        }
        scale = scale + 1;
    }
    Some(acc)
}

/// Reads an amount out of a free-form price text: the part before the first
/// `/` is kept, its digits and decimal points are read as a decimal numeral,
/// and the amount must be positive; a minus sign before the first digit makes
/// the text a negative price, which gives none. Blank texts and "POA" give none.
pub fn parse_price_string(price_str: &str) -> (r: Option<Amount>)
    ensures
        r == (match price_text_micros(price_str@) {
            Some(m) => Some(Amount { micros: m }),
            None => None,
        }),
        is_blank_or_sentinel(price_str@) ==> r is None,
{
    proof {
        if is_blank_or_sentinel(price_str@) {
            lemma_sentinel_has_no_amount(price_str@);
        }
    }
    let n = price_str.unicode_len();
    let end = find_char(price_str, n, '/');
    let ghost seg = value_segment(price_str@);
    let mut lead: usize = 0;
    let mut negative = false;
    while lead < end && !crate::text::char_is_ascii_digit(price_str.get_char(lead))
        invariant
            n == price_str@.len(),
            end <= n,
            lead <= end,
            seg == price_str@.take(end as int),
            forall|j: int| 0 <= j < lead ==> !is_ascii_digit(#[trigger] price_str@[j]),
            negative == exists|k: int| 0 <= k < lead && #[trigger] price_str@[k] == '-',
        decreases end - lead,
    {
        if price_str.get_char(lead) == '-' {
            negative = true;
        }
        lead = lead + 1;
    }
    proof {
        if negative {
            let k = choose|k: int| 0 <= k < lead && #[trigger] price_str@[k] == '-';
            assert(seg[k] == '-');
            assert forall|j: int| 0 <= j < k implies !is_ascii_digit(#[trigger] seg[j]) by {
                assert(seg[j] == price_str@[j]);
            }
            assert(minus_before_digits(seg));
        } else {
            assert(!minus_before_digits(seg)) by {
                if minus_before_digits(seg) {
                    let k = choose|k: int|
                        0 <= k < seg.len() && #[trigger] seg[k] == '-' && forall|j: int|
                            0 <= j < k ==> !is_ascii_digit(#[trigger] seg[j]);
                    assert(price_str@[k] == '-');
                    if k >= lead {
                        assert(is_ascii_digit(price_str@[lead as int]));
                        assert(seg[lead as int] == price_str@[lead as int]);
                    }
                }
            }
        }
    }
    if negative {
        return None;
    }
    let mut cleaned = String::new();
    let mut i: usize = 0;
    while i < end
        invariant
            n == price_str@.len(),
            end <= n,
            i <= end,
            cleaned@ == price_chars(price_str@.take(i as int)),
            forall|k: int| 0 <= k < cleaned@.len() ==> is_price_char(#[trigger] cleaned@[k]),
        decreases end - i,
    {
        let ch = price_str.get_char(i);
        proof {
            assert(price_str@.take(i + 1).drop_last() =~= price_str@.take(i as int));
        }
        if crate::text::char_is_ascii_digit(ch) || ch == '.' {
            cleaned.push(ch);
        }
        i = i + 1;
    }
    assert(cleaned@ == price_chars(value_segment(price_str@)));
    match decimal_amount(cleaned.as_str()) {
        Some(micros) => {
            if micros > 0 {
                Some(Amount { micros })
            } else {
                None
            }
        },
        None => None,
    }
}

} // verus!
