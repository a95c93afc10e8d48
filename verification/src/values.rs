//! The typed value model: `ValueHolder`, the per-request `ValuesPayload`, and
//! the value equality / ordering relations used by relational conditions and
//! dictionary-keyed lookups.
//!
//! Equality and ordering are total within each variant. Across variants the
//! only defined comparison is the numeric one between `Integer` and `Decimal`;
//! every other cross-variant relational comparison is an error, not a
//! coercion. Decimals are exact rationals (numerator and denominator held as
//! 64-bit integers, denominator positive); there is no floating point and no
//! epsilon anywhere in the comparisons.

use vstd::prelude::*;
use vstd::string::StrSliceExecFns;

verus! {

/// Day of the week, ordered `Mon < Tue < ... < Sun`.
#[derive(Clone, Copy, PartialEq, Eq, Structural, Debug)]
pub enum Weekday {
    Mon,
    Tue,
    Wed,
    Thu,
    Fri,
    Sat,
    Sun,
}

impl Weekday {
    /// Position of the day in the ISO week, `Mon = 0` through `Sun = 6`.
    pub open spec fn ord_spec(self) -> int {
        match self {
            Weekday::Mon => 0,
            Weekday::Tue => 1,
            Weekday::Wed => 2,
            Weekday::Thu => 3,
            Weekday::Fri => 4,
            Weekday::Sat => 5,
            Weekday::Sun => 6,
        }
    }

    pub fn ord(&self) -> (n: u8)
        ensures
            n as int == self.ord_spec(),
    {
        match self {
            Weekday::Mon => 0,
            Weekday::Tue => 1,
            Weekday::Wed => 2,
            Weekday::Thu => 3,
            Weekday::Fri => 4,
            Weekday::Sat => 5,
            Weekday::Sun => 6,
        }
    }
}

/// Carrier for a weekday value inside `ValueHolder`.
#[derive(Clone, Copy, PartialEq, Eq, Structural, Debug)]
pub struct WeekdayWrapper {
    pub value: Weekday,
}

impl WeekdayWrapper {
    pub fn new(value: Weekday) -> (r: WeekdayWrapper)
        ensures
            r == (WeekdayWrapper { value }),
    {
        WeekdayWrapper { value }
    }

    pub fn get(&self) -> (r: &Weekday)
        ensures
            *r == self.value,
    {
        &self.value
    }
}

/// An exact rational number: `num / den` with `den > 0`.
///
/// Values are compared by cross-multiplication, so `1/2` and `2/4` are equal;
/// no normalization is required. The denominator is kept positive by the
/// constructor, which is what makes the cross-multiplied order correct.
#[derive(Clone, Copy, PartialEq, Eq, Debug)]
pub struct Rational {
    num: i64,
    den: i64,
}

impl Rational {
    pub closed spec fn num_spec(self) -> int {
        self.num as int
    }

    pub closed spec fn den_spec(self) -> int {
        self.den as int
    }

    /// The constructor only produces rationals with a positive denominator.
    pub open spec fn wf(self) -> bool {
        self.den_spec() > 0
    }

    /// Builds `num / den`. Fails on a zero denominator, and on the two
    /// sign-normalization cases that `i64` cannot represent.
    pub fn from_parts(num: i64, den: i64) -> (r: Option<Rational>)
        ensures
            den > 0 ==> {
                &&& r is Some
                &&& r->Some_0.num_spec() == num as int
                &&& r->Some_0.den_spec() == den as int
            },
            (den < 0 && num > i64::MIN && den > i64::MIN) ==> {
                &&& r is Some
                &&& r->Some_0.num_spec() == -(num as int)
                &&& r->Some_0.den_spec() == -(den as int)
            },
            (den == 0 || (den < 0 && (num == i64::MIN || den == i64::MIN))) ==> r is None,
            r is Some ==> r->Some_0.wf(),
    {
        if den > 0 {
            Some(Rational { num, den })
        } else if den == 0 || num == i64::MIN || den == i64::MIN {
            None
        } else {
            Some(Rational { num: -num, den: -den })
        }
    }

    /// The rational `i / 1`.
    pub fn from_int(i: i64) -> (r: Rational)
        ensures
            r.num_spec() == i as int,
            r.den_spec() == 1,
            r.wf(),
    {
        Rational { num: i, den: 1 }
    }

    /// Value equality by cross-multiplication.
    pub open spec fn eq_spec(self, other: Rational) -> bool {
        self.num_spec() * other.den_spec() == other.num_spec() * self.den_spec()
    }

    /// Strict order by cross-multiplication (meaningful when both are `wf`).
    pub open spec fn lt_spec(self, other: Rational) -> bool {
        self.num_spec() * other.den_spec() < other.num_spec() * self.den_spec()
    }

    pub fn eq_value(&self, other: &Rational) -> (r: bool)
        ensures
            r == self.eq_spec(*other),
    {
        proof {
            lemma_i64_mul_fits_i128(self.num as int, other.den as int);
            lemma_i64_mul_fits_i128(other.num as int, self.den as int);
        }
        (self.num as i128) * (other.den as i128) == (other.num as i128) * (self.den as i128)
    }

    pub fn lt_value(&self, other: &Rational) -> (r: bool)
        ensures
            r == self.lt_spec(*other),
    {
        proof {
            lemma_i64_mul_fits_i128(self.num as int, other.den as int);
            lemma_i64_mul_fits_i128(other.num as int, self.den as int);
        }
        (self.num as i128) * (other.den as i128) < (other.num as i128) * (self.den as i128)
    }
}

/// The product of two `i64` values always fits in an `i128`.
proof fn lemma_i64_mul_fits_i128(x: int, y: int)
    requires
        i64::MIN <= x <= i64::MAX,
        i64::MIN <= y <= i64::MAX,
    ensures
        i128::MIN <= x * y <= i128::MAX,
{
    assert(i128::MIN <= x * y <= i128::MAX) by (nonlinear_arith)
        requires
            -0x8000_0000_0000_0000 <= x <= 0x7fff_ffff_ffff_ffff,
            -0x8000_0000_0000_0000 <= y <= 0x7fff_ffff_ffff_ffff,
    ;
}

/// A calendar date, compared lexicographically by `(year, month, day)`.
#[derive(Clone, Copy, PartialEq, Eq, Structural, Debug)]
pub struct DateValue {
    pub year: i32,
    pub month: u8,
    pub day: u8,
}

/// A time of day, compared lexicographically by `(hour, minute, second, nano)`.
#[derive(Clone, Copy, PartialEq, Eq, Structural, Debug)]
pub struct TimeValue {
    pub hour: u8,
    pub minute: u8,
    pub second: u8,
    pub nano: u32,
}

/// A date with a time of day, compared by date first, then time.
#[derive(Clone, Copy, PartialEq, Eq, Structural, Debug)]
pub struct DateTimeValue {
    pub date: DateValue,
    pub time: TimeValue,
}

/// A zoned instant: seconds and nanoseconds since the epoch, plus the
/// offset it was written in. Equality and order go by the instant alone.
#[derive(Clone, Copy, PartialEq, Eq, Structural, Debug)]
pub struct ZonedDateTimeValue {
    pub epoch_second: i64,
    pub nano: u32,
    pub offset_seconds: i32,
}

impl DateValue {
    pub open spec fn lt_spec(self, o: DateValue) -> bool {
        ||| self.year < o.year
        ||| (self.year == o.year && self.month < o.month)
        ||| (self.year == o.year && self.month == o.month && self.day < o.day)
    }
}

impl TimeValue {
    pub open spec fn lt_spec(self, o: TimeValue) -> bool {
        ||| self.hour < o.hour
        ||| (self.hour == o.hour && self.minute < o.minute)
        ||| (self.hour == o.hour && self.minute == o.minute && self.second < o.second)
        ||| (self.hour == o.hour && self.minute == o.minute && self.second == o.second
            && self.nano < o.nano)
    }
}

impl DateTimeValue {
    pub open spec fn lt_spec(self, o: DateTimeValue) -> bool {
        ||| self.date.lt_spec(o.date)
        ||| (self.date == o.date && self.time.lt_spec(o.time))
    }
}

impl ZonedDateTimeValue {
    pub open spec fn lt_spec(self, o: ZonedDateTimeValue) -> bool {
        ||| self.epoch_second < o.epoch_second
        ||| (self.epoch_second == o.epoch_second && self.nano < o.nano)
    }

    pub open spec fn eq_spec(self, o: ZonedDateTimeValue) -> bool {
        self.epoch_second == o.epoch_second && self.nano == o.nano
    }
}

/// A polymorphic runtime value.
#[derive(Debug)]
pub enum ValueHolder {
    Boolean(bool),
    Integer(i64),
    Decimal(Rational),
    String(String),
    DayOfWeek(WeekdayWrapper),
    LocalDate(DateValue),
    LocalTime(TimeValue),
    LocalDateTime(DateTimeValue),
    ZonedDateTime(ZonedDateTimeValue),
    List(Vec<ValueHolder>),
}

/// Structural size of a value, used as the termination measure for the
/// recursive walks over `List` values.
pub open spec fn value_size(v: ValueHolder) -> nat
    decreases v,
{
    match v {
        ValueHolder::List(items) => 1 + value_seq_size(items@),
        _ => 1,
    }
}

pub open spec fn value_seq_size(s: Seq<ValueHolder>) -> nat
    decreases s,
{
    if s.len() == 0 {
        0
    } else {
        value_size(s[0]) + value_seq_size(s.subrange(1, s.len() as int))
    }
}

pub proof fn lemma_value_seq_size_bound(s: Seq<ValueHolder>, i: int)
    requires
        0 <= i < s.len(),
    ensures
        value_size(s[i]) <= value_seq_size(s),
    decreases s.len(),
{
    if i > 0 {
        lemma_value_seq_size_bound(s.subrange(1, s.len() as int), i - 1);
        assert(s.subrange(1, s.len() as int)[i - 1] == s[i]);
    }
}

/// Total value equality: true only when the variants agree and the carried
/// values are equal, with decimals compared by value (`1/2 == 2/4`) and lists
/// compared element by element. Distinct variants are simply unequal here;
/// this is the relation dictionary keys are matched by.
pub open spec fn value_eq(a: ValueHolder, b: ValueHolder) -> bool
    decreases a,
{
    match (a, b) {
        (ValueHolder::Boolean(x), ValueHolder::Boolean(y)) => x == y,
        (ValueHolder::Integer(x), ValueHolder::Integer(y)) => x == y,
        (ValueHolder::Decimal(x), ValueHolder::Decimal(y)) => x.eq_spec(y),
        (ValueHolder::String(x), ValueHolder::String(y)) => x@ == y@,
        (ValueHolder::DayOfWeek(x), ValueHolder::DayOfWeek(y)) => x == y,
        (ValueHolder::LocalDate(x), ValueHolder::LocalDate(y)) => x == y,
        (ValueHolder::LocalTime(x), ValueHolder::LocalTime(y)) => x == y,
        (ValueHolder::LocalDateTime(x), ValueHolder::LocalDateTime(y)) => x == y,
        (ValueHolder::ZonedDateTime(x), ValueHolder::ZonedDateTime(y)) => x.eq_spec(y),
        (ValueHolder::List(x), ValueHolder::List(y)) => {
            &&& x@.len() == y@.len()
            &&& forall|i: int| 0 <= i < x@.len() ==> value_eq(#[trigger] x@[i], y@[i])
        },
        _ => false,
    }
}

/// Executable form of [`value_eq`].
pub fn value_eq_exec(a: &ValueHolder, b: &ValueHolder) -> (r: bool)
    ensures
        r == value_eq(*a, *b),
    decreases value_size(*a),
{
    match a {
        ValueHolder::Boolean(x) => match b {
            ValueHolder::Boolean(y) => *x == *y,
            _ => false,
        },
        ValueHolder::Integer(x) => match b {
            ValueHolder::Integer(y) => *x == *y,
            _ => false,
        },
        ValueHolder::Decimal(x) => match b {
            ValueHolder::Decimal(y) => x.eq_value(y),
            _ => false,
        },
        ValueHolder::String(x) => match b {
            ValueHolder::String(y) => *x == *y,
            _ => false,
        },
        ValueHolder::DayOfWeek(x) => match b {
            ValueHolder::DayOfWeek(y) => *x == *y,
            _ => false,
        },
        ValueHolder::LocalDate(x) => match b {
            ValueHolder::LocalDate(y) => *x == *y,
            _ => false,
        },
        ValueHolder::LocalTime(x) => match b {
            ValueHolder::LocalTime(y) => *x == *y,
            _ => false,
        },
        ValueHolder::LocalDateTime(x) => match b {
            ValueHolder::LocalDateTime(y) => *x == *y,
            _ => false,
        },
        ValueHolder::ZonedDateTime(x) => match b {
            ValueHolder::ZonedDateTime(y) => {
                x.epoch_second == y.epoch_second && x.nano == y.nano
            },
            _ => false,
        },
        ValueHolder::List(x) => match b {
            ValueHolder::List(y) => {
                if x.len() != y.len() {
                    return false;
                }
                let mut i: usize = 0;
                while i < x.len()
                    invariant
                        0 <= i <= x@.len(),
                        x@.len() == y@.len(),
                        *a == ValueHolder::List(*x),
                        *b == ValueHolder::List(*y),
                        forall|k: int| 0 <= k < i ==> value_eq(#[trigger] x@[k], y@[k]),
                    decreases x@.len() - i,
                {
                    proof {
                        lemma_value_seq_size_bound(x@, i as int);
                    }
                    if !value_eq_exec(&x[i], &y[i]) {
                        return false;
                    }
                    i += 1;
                }
                true
            },
            _ => false,
        },
    }
}

/// A payload of named values handed in with each request. Later entries for
/// the same name overwrite earlier ones; lookups see the latest binding.
#[derive(Debug)]
pub struct ValuesPayload {
    entries: Vec<(String, ValueHolder)>,
}

/// The binding of `key` in `entries`: the value of the latest entry whose
/// name equals `key`, if any.
pub open spec fn payload_lookup(entries: Seq<(String, ValueHolder)>, key: Seq<char>) -> Option<
    ValueHolder,
>
    decreases entries.len(),
{
    if entries.len() == 0 {
        None
    } else if entries.last().0@ == key {
        Some(entries.last().1)
    } else {
        payload_lookup(entries.drop_last(), key)
    }
}

impl ValuesPayload {
    pub closed spec fn entries_spec(self) -> Seq<(String, ValueHolder)> {
        self.entries@
    }

    /// What `get` returns for a given name.
    pub open spec fn lookup(self, key: Seq<char>) -> Option<ValueHolder> {
        payload_lookup(self.entries_spec(), key)
    }

    pub fn new(values: Vec<(String, ValueHolder)>) -> (r: ValuesPayload)
        ensures
            r.entries_spec() == values@,
    {
        ValuesPayload { entries: values }
    }

    /// Looks the name up, returning the latest binding for it.
    pub fn get(&self, name: &String) -> (r: Option<&ValueHolder>)
        ensures
            match r {
                Some(v) => self.lookup(name@) == Some(*v),
                None => self.lookup(name@) is None,
            },
    {
        let mut i: usize = self.entries.len();
        proof {
            assert(self.entries@.subrange(0, self.entries@.len() as int) =~= self.entries@);
        }
        while i > 0
            invariant
                0 <= i <= self.entries@.len(),
                payload_lookup(self.entries@, name@) == payload_lookup(
                    self.entries@.subrange(0, i as int),
                    name@,
                ),
            decreases i,
        {
            i -= 1;
            if self.entries[i].0 == *name {
                proof {
                    assert(self.entries@.subrange(0, i + 1).last() == self.entries@[i as int]);
                }
                return Some(&self.entries[i].1);
            }
            proof {
                assert(self.entries@.subrange(0, i + 1).last() == self.entries@[i as int]);
                assert(self.entries@.subrange(0, i + 1).drop_last() =~= self.entries@.subrange(
                    0,
                    i as int,
                ));
                assert(payload_lookup(self.entries@.subrange(0, i + 1), name@)
                    == payload_lookup(self.entries@.subrange(0, i as int), name@));
            }
        }
        proof {
            assert(self.entries@.subrange(0, 0).len() == 0);
        }
        None
    }
}

} // verus!

verus! {

/// Lexicographic "less than" on character sequences, decided from index `i`
/// on: a proper prefix is smaller, otherwise the first differing character
/// decides by its code point.
pub open spec fn str_lt_from(a: Seq<char>, b: Seq<char>, i: int) -> bool
    decreases a.len() - i,
{
    if i >= a.len() {
        i < b.len()
    } else if i >= b.len() {
        false
    } else if a[i] != b[i] {
        (a[i] as int) < (b[i] as int)
    } else {
        str_lt_from(a, b, i + 1)
    }
}

/// Lexicographic strict order on character sequences.
pub open spec fn str_lt(a: Seq<char>, b: Seq<char>) -> bool {
    str_lt_from(a, b, 0)
}

/// `b` occurs in `a` starting at position `i`.
pub open spec fn match_at(a: Seq<char>, b: Seq<char>, i: int) -> bool {
    0 <= i && i + b.len() <= a.len() && a.subrange(i, i + b.len() as int) == b
}

/// `b` is a substring of `a`.
pub open spec fn str_contains(a: Seq<char>, b: Seq<char>) -> bool {
    exists|i: int| match_at(a, b, i)
}

/// `b` is a prefix of `a`.
pub open spec fn str_starts_with(a: Seq<char>, b: Seq<char>) -> bool {
    match_at(a, b, 0)
}

/// `b` is a suffix of `a`.
pub open spec fn str_ends_with(a: Seq<char>, b: Seq<char>) -> bool {
    b.len() <= a.len() && match_at(a, b, a.len() - b.len())
}

fn str_lt_rec(a: &str, b: &str, i: usize, alen: usize, blen: usize) -> (r: bool)
    requires
        alen == a@.len(),
        blen == b@.len(),
        i <= alen,
    ensures
        r == str_lt_from(a@, b@, i as int),
    decreases alen - i,
{
    if i == alen {
        i < blen
    } else if i >= blen {
        false
    } else {
        let ca = a.get_char(i);
        let cb = b.get_char(i);
        if ca != cb {
            (ca as u32) < (cb as u32)
        } else {
            str_lt_rec(a, b, i + 1, alen, blen)
        }
    }
}

/// Executable lexicographic order on strings.
pub fn string_lt(a: &String, b: &String) -> (r: bool)
    ensures
        r == str_lt(a@, b@),
{
    let sa = a.as_str();
    let sb = b.as_str();
    str_lt_rec(sa, sb, 0, sa.unicode_len(), sb.unicode_len())
}

fn matches_at(a: &str, b: &str, i: usize, alen: usize, blen: usize) -> (r: bool)
    requires
        alen == a@.len(),
        blen == b@.len(),
        i + blen <= alen,
    ensures
        r == match_at(a@, b@, i as int),
{
    let mut k: usize = 0;
    while k < blen
        invariant
            0 <= k <= blen,
            alen == a@.len(),
            blen == b@.len(),
            i + blen <= alen,
            forall|j: int| 0 <= j < k ==> a@[i + j] == b@[j],
        decreases blen - k,
    {
        if a.get_char(i + k) != b.get_char(k) {
            proof {
                assert(a@.subrange(i as int, i + b@.len()) != b@) by {
                    assert(a@.subrange(i as int, i + b@.len())[k as int] == a@[i + k]);
                }
            }
            return false;
        }
        k += 1;
    }
    proof {
        assert(a@.subrange(i as int, i + b@.len()) =~= b@);
    }
    true
}

/// Executable substring test.
pub fn string_contains(a: &String, b: &String) -> (r: bool)
    ensures
        r == str_contains(a@, b@),
{
    let sa = a.as_str();
    let sb = b.as_str();
    let alen = sa.unicode_len();
    let blen = sb.unicode_len();
    if blen > alen {
        return false;
    }
    let mut i: usize = 0;
    loop
        invariant
            blen <= alen,
            alen == sa@.len(),
            blen == sb@.len(),
            sa@ == a@,
            sb@ == b@,
            0 <= i <= alen - blen,
            forall|j: int| 0 <= j < i ==> !match_at(a@, b@, j),
        decreases alen - blen - i,
    {
        if matches_at(sa, sb, i, alen, blen) {
            return true;
        }
        if i == alen - blen {
            return false;
        }
        i += 1;
    }
}

/// Executable prefix test.
pub fn string_starts_with(a: &String, b: &String) -> (r: bool)
    ensures
        r == str_starts_with(a@, b@),
{
    let sa = a.as_str();
    let sb = b.as_str();
    let alen = sa.unicode_len();
    let blen = sb.unicode_len();
    if blen > alen {
        return false;
    }
    matches_at(sa, sb, 0, alen, blen)
}

/// Executable suffix test.
pub fn string_ends_with(a: &String, b: &String) -> (r: bool)
    ensures
        r == str_ends_with(a@, b@),
{
    let sa = a.as_str();
    let sb = b.as_str();
    let alen = sa.unicode_len();
    let blen = sb.unicode_len();
    if blen > alen {
        return false;
    }
    matches_at(sa, sb, alen - blen, alen, blen)
}

} // verus!
