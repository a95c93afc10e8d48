//! Conditions: a single relational test of one payload value against either a
//! static value or another payload value.

use vstd::prelude::*;
use crate::operators::RelationalOperator;
use crate::values::{
    str_contains, str_ends_with, str_lt, str_starts_with, string_contains, string_ends_with,
    string_lt, string_starts_with, value_eq, value_eq_exec, Rational, ValueHolder, ValuesPayload,
};

verus! {

/// Why a condition could not be evaluated.
#[derive(Clone, PartialEq, Eq, Debug)]
pub enum ConditionEvaluationError {
    /// The payload has no entry under the condition's left value name.
    DidNotFindLeftValue(String),
    /// The payload has no entry under a runtime right value name.
    DidNotFindRightValue(String),
    /// The two operands belong to variants that cannot be compared.
    IncompatibleValueTypes,
    /// The operator is not defined for the operands' variant.
    UnsupportedOperatorForType,
    /// The right operand is not a valid regular expression; carries the
    /// pattern that failed to compile.
    RegexCompileError(String),
}

/// The right-hand side of a condition: either a value fixed in the
/// definition, or the name of a payload value resolved per request.
#[derive(Debug)]
pub enum ConditionValue {
    Static(ValueHolder),
    Runtime(String),
}

/// The pattern compiles or not depending on the pattern alone.
pub uninterp spec fn regex_valid(pattern: Seq<char>) -> bool;

/// Whether the compiled pattern matches the text; a function of pattern and
/// text alone.
pub uninterp spec fn regex_match_of(pattern: Seq<char>, text: Seq<char>) -> bool;

/// Relies on `regex::Regex::new` and `regex::Regex::is_match`: compilation
/// succeeds for exactly the syntactically valid patterns, and whether a
/// compiled pattern matches a text depends on the pattern and the text alone.
#[verifier::external_body]
fn regex_is_match(pattern: &String, text: &String) -> (r: Option<bool>)
    ensures
        r is Some <==> regex_valid(pattern@),
        r is Some ==> r->Some_0 == regex_match_of(pattern@, text@),
{
    match regex::Regex::new(pattern.as_str()) {
        Ok(re) => Some(re.is_match(text.as_str())),
        Err(_) => None,
    }
}

/// Both operands carry a number: an `Integer` or a `Decimal`.
pub open spec fn is_numeric(v: ValueHolder) -> bool {
    v is Integer || v is Decimal
}

/// The operand as an exact fraction `(numerator, denominator)`.
pub open spec fn as_fraction(v: ValueHolder) -> (int, int) {
    match v {
        ValueHolder::Integer(i) => (i as int, 1),
        ValueHolder::Decimal(q) => (q.num_spec(), q.den_spec()),
        _ => (0, 1),
    }
}

/// Numeric equality across `Integer` and `Decimal`, by cross-multiplication.
pub open spec fn numeric_eq(a: ValueHolder, b: ValueHolder) -> bool {
    as_fraction(a).0 * as_fraction(b).1 == as_fraction(b).0 * as_fraction(a).1
}

/// Numeric strict order across `Integer` and `Decimal`.
pub open spec fn numeric_lt(a: ValueHolder, b: ValueHolder) -> bool {
    as_fraction(a).0 * as_fraction(b).1 < as_fraction(b).0 * as_fraction(a).1
}

/// Both operands belong to the same variant.
pub open spec fn same_variant(a: ValueHolder, b: ValueHolder) -> bool {
    match (a, b) {
        (ValueHolder::Boolean(_), ValueHolder::Boolean(_)) => true,
        (ValueHolder::Integer(_), ValueHolder::Integer(_)) => true,
        (ValueHolder::Decimal(_), ValueHolder::Decimal(_)) => true,
        (ValueHolder::String(_), ValueHolder::String(_)) => true,
        (ValueHolder::DayOfWeek(_), ValueHolder::DayOfWeek(_)) => true,
        (ValueHolder::LocalDate(_), ValueHolder::LocalDate(_)) => true,
        (ValueHolder::LocalTime(_), ValueHolder::LocalTime(_)) => true,
        (ValueHolder::LocalDateTime(_), ValueHolder::LocalDateTime(_)) => true,
        (ValueHolder::ZonedDateTime(_), ValueHolder::ZonedDateTime(_)) => true,
        (ValueHolder::List(_), ValueHolder::List(_)) => true,
        _ => false,
    }
}

/// Strict order within one variant (not defined for `List`).
pub open spec fn value_lt(a: ValueHolder, b: ValueHolder) -> bool {
    match (a, b) {
        (ValueHolder::Boolean(x), ValueHolder::Boolean(y)) => !x && y,
        (ValueHolder::String(x), ValueHolder::String(y)) => str_lt(x@, y@),
        (ValueHolder::DayOfWeek(x), ValueHolder::DayOfWeek(y)) => x.value.ord_spec()
            < y.value.ord_spec(),
        (ValueHolder::LocalDate(x), ValueHolder::LocalDate(y)) => x.lt_spec(y),
        (ValueHolder::LocalTime(x), ValueHolder::LocalTime(y)) => x.lt_spec(y),
        (ValueHolder::LocalDateTime(x), ValueHolder::LocalDateTime(y)) => x.lt_spec(y),
        (ValueHolder::ZonedDateTime(x), ValueHolder::ZonedDateTime(y)) => x.lt_spec(y),
        _ => false,
    }
}

/// What `Equals` returns: numeric comparison across the numeric variants,
/// value equality within one variant, and an error across variants.
pub open spec fn eq_compare(l: ValueHolder, r: ValueHolder) -> Result<
    bool,
    ConditionEvaluationError,
> {
    if is_numeric(l) && is_numeric(r) {
        Ok(numeric_eq(l, r))
    } else if same_variant(l, r) {
        Ok(value_eq(l, r))
    } else {
        Err(ConditionEvaluationError::IncompatibleValueTypes)
    }
}

/// What `LessThan` returns; the other orderings are derived from it by
/// swapping and negating, which is sound because each variant's order is
/// total.
pub open spec fn lt_compare(l: ValueHolder, r: ValueHolder) -> Result<
    bool,
    ConditionEvaluationError,
> {
    if is_numeric(l) && is_numeric(r) {
        Ok(numeric_lt(l, r))
    } else if same_variant(l, r) {
        if l is List {
            Err(ConditionEvaluationError::UnsupportedOperatorForType)
        } else {
            Ok(value_lt(l, r))
        }
    } else {
        Err(ConditionEvaluationError::IncompatibleValueTypes)
    }
}

/// What `Contains` returns: substring on strings, membership on lists.
pub open spec fn contains_compare(l: ValueHolder, r: ValueHolder) -> Result<
    bool,
    ConditionEvaluationError,
> {
    match (l, r) {
        (ValueHolder::String(x), ValueHolder::String(y)) => Ok(str_contains(x@, y@)),
        (ValueHolder::List(items), _) => Ok(
            exists|i: int| 0 <= i < items@.len() && value_eq(#[trigger] items@[i], r),
        ),
        _ => Err(ConditionEvaluationError::UnsupportedOperatorForType),
    }
}

/// The result of comparing `l` against `r` with the given operator, for
/// every pair of operands and every operator.
pub open spec fn compare_spec(l: ValueHolder, r: ValueHolder, op: RelationalOperator) -> Result<
    bool,
    ConditionEvaluationError,
> {
    match op {
        RelationalOperator::Equals => eq_compare(l, r),
        RelationalOperator::NotEquals => match eq_compare(l, r) {
            Ok(b) => Ok(!b),
            Err(e) => Err(e),
        },
        RelationalOperator::LessThan => lt_compare(l, r),
        RelationalOperator::GreaterThan => lt_compare(r, l),
        RelationalOperator::LessThanOrEquals => match lt_compare(r, l) {
            Ok(b) => Ok(!b),
            Err(e) => Err(e),
        },
        RelationalOperator::GreaterThanOrEquals => match lt_compare(l, r) {
            Ok(b) => Ok(!b),
            Err(e) => Err(e),
        },
        RelationalOperator::Contains => contains_compare(l, r),
        RelationalOperator::StartsWith => match (l, r) {
            (ValueHolder::String(x), ValueHolder::String(y)) => Ok(str_starts_with(x@, y@)),
            _ => Err(ConditionEvaluationError::UnsupportedOperatorForType),
        },
        RelationalOperator::EndsWith => match (l, r) {
            (ValueHolder::String(x), ValueHolder::String(y)) => Ok(str_ends_with(x@, y@)),
            _ => Err(ConditionEvaluationError::UnsupportedOperatorForType),
        },
        RelationalOperator::MatchesRegex => match (l, r) {
            (ValueHolder::String(x), ValueHolder::String(y)) => {
                if regex_valid(y@) {
                    Ok(regex_match_of(y@, x@))
                } else {
                    Err(ConditionEvaluationError::RegexCompileError(y))
                }
            },
            _ => Err(ConditionEvaluationError::UnsupportedOperatorForType),
        },
    }
}

fn numeric_eq_exec(l: &ValueHolder, r: &ValueHolder) -> (res: bool)
    requires
        is_numeric(*l),
        is_numeric(*r),
    ensures
        res == numeric_eq(*l, *r),
{
    let lq: Rational = match l {
        ValueHolder::Integer(i) => Rational::from_int(*i),
        ValueHolder::Decimal(q) => *q,
        _ => Rational::from_int(0),
    };
    let rq: Rational = match r {
        ValueHolder::Integer(i) => Rational::from_int(*i),
        ValueHolder::Decimal(q) => *q,
        _ => Rational::from_int(0),
    };
    lq.eq_value(&rq)
}

fn numeric_lt_exec(l: &ValueHolder, r: &ValueHolder) -> (res: bool)
    requires
        is_numeric(*l),
        is_numeric(*r),
    ensures
        res == numeric_lt(*l, *r),
{
    let lq: Rational = match l {
        ValueHolder::Integer(i) => Rational::from_int(*i),
        ValueHolder::Decimal(q) => *q,
        _ => Rational::from_int(0),
    };
    let rq: Rational = match r {
        ValueHolder::Integer(i) => Rational::from_int(*i),
        ValueHolder::Decimal(q) => *q,
        _ => Rational::from_int(0),
    };
    lq.lt_value(&rq)
}

fn is_numeric_exec(v: &ValueHolder) -> (res: bool)
    ensures
        res == is_numeric(*v),
{
    match v {
        ValueHolder::Integer(_) => true,
        ValueHolder::Decimal(_) => true,
        _ => false,
    }
}

fn same_variant_exec(a: &ValueHolder, b: &ValueHolder) -> (res: bool)
    ensures
        res == same_variant(*a, *b),
{
    match (a, b) {
        (ValueHolder::Boolean(_), ValueHolder::Boolean(_)) => true,
        (ValueHolder::Integer(_), ValueHolder::Integer(_)) => true,
        (ValueHolder::Decimal(_), ValueHolder::Decimal(_)) => true,
        (ValueHolder::String(_), ValueHolder::String(_)) => true,
        (ValueHolder::DayOfWeek(_), ValueHolder::DayOfWeek(_)) => true,
        (ValueHolder::LocalDate(_), ValueHolder::LocalDate(_)) => true,
        (ValueHolder::LocalTime(_), ValueHolder::LocalTime(_)) => true,
        (ValueHolder::LocalDateTime(_), ValueHolder::LocalDateTime(_)) => true,
        (ValueHolder::ZonedDateTime(_), ValueHolder::ZonedDateTime(_)) => true,
        (ValueHolder::List(_), ValueHolder::List(_)) => true,
        _ => false,
    }
}

fn value_lt_exec(a: &ValueHolder, b: &ValueHolder) -> (res: bool)
    requires
        same_variant(*a, *b),
        !(*a is List),
        !is_numeric(*a),
    ensures
        res == value_lt(*a, *b),
{
    match (a, b) {
        (ValueHolder::Boolean(x), ValueHolder::Boolean(y)) => !*x && *y,
        (ValueHolder::String(x), ValueHolder::String(y)) => string_lt(x, y),
        (ValueHolder::DayOfWeek(x), ValueHolder::DayOfWeek(y)) => x.value.ord() < y.value.ord(),
        (ValueHolder::LocalDate(x), ValueHolder::LocalDate(y)) => {
            x.year < y.year || (x.year == y.year && x.month < y.month) || (x.year == y.year
                && x.month == y.month && x.day < y.day)
        },
        (ValueHolder::LocalTime(x), ValueHolder::LocalTime(y)) => {
            x.hour < y.hour || (x.hour == y.hour && x.minute < y.minute) || (x.hour == y.hour
                && x.minute == y.minute && x.second < y.second) || (x.hour == y.hour && x.minute
                == y.minute && x.second == y.second && x.nano < y.nano)
        },
        (ValueHolder::LocalDateTime(x), ValueHolder::LocalDateTime(y)) => {
            let dx = x.date;
            let dy = y.date;
            let date_lt = dx.year < dy.year || (dx.year == dy.year && dx.month < dy.month) || (
            dx.year == dy.year && dx.month == dy.month && dx.day < dy.day);
            let date_eq = dx.year == dy.year && dx.month == dy.month && dx.day == dy.day;
            let tx = x.time;
            let ty = y.time;
            let time_lt = tx.hour < ty.hour || (tx.hour == ty.hour && tx.minute < ty.minute) || (
            tx.hour == ty.hour && tx.minute == ty.minute && tx.second < ty.second) || (tx.hour
                == ty.hour && tx.minute == ty.minute && tx.second == ty.second && tx.nano
                < ty.nano);
            date_lt || (date_eq && time_lt)
        },
        (ValueHolder::ZonedDateTime(x), ValueHolder::ZonedDateTime(y)) => {
            x.epoch_second < y.epoch_second || (x.epoch_second == y.epoch_second && x.nano
                < y.nano)
        },
        _ => false,
    }
}

/// Compares two values with the given operator; see [`compare_spec`] for the
/// exact result on every pair of operands.
pub fn compare_values(l: &ValueHolder, r: &ValueHolder, op: &RelationalOperator) -> (res: Result<
    bool,
    ConditionEvaluationError,
>)
    ensures
        res == compare_spec(*l, *r, *op),
{
    match op {
        RelationalOperator::Equals | RelationalOperator::NotEquals => {
            let eq: Result<bool, ConditionEvaluationError> = if is_numeric_exec(l)
                && is_numeric_exec(r) {
                Ok(numeric_eq_exec(l, r))
            } else if same_variant_exec(l, r) {
                Ok(value_eq_exec(l, r))
            } else {
                Err(ConditionEvaluationError::IncompatibleValueTypes)
            };
            match (op, eq) {
                (RelationalOperator::Equals, res) => res,
                (RelationalOperator::NotEquals, Ok(b)) => Ok(!b),
                (_, e) => e,
            }
        },
        RelationalOperator::LessThan => lt_exec(l, r, false),
        RelationalOperator::GreaterThan => lt_exec(r, l, false),
        RelationalOperator::LessThanOrEquals => lt_exec(r, l, true),
        RelationalOperator::GreaterThanOrEquals => lt_exec(l, r, true),
        RelationalOperator::Contains => match (l, r) {
            (ValueHolder::String(x), ValueHolder::String(y)) => Ok(string_contains(x, y)),
            (ValueHolder::List(items), _) => Ok(list_contains(items, r)),
            _ => Err(ConditionEvaluationError::UnsupportedOperatorForType),
        },
        RelationalOperator::StartsWith => match (l, r) {
            (ValueHolder::String(x), ValueHolder::String(y)) => Ok(string_starts_with(x, y)),
            _ => Err(ConditionEvaluationError::UnsupportedOperatorForType),
        },
        RelationalOperator::EndsWith => match (l, r) {
            (ValueHolder::String(x), ValueHolder::String(y)) => Ok(string_ends_with(x, y)),
            _ => Err(ConditionEvaluationError::UnsupportedOperatorForType),
        },
        RelationalOperator::MatchesRegex => match (l, r) {
            (ValueHolder::String(x), ValueHolder::String(y)) => match regex_is_match(y, x) {
                Some(b) => Ok(b),
                None => Err(ConditionEvaluationError::RegexCompileError(y.clone())),
            },
            _ => Err(ConditionEvaluationError::UnsupportedOperatorForType),
        },
    }
}

/// The strict comparison `l < r`, negated for the `..OrEquals` forms.
fn lt_exec(l: &ValueHolder, r: &ValueHolder, negated: bool) -> (res: Result<
    bool,
    ConditionEvaluationError,
>)
    ensures
        res == (match lt_compare(*l, *r) {
            Ok(b) => Ok::<bool, ConditionEvaluationError>(b != negated),
            Err(e) => Err::<bool, ConditionEvaluationError>(e),
        }),
{
    if is_numeric_exec(l) && is_numeric_exec(r) {
        Ok(numeric_lt_exec(l, r) != negated)
    } else if same_variant_exec(l, r) {
        if let ValueHolder::List(_) = l {
            Err(ConditionEvaluationError::UnsupportedOperatorForType)
        } else {
            Ok(value_lt_exec(l, r) != negated)
        }
    } else {
        Err(ConditionEvaluationError::IncompatibleValueTypes)
    }
}

fn list_contains(items: &Vec<ValueHolder>, r: &ValueHolder) -> (res: bool)
    ensures
        res == exists|i: int| 0 <= i < items@.len() && value_eq(#[trigger] items@[i], *r),
{
    let mut i: usize = 0;
    while i < items.len()
        invariant
            0 <= i <= items@.len(),
            forall|k: int| 0 <= k < i ==> !value_eq(#[trigger] items@[k], *r),
        decreases items@.len() - i,
    {
        if value_eq_exec(&items[i], r) {
            return true;
        }
        i += 1;
    }
    false
}

/// A single relational test: `payload[left_value_name] <op> value`, with an
/// optional negation of the outcome.
#[derive(Debug)]
pub struct Condition {
    pub id: i32,
    pub left_value_name: String,
    pub operator: RelationalOperator,
    pub negate: bool,
    pub value: ConditionValue,
}

/// The result of evaluating a condition against a payload: resolve the left
/// operand by name, resolve the right operand (inline or by name), compare,
/// then apply the negation flag.
pub open spec fn eval_condition_spec(c: Condition, p: ValuesPayload) -> Result<
    bool,
    ConditionEvaluationError,
> {
    match p.lookup(c.left_value_name@) {
        None => Err(ConditionEvaluationError::DidNotFindLeftValue(c.left_value_name)),
        Some(l) => {
            let rv: Result<ValueHolder, ConditionEvaluationError> = match c.value {
                ConditionValue::Static(v) => Ok(v),
                ConditionValue::Runtime(n) => match p.lookup(n@) {
                    None => Err(ConditionEvaluationError::DidNotFindRightValue(n)),
                    Some(v) => Ok(v),
                },
            };
            match rv {
                Err(e) => Err(e),
                Ok(r) => match compare_spec(l, r, c.operator) {
                    Err(e) => Err(e),
                    Ok(b) => Ok(b != c.negate),
                },
            }
        },
    }
}

impl Condition {
    pub fn new(
        id: i32,
        left_value_name: String,
        operator: RelationalOperator,
        negate: bool,
        value: ConditionValue,
    ) -> (r: Condition)
        ensures
            r.id == id,
            r.left_value_name == left_value_name,
            r.operator == operator,
            r.negate == negate,
            r.value == value,
    {
        Condition { id, left_value_name, operator, negate, value }
    }

    /// Evaluates the condition against the payload; the result is exactly
    /// [`eval_condition_spec`], so evaluation is deterministic in
    /// `(condition, payload)`.
    pub fn evaluate(&self, payload: &ValuesPayload) -> (res: Result<
        bool,
        ConditionEvaluationError,
    >)
        ensures
            res == eval_condition_spec(*self, *payload),
    {
        let l: &ValueHolder = match payload.get(&self.left_value_name) {
            None => {
                return Err(
                    ConditionEvaluationError::DidNotFindLeftValue(self.left_value_name.clone()),
                );
            },
            Some(v) => v,
        };
        let r: &ValueHolder = match &self.value {
            ConditionValue::Static(v) => v,
            ConditionValue::Runtime(n) => match payload.get(n) {
                None => {
                    return Err(ConditionEvaluationError::DidNotFindRightValue(n.clone()));
                },
                Some(v) => v,
            },
        };
        match compare_values(l, r, &self.operator) {
            Err(e) => Err(e),
            Ok(b) => Ok(b != self.negate),
        }
    }
}

} // verus!
