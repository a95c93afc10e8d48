//! Boolean expressions over a payload: each expression folds its conditions
//! with one logical operator (with short-circuiting), and may chain to a
//! further expression through an address and a connecting operator.

use vstd::prelude::*;
use crate::address::ExpressionAddress;
use crate::conditions::{eval_condition_spec, Condition, ConditionEvaluationError};
use crate::operators::LogicalOperator;
use crate::values::ValuesPayload;

verus! {

/// Why an expression could not be evaluated.
#[derive(Clone, PartialEq, Eq, Debug)]
pub enum ExpressionEvaluationError {
    /// A condition inside the expression failed to evaluate.
    ConditionEvaluationError(ConditionEvaluationError),
    /// A `next` link pointed at an address that does not resolve to an
    /// expression with the addressed id.
    MissingExpression(ExpressionAddress),
    /// The chain of `next` links exceeded the number of available
    /// expressions, which only an expression cycle can cause.
    CycleDetected,
}

/// Identity and connective of one expression.
#[derive(Clone, Copy, PartialEq, Eq, Structural, Debug)]
pub struct ExpressionDefinition {
    pub id: i32,
    pub logical_operator: LogicalOperator,
}

impl ExpressionDefinition {
    pub fn new(id: i32, logical_operator: LogicalOperator) -> (r: ExpressionDefinition)
        ensures
            r == (ExpressionDefinition { id, logical_operator }),
    {
        ExpressionDefinition { id, logical_operator }
    }
}

/// Link from one expression to the next, with the operator that combines
/// their results.
#[derive(Clone, Copy, PartialEq, Eq, Structural, Debug)]
pub struct NextExpressionAddressWithOperator {
    pub address: ExpressionAddress,
    pub operator: LogicalOperator,
}

impl NextExpressionAddressWithOperator {
    pub fn new(address: ExpressionAddress, operator: LogicalOperator) -> (r:
        NextExpressionAddressWithOperator)
        ensures
            r == (NextExpressionAddressWithOperator { address, operator }),
    {
        NextExpressionAddressWithOperator { address, operator }
    }
}

/// A node of the boolean-expression tree.
#[derive(Debug)]
pub struct Expression {
    pub definition: ExpressionDefinition,
    pub conditions: Vec<Condition>,
    pub next: Option<NextExpressionAddressWithOperator>,
}

/// Folds the conditions with the operator, short-circuiting: under `And` the
/// first false stops with `false`, under `Or` the first true stops with
/// `true`; an exhausted list yields the operator's identity. The first
/// condition error encountered is returned.
pub open spec fn eval_conditions_spec(
    conds: Seq<Condition>,
    op: LogicalOperator,
    p: ValuesPayload,
) -> Result<bool, ConditionEvaluationError>
    decreases conds.len(),
{
    if conds.len() == 0 {
        Ok(
            match op {
                LogicalOperator::And => true,
                LogicalOperator::Or => false,
            },
        )
    } else {
        match eval_condition_spec(conds[0], p) {
            Err(e) => Err(e),
            Ok(b) => {
                if op is And && !b {
                    Ok(false)
                } else if op is Or && b {
                    Ok(true)
                } else {
                    eval_conditions_spec(conds.subrange(1, conds.len() as int), op, p)
                }
            },
        }
    }
}

/// The result of evaluating an expression: fold the conditions, then, unless
/// the intermediate result already short-circuits the connecting operator,
/// resolve the `next` expression from the table and combine. A `next`
/// address that does not resolve (index out of range, or the expression
/// found does not carry the addressed id) is `MissingExpression`. The fuel
/// bounds the chain length; the public entry point supplies one unit per
/// available expression, so only a cyclic chain can run out.
pub open spec fn eval_expression_spec(
    e: Expression,
    subs: Seq<Expression>,
    p: ValuesPayload,
    fuel: nat,
) -> Result<bool, ExpressionEvaluationError>
    decreases fuel,
{
    match eval_conditions_spec(e.conditions@, e.definition.logical_operator, p) {
        Err(ce) => Err(ExpressionEvaluationError::ConditionEvaluationError(ce)),
        Ok(v) => match e.next {
            None => Ok(v),
            Some(n) => {
                if n.operator is And && !v {
                    Ok(false)
                } else if n.operator is Or && v {
                    Ok(true)
                } else if n.address.index < subs.len() && subs[n.address.index as int].definition.id
                    == n.address.id {
                    if fuel == 0 {
                        Err(ExpressionEvaluationError::CycleDetected)
                    } else {
                        match eval_expression_spec(
                            subs[n.address.index as int],
                            subs,
                            p,
                            (fuel - 1) as nat,
                        ) {
                            Err(e2) => Err(e2),
                            Ok(v2) => Ok(
                                match n.operator {
                                    LogicalOperator::And => v && v2,
                                    LogicalOperator::Or => v || v2,
                                },
                            ),
                        }
                    }
                } else {
                    Err(ExpressionEvaluationError::MissingExpression(n.address))
                }
            },
        },
    }
}

impl Expression {
    pub fn new(
        definition: ExpressionDefinition,
        conditions: Vec<Condition>,
        next: Option<NextExpressionAddressWithOperator>,
    ) -> (r: Expression)
        ensures
            r.definition == definition,
            r.conditions == conditions,
            r.next == next,
    {
        Expression { definition, conditions, next }
    }

    /// Evaluates the expression against the payload, resolving chained
    /// expressions from `sub_expressions`. The result is exactly
    /// [`eval_expression_spec`] with one unit of fuel per available
    /// expression, so evaluation is deterministic in
    /// `(expression, table, payload)`.
    pub fn evaluate(&self, payload: &ValuesPayload, sub_expressions: &Vec<Expression>) -> (res:
        Result<bool, ExpressionEvaluationError>)
        ensures
            res == eval_expression_spec(
                *self,
                sub_expressions@,
                *payload,
                sub_expressions@.len() as nat,
            ),
    {
        evaluate_with_fuel(self, payload, sub_expressions, sub_expressions.len())
    }
}

fn evaluate_conditions(
    conds: &Vec<Condition>,
    op: LogicalOperator,
    payload: &ValuesPayload,
) -> (res: Result<bool, ConditionEvaluationError>)
    ensures
        res == eval_conditions_spec(conds@, op, *payload),
{
    let mut i: usize = 0;
    proof {
        assert(conds@.subrange(0, conds@.len() as int) =~= conds@);
    }
    while i < conds.len()
        invariant
            0 <= i <= conds@.len(),
            eval_conditions_spec(conds@, op, *payload) == eval_conditions_spec(
                conds@.subrange(i as int, conds@.len() as int),
                op,
                *payload,
            ),
        decreases conds@.len() - i,
    {
        proof {
            assert(conds@.subrange(i as int, conds@.len() as int)[0] == conds@[i as int]);
        }
        match conds[i].evaluate(payload) {
            Err(e) => {
                return Err(e);
            },
            Ok(b) => {
                match op {
                    LogicalOperator::And => {
                        if !b {
                            return Ok(false);
                        }
                    },
                    LogicalOperator::Or => {
                        if b {
                            return Ok(true);
                        }
                    },
                }
            },
        }
        proof {
            assert(conds@.subrange(i as int, conds@.len() as int).subrange(
                1,
                conds@.len() - i,
            ) =~= conds@.subrange(i + 1, conds@.len() as int));
        }
        i += 1;
    }
    match op {
        LogicalOperator::And => Ok(true),
        LogicalOperator::Or => Ok(false),
    }
}

fn evaluate_with_fuel(
    e: &Expression,
    payload: &ValuesPayload,
    subs: &Vec<Expression>,
    fuel: usize,
) -> (res: Result<bool, ExpressionEvaluationError>)
    ensures
        res == eval_expression_spec(*e, subs@, *payload, fuel as nat),
    decreases fuel,
{
    let v: bool = match evaluate_conditions(
        &e.conditions,
        e.definition.logical_operator,
        payload,
    ) {
        Err(ce) => {
            return Err(ExpressionEvaluationError::ConditionEvaluationError(ce));
        },
        Ok(v) => v,
    };
    let n: &NextExpressionAddressWithOperator = match &e.next {
        None => {
            return Ok(v);
        },
        Some(n) => n,
    };
    match n.operator {
        LogicalOperator::And => {
            if !v {
                return Ok(false);
            }
        },
        LogicalOperator::Or => {
            if v {
                return Ok(true);
            }
        },
    }
    if n.address.index < subs.len() && subs[n.address.index].definition.id == n.address.id {
        if fuel == 0 {
            Err(ExpressionEvaluationError::CycleDetected)
        } else {
            match evaluate_with_fuel(&subs[n.address.index], payload, subs, fuel - 1) {
                Err(e2) => Err(e2),
                Ok(v2) => Ok(
                    match n.operator {
                        LogicalOperator::And => v && v2,
                        LogicalOperator::Or => v || v2,
                    },
                ),
            }
        }
    } else {
        Err(ExpressionEvaluationError::MissingExpression(n.address))
    }
}

} // verus!
