//! Selection edges: the guarded links of the selection tree. An
//! `AlwaysTrueSelectionEdge` always passes; a `LogicalExpressionSelectionEdge`
//! passes iff its entry expression evaluates to true over the payload.

use vstd::prelude::*;
use crate::address::{SelectionEdgeAddress, SelectionNodeAddress};
use crate::expressions::{eval_expression_spec, Expression, ExpressionEvaluationError};
use crate::values::ValuesPayload;

verus! {

/// Why an edge's guard could not be evaluated.
#[derive(Clone, PartialEq, Eq, Debug)]
pub enum SelectionEdgeError {
    LogicalExpressionSelectionEdgeError(ExpressionEvaluationError),
}

/// Discriminator carried by edge definitions.
#[derive(Clone, Copy, PartialEq, Eq, Structural, Debug)]
pub enum SelectionEdgeType {
    AlwaysTrueSelectionEdge,
    LogicalExpressionSelectionEdge,
}

/// Identity of an edge, the id of the node it leads to, and its kind.
#[derive(Debug)]
pub struct SelectionEdgeDefinition {
    pub id: i32,
    pub next_selection_node_id: i32,
    pub selection_edge_type: SelectionEdgeType,
}

impl SelectionEdgeDefinition {
    pub fn new(id: i32, next_selection_node_id: i32, selection_edge_type: SelectionEdgeType) -> (r:
        SelectionEdgeDefinition)
        ensures
            r.id == id,
            r.next_selection_node_id == next_selection_node_id,
            r.selection_edge_type == selection_edge_type,
    {
        SelectionEdgeDefinition { id, next_selection_node_id, selection_edge_type }
    }
}

/// An edge whose guard always passes.
#[derive(Debug)]
pub struct AlwaysTrueSelectionEdge {
    pub definition: SelectionEdgeDefinition,
    pub next_selection_node: SelectionNodeAddress,
}

impl AlwaysTrueSelectionEdge {
    pub fn new(definition: SelectionEdgeDefinition, next_selection_node: SelectionNodeAddress) -> (
        r: AlwaysTrueSelectionEdge)
        ensures
            r.definition == definition,
            r.next_selection_node == next_selection_node,
    {
        AlwaysTrueSelectionEdge { definition, next_selection_node }
    }
}

/// Auxiliary definition data carried by a logical-expression edge.
#[derive(Clone, Copy, PartialEq, Eq, Structural, Debug)]
pub struct LogicalExpressionSelectionEdgeDetails {
    pub id: i32,
    pub next_expression_id: i32,
}

impl LogicalExpressionSelectionEdgeDetails {
    pub fn new(id: i32, next_expression_id: i32) -> (r: LogicalExpressionSelectionEdgeDetails)
        ensures
            r == (LogicalExpressionSelectionEdgeDetails { id, next_expression_id }),
    {
        LogicalExpressionSelectionEdgeDetails { id, next_expression_id }
    }
}

/// An edge guarded by a boolean expression tree: an entry expression plus
/// the chained expressions it may link to.
#[derive(Debug)]
pub struct LogicalExpressionSelectionEdge {
    pub definition: SelectionEdgeDefinition,
    pub next_selection_node: SelectionNodeAddress,
    pub details: LogicalExpressionSelectionEdgeDetails,
    pub sub_expressions: Vec<Expression>,
    pub expression: Expression,
}

impl LogicalExpressionSelectionEdge {
    pub fn new(
        definition: SelectionEdgeDefinition,
        next_selection_node: SelectionNodeAddress,
        details: LogicalExpressionSelectionEdgeDetails,
        sub_expressions: Vec<Expression>,
        expression: Expression,
    ) -> (r: LogicalExpressionSelectionEdge)
        ensures
            r.definition == definition,
            r.next_selection_node == next_selection_node,
            r.details == details,
            r.sub_expressions == sub_expressions,
            r.expression == expression,
    {
        LogicalExpressionSelectionEdge {
            definition,
            next_selection_node,
            details,
            sub_expressions,
            expression,
        }
    }
}

/// An outgoing edge of a selection node.
#[derive(Debug)]
pub enum SelectionEdge {
    AlwaysTrueSelectionEdge(AlwaysTrueSelectionEdge),
    LogicalExpressionSelectionEdge(LogicalExpressionSelectionEdge),
}

impl SelectionEdge {
    /// The id from the edge's definition.
    pub open spec fn id_spec(self) -> int {
        match self {
            SelectionEdge::AlwaysTrueSelectionEdge(e) => e.definition.id as int,
            SelectionEdge::LogicalExpressionSelectionEdge(e) => e.definition.id as int,
        }
    }

    /// The address of the node the edge leads to.
    pub open spec fn next_node_spec(self) -> SelectionNodeAddress {
        match self {
            SelectionEdge::AlwaysTrueSelectionEdge(e) => e.next_selection_node,
            SelectionEdge::LogicalExpressionSelectionEdge(e) => e.next_selection_node,
        }
    }

    /// Whether the edge lets the walk pass: always for an always-true edge,
    /// and by the entry expression's value for a logical-expression edge.
    pub open spec fn can_pass_spec(self, p: ValuesPayload) -> Result<bool, SelectionEdgeError> {
        match self {
            SelectionEdge::AlwaysTrueSelectionEdge(_) => Ok(true),
            SelectionEdge::LogicalExpressionSelectionEdge(e) => match eval_expression_spec(
                e.expression,
                e.sub_expressions@,
                p,
                e.sub_expressions@.len() as nat,
            ) {
                Ok(b) => Ok(b),
                Err(er) => Err(SelectionEdgeError::LogicalExpressionSelectionEdgeError(er)),
            },
        }
    }

    /// True iff the address carries this edge's id.
    pub fn matches(&self, address: &SelectionEdgeAddress) -> (r: bool)
        ensures
            r == (self.id_spec() == address.id as int),
    {
        match self {
            SelectionEdge::AlwaysTrueSelectionEdge(e) => e.definition.id == address.id,
            SelectionEdge::LogicalExpressionSelectionEdge(e) => e.definition.id == address.id,
        }
    }

    pub fn get_next_selection_node(&self) -> (r: &SelectionNodeAddress)
        ensures
            *r == self.next_node_spec(),
    {
        match self {
            SelectionEdge::AlwaysTrueSelectionEdge(e) => &e.next_selection_node,
            SelectionEdge::LogicalExpressionSelectionEdge(e) => &e.next_selection_node,
        }
    }

    /// Evaluates the edge's guard; the result is exactly [`can_pass_spec`].
    pub fn can_pass(&self, payload: &ValuesPayload) -> (res: Result<bool, SelectionEdgeError>)
        ensures
            res == self.can_pass_spec(*payload),
    {
        match self {
            SelectionEdge::AlwaysTrueSelectionEdge(_) => Ok(true),
            SelectionEdge::LogicalExpressionSelectionEdge(e) => match e.expression.evaluate(
                payload,
                &e.sub_expressions,
            ) {
                Ok(b) => Ok(b),
                Err(er) => Err(SelectionEdgeError::LogicalExpressionSelectionEdgeError(er)),
            },
        }
    }
}

} // verus!
