//! Stable `(id, index)` addresses into the dense vectors that own selection
//! nodes, selection edges, expressions and content commands.
//!
//! `id` is the logical identifier of the element; `index` is its slot in the
//! owning vector. Every lookup checks that the element found at `index`
//! carries `id`, so stale addresses are caught instead of silently resolving.

use vstd::prelude::*;

verus! {

/// Address of a selection node inside the evaluator's node vector.
#[derive(Clone, Copy, PartialEq, Eq, Structural, Debug)]
pub struct SelectionNodeAddress {
    pub id: i32,
    pub index: usize,
}

impl SelectionNodeAddress {
    pub fn new(id: i32, index: usize) -> (r: SelectionNodeAddress)
        ensures
            r == (SelectionNodeAddress { id, index }),
    {
        SelectionNodeAddress { id, index }
    }

    pub fn get_id(&self) -> (r: &i32)
        ensures
            *r == self.id,
    {
        &self.id
    }

    pub fn get_index(&self) -> (r: &usize)
        ensures
            *r == self.index,
    {
        &self.index
    }
}

/// Address of a selection edge inside the evaluator's edge vector.
#[derive(Clone, Copy, PartialEq, Eq, Structural, Debug)]
pub struct SelectionEdgeAddress {
    pub id: i32,
    pub index: usize,
}

impl SelectionEdgeAddress {
    pub fn new(id: i32, index: usize) -> (r: SelectionEdgeAddress)
        ensures
            r == (SelectionEdgeAddress { id, index }),
    {
        SelectionEdgeAddress { id, index }
    }

    pub fn get_id(&self) -> (r: &i32)
        ensures
            *r == self.id,
    {
        &self.id
    }

    pub fn get_index(&self) -> (r: &usize)
        ensures
            *r == self.index,
    {
        &self.index
    }
}

/// Address of an expression inside an edge's expression vector.
#[derive(Clone, Copy, PartialEq, Eq, Structural, Debug)]
pub struct ExpressionAddress {
    pub id: i32,
    pub index: usize,
}

impl ExpressionAddress {
    pub fn new(id: i32, index: usize) -> (r: ExpressionAddress)
        ensures
            r == (ExpressionAddress { id, index }),
    {
        ExpressionAddress { id, index }
    }

    pub fn get_id(&self) -> (r: &i32)
        ensures
            *r == self.id,
    {
        &self.id
    }

    pub fn get_index(&self) -> (r: &usize)
        ensures
            *r == self.index,
    {
        &self.index
    }
}

/// Address of a content command in the external command table.
#[derive(Clone, Copy, PartialEq, Eq, Structural, Debug)]
pub struct ContentCommandAddress {
    pub id: i32,
    pub index: usize,
}

impl ContentCommandAddress {
    pub fn new(id: i32, index: usize) -> (r: ContentCommandAddress)
        ensures
            r == (ContentCommandAddress { id, index }),
    {
        ContentCommandAddress { id, index }
    }

    pub fn get_id(&self) -> (r: &i32)
        ensures
            *r == self.id,
    {
        &self.id
    }

    pub fn get_index(&self) -> (r: &usize)
        ensures
            *r == self.index,
    {
        &self.index
    }
}

} // verus!
