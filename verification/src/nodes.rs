//! Selection nodes: a `Simple` node emits one fixed content command; a
//! `Dictionary` node picks a command by looking a payload value up in its
//! mapping, falling back to a default command when the value is unmapped.

use vstd::prelude::*;
use crate::address::{ContentCommandAddress, SelectionEdgeAddress, SelectionNodeAddress};
use crate::values::{value_eq, value_eq_exec, ValueHolder, ValuesPayload};

verus! {

/// Why a node could not select a command.
#[derive(Clone, PartialEq, Eq, Debug)]
pub enum SelectionNodeError {
    /// The payload has no entry under the dictionary node's key name. Note
    /// that this is about the payload *entry*: a present value that is
    /// missing from the mapping falls back to the default command instead.
    MissingDictionaryKey(String),
}

/// Capabilities a caller hands to the selection walk. The node variants of
/// this crate require no methods of it; implementations exist for callers
/// that carry their own lookup context through the walk.
pub trait SelectionNodesContext {

}

/// A context with no capabilities, for callers and tests that need none.
pub struct MockSelectionNodesContext {

}

impl MockSelectionNodesContext {
    pub fn new() -> MockSelectionNodesContext {
        MockSelectionNodesContext {  }
    }
}

impl SelectionNodesContext for MockSelectionNodesContext {

}

/// Identity and display name of a selection node.
#[derive(Debug)]
pub struct SelectionNodeDefinition {
    pub id: i32,
    pub name: String,
}

impl SelectionNodeDefinition {
    pub fn new(id: i32, name: String) -> (r: SelectionNodeDefinition)
        ensures
            r.id == id,
            r.name == name,
    {
        SelectionNodeDefinition { id, name }
    }
}

/// Auxiliary definition data of a simple node.
#[derive(Clone, Copy, PartialEq, Eq, Structural, Debug)]
pub struct SimpleSelectionNodeDetails {
    pub id: i32,
    pub content_command_id: i32,
}

impl SimpleSelectionNodeDetails {
    pub fn new(id: i32, content_command_id: i32) -> (r: SimpleSelectionNodeDetails)
        ensures
            r == (SimpleSelectionNodeDetails { id, content_command_id }),
    {
        SimpleSelectionNodeDetails { id, content_command_id }
    }
}

/// Auxiliary definition data of a dictionary node, including the payload
/// key name it reads.
#[derive(Debug)]
pub struct DictionarySelectionNodeDetails {
    pub id: i32,
    pub default_command_id: i32,
    pub key_name: String,
}

impl DictionarySelectionNodeDetails {
    pub fn new(id: i32, default_command_id: i32, key_name: String) -> (r:
        DictionarySelectionNodeDetails)
        ensures
            r.id == id,
            r.default_command_id == default_command_id,
            r.key_name == key_name,
    {
        DictionarySelectionNodeDetails { id, default_command_id, key_name }
    }
}

/// The first command mapped under a key equal (by value) to `v`, if any.
pub open spec fn mapping_lookup(
    maps: Seq<(ValueHolder, ContentCommandAddress)>,
    v: ValueHolder,
) -> Option<ContentCommandAddress>
    decreases maps.len(),
{
    if maps.len() == 0 {
        None
    } else if value_eq(maps[0].0, v) {
        Some(maps[0].1)
    } else {
        mapping_lookup(maps.subrange(1, maps.len() as int), v)
    }
}

/// The value-to-command mapping of a dictionary node, with the default
/// command used when a value is not mapped.
#[derive(Debug)]
pub struct DictionaryNodeMapping {
    pub default_command: ContentCommandAddress,
    pub mappings: Vec<(ValueHolder, ContentCommandAddress)>,
}

impl DictionaryNodeMapping {
    pub fn new(
        default_command: ContentCommandAddress,
        mappings: Vec<(ValueHolder, ContentCommandAddress)>,
    ) -> (r: DictionaryNodeMapping)
        ensures
            r.default_command == default_command,
            r.mappings == mappings,
    {
        DictionaryNodeMapping { default_command, mappings }
    }

    /// Looks `v` up by value equality; `None` means unmapped.
    pub fn get(&self, v: &ValueHolder) -> (res: Option<&ContentCommandAddress>)
        ensures
            match res {
                Some(c) => mapping_lookup(self.mappings@, *v) == Some(*c),
                None => mapping_lookup(self.mappings@, *v) is None,
            },
    {
        let mut i: usize = 0;
        proof {
            assert(self.mappings@.subrange(0, self.mappings@.len() as int) =~= self.mappings@);
        }
        while i < self.mappings.len()
            invariant
                0 <= i <= self.mappings@.len(),
                mapping_lookup(self.mappings@, *v) == mapping_lookup(
                    self.mappings@.subrange(i as int, self.mappings@.len() as int),
                    *v,
                ),
            decreases self.mappings@.len() - i,
        {
            proof {
                assert(self.mappings@.subrange(i as int, self.mappings@.len() as int)[0]
                    == self.mappings@[i as int]);
            }
            if value_eq_exec(&self.mappings[i].0, v) {
                return Some(&self.mappings[i].1);
            }
            proof {
                assert(self.mappings@.subrange(i as int, self.mappings@.len() as int).subrange(
                    1,
                    self.mappings@.len() - i,
                ) =~= self.mappings@.subrange(i + 1, self.mappings@.len() as int));
            }
            i += 1;
        }
        None
    }
}

/// A simple node: fixed outgoing edges and one fixed content command.
#[derive(Debug)]
pub struct SimpleSelectionNode {
    pub definition: SelectionNodeDefinition,
    pub outgoing_edges: Vec<SelectionEdgeAddress>,
    pub details: SimpleSelectionNodeDetails,
    pub content_command_address: ContentCommandAddress,
}

impl SimpleSelectionNode {
    pub fn new(
        definition: SelectionNodeDefinition,
        outgoing_edges: Vec<SelectionEdgeAddress>,
        details: SimpleSelectionNodeDetails,
        content_command_address: ContentCommandAddress,
    ) -> (r: SimpleSelectionNode)
        ensures
            r.definition == definition,
            r.outgoing_edges == outgoing_edges,
            r.details == details,
            r.content_command_address == content_command_address,
    {
        SimpleSelectionNode { definition, outgoing_edges, details, content_command_address }
    }
}

/// A dictionary node: selects its command by the payload value under its
/// key name.
#[derive(Debug)]
pub struct DictionarySelectionNode {
    pub definition: SelectionNodeDefinition,
    pub outgoing_edges: Vec<SelectionEdgeAddress>,
    pub details: DictionarySelectionNodeDetails,
    pub mapping: DictionaryNodeMapping,
}

impl DictionarySelectionNode {
    pub fn new(
        definition: SelectionNodeDefinition,
        outgoing_edges: Vec<SelectionEdgeAddress>,
        details: DictionarySelectionNodeDetails,
        mapping: DictionaryNodeMapping,
    ) -> (r: DictionarySelectionNode)
        ensures
            r.definition == definition,
            r.outgoing_edges == outgoing_edges,
            r.details == details,
            r.mapping == mapping,
    {
        DictionarySelectionNode { definition, outgoing_edges, details, mapping }
    }
}

/// A node of the selection tree.
#[derive(Debug)]
pub enum SelectionNode {
    Simple(SimpleSelectionNode),
    Dictionary(DictionarySelectionNode),
}

impl SelectionNode {
    /// The id from the node's definition.
    pub open spec fn id_spec(self) -> int {
        match self {
            SelectionNode::Simple(n) => n.definition.id as int,
            SelectionNode::Dictionary(n) => n.definition.id as int,
        }
    }

    /// The node's outgoing edges, in declaration order.
    pub open spec fn outgoing_edges_spec(self) -> Seq<SelectionEdgeAddress> {
        match self {
            SelectionNode::Simple(n) => n.outgoing_edges@,
            SelectionNode::Dictionary(n) => n.outgoing_edges@,
        }
    }

    /// Which command the node selects for a payload: a simple node's fixed
    /// command; for a dictionary node the command mapped under the payload
    /// value at its key name, the default command if the value is unmapped,
    /// and `MissingDictionaryKey` if the payload lacks the key entirely.
    pub open spec fn select_spec(self, p: ValuesPayload) -> Result<
        ContentCommandAddress,
        SelectionNodeError,
    > {
        match self {
            SelectionNode::Simple(n) => Ok(n.content_command_address),
            SelectionNode::Dictionary(n) => match p.lookup(n.details.key_name@) {
                None => Err(SelectionNodeError::MissingDictionaryKey(n.details.key_name)),
                Some(v) => match mapping_lookup(n.mapping.mappings@, v) {
                    Some(c) => Ok(c),
                    None => Ok(n.mapping.default_command),
                },
            },
        }
    }

    /// True iff the address carries this node's id.
    pub fn matches(&self, address: &SelectionNodeAddress) -> (r: bool)
        ensures
            r == (self.id_spec() == address.id as int),
    {
        match self {
            SelectionNode::Simple(n) => n.definition.id == address.id,
            SelectionNode::Dictionary(n) => n.definition.id == address.id,
        }
    }

    pub fn get_outgoing_edges(&self) -> (r: &Vec<SelectionEdgeAddress>)
        ensures
            r@ == self.outgoing_edges_spec(),
    {
        match self {
            SelectionNode::Simple(n) => &n.outgoing_edges,
            SelectionNode::Dictionary(n) => &n.outgoing_edges,
        }
    }

    /// Selects the node's content command; the result is exactly
    /// [`Self::select_spec`].
    pub fn select_content_command_id<C: SelectionNodesContext>(
        &self,
        payload: &ValuesPayload,
        _context: &C,
    ) -> (res: Result<ContentCommandAddress, SelectionNodeError>)
        ensures
            res == self.select_spec(*payload),
    {
        match self {
            SelectionNode::Simple(n) => Ok(n.content_command_address),
            SelectionNode::Dictionary(n) => match payload.get(&n.details.key_name) {
                None => Err(SelectionNodeError::MissingDictionaryKey(n.details.key_name.clone())),
                Some(v) => match n.mapping.get(v) {
                    Some(c) => Ok(*c),
                    None => Ok(n.mapping.default_command),
                },
            },
        }
    }
}

} // verus!
