//! The selection-tree evaluator: walks from the start node, at each node
//! emitting the node's selected content command and descending through the
//! first outgoing edge whose guard passes, in declaration order. Errors
//! short-circuit the walk and propagate with their originating kind.

use vstd::prelude::*;
use crate::address::{ContentCommandAddress, SelectionEdgeAddress, SelectionNodeAddress};
use crate::edges::{SelectionEdge, SelectionEdgeError};
use crate::nodes::{SelectionNode, SelectionNodeError, SelectionNodesContext};
use crate::values::ValuesPayload;

verus! {

/// Why a selection walk failed.
#[derive(Clone, PartialEq, Eq, Debug)]
pub enum SelectionTreeError {
    /// A node address whose index is outside the node vector.
    MissingNode(SelectionNodeAddress),
    /// An edge address whose index is outside the edge vector.
    MissingEdge(SelectionEdgeAddress),
    /// The node found at the address's index does not carry the address's id.
    SelectionNodeAddressIdMismatch(SelectionNodeAddress),
    /// The edge found at the address's index does not carry the address's id.
    SelectionEdgeAddressIdMismatch(SelectionEdgeAddress),
    SelectionNodeError(SelectionNodeError),
    SelectionEdgeError(SelectionEdgeError),
    /// The walk descended more often than there are nodes, which only a
    /// cycle among the nodes can cause.
    CycleDetected,
}

/// The selection tree: the single owner of its nodes and edges, entered at
/// `start_node`. All cross-references are `(id, index)` addresses resolved
/// against the owning vectors, with the id checked after indexing.
pub struct SelectionTreeEvaluator {
    start_node: SelectionNode,
    nodes: Vec<SelectionNode>,
    edges: Vec<SelectionEdge>,
}

impl SelectionTreeEvaluator {
    pub closed spec fn start_node_spec(self) -> SelectionNode {
        self.start_node
    }

    pub closed spec fn nodes_spec(self) -> Seq<SelectionNode> {
        self.nodes@
    }

    pub closed spec fn edges_spec(self) -> Seq<SelectionEdge> {
        self.edges@
    }

    /// Resolution of a node address: the node at `index`, provided the index
    /// is in range and the node carries the address's id.
    pub open spec fn node_at(self, address: SelectionNodeAddress) -> Result<
        SelectionNode,
        SelectionTreeError,
    > {
        if address.index >= self.nodes_spec().len() {
            Err(SelectionTreeError::MissingNode(address))
        } else if self.nodes_spec()[address.index as int].id_spec() != address.id as int {
            Err(SelectionTreeError::SelectionNodeAddressIdMismatch(address))
        } else {
            Ok(self.nodes_spec()[address.index as int])
        }
    }

    /// Resolution of an edge address, with the same index and id checks.
    pub open spec fn edge_at(self, address: SelectionEdgeAddress) -> Result<
        SelectionEdge,
        SelectionTreeError,
    > {
        if address.index >= self.edges_spec().len() {
            Err(SelectionTreeError::MissingEdge(address))
        } else if self.edges_spec()[address.index as int].id_spec() != address.id as int {
            Err(SelectionTreeError::SelectionEdgeAddressIdMismatch(address))
        } else {
            Ok(self.edges_spec()[address.index as int])
        }
    }

    /// The edge at `address` resolves and its guard evaluates to false.
    pub open spec fn edge_fails(self, address: SelectionEdgeAddress, p: ValuesPayload) -> bool {
        self.edge_at(address) is Ok && self.edge_at(address)->Ok_0.can_pass_spec(p) == Ok::<
            bool,
            SelectionEdgeError,
        >(false)
    }

    /// The edge at `address` resolves and its guard evaluates to true.
    pub open spec fn edge_passes(self, address: SelectionEdgeAddress, p: ValuesPayload) -> bool {
        self.edge_at(address) is Ok && self.edge_at(address)->Ok_0.can_pass_spec(p) == Ok::<
            bool,
            SelectionEdgeError,
        >(true)
    }

    /// The walk from one node: emit the node's selected command, then try
    /// its outgoing edges in declaration order. Each descent consumes one
    /// unit of fuel; the entry point supplies one unit per node, so only a
    /// cyclic walk can run out.
    pub open spec fn walk(self, node: SelectionNode, p: ValuesPayload, fuel: nat) -> Result<
        Seq<ContentCommandAddress>,
        SelectionTreeError,
    >
        decreases fuel, node.outgoing_edges_spec().len() + 1,
    {
        match node.select_spec(p) {
            Err(e) => Err(SelectionTreeError::SelectionNodeError(e)),
            Ok(cmd) => match self.walk_edges(node.outgoing_edges_spec(), p, fuel) {
                Err(e) => Err(e),
                Ok(rest) => Ok(seq![cmd] + rest),
            },
        }
    }

    /// Tries the addressed edges in order: the first edge whose guard passes
    /// decides the descent, edges after it are never evaluated; if no edge
    /// passes, the walk ends at this node with no further commands.
    pub open spec fn walk_edges(
        self,
        addrs: Seq<SelectionEdgeAddress>,
        p: ValuesPayload,
        fuel: nat,
    ) -> Result<Seq<ContentCommandAddress>, SelectionTreeError>
        decreases fuel, addrs.len(),
    {
        if addrs.len() == 0 {
            Ok(Seq::empty())
        } else {
            match self.edge_at(addrs[0]) {
                Err(e) => Err(e),
                Ok(edge) => match edge.can_pass_spec(p) {
                    Err(e) => Err(SelectionTreeError::SelectionEdgeError(e)),
                    Ok(can) => {
                        if can {
                            match self.node_at(edge.next_node_spec()) {
                                Err(e) => Err(e),
                                Ok(next) => {
                                    if fuel == 0 {
                                        Err(SelectionTreeError::CycleDetected)
                                    } else {
                                        self.walk(next, p, (fuel - 1) as nat)
                                    }
                                },
                            }
                        } else {
                            self.walk_edges(addrs.subrange(1, addrs.len() as int), p, fuel)
                        }
                    },
                },
            }
        }
    }

    /// What `select_commands` returns: the walk from the start node, with
    /// one unit of fuel per owned node.
    pub open spec fn select_commands_spec(self, p: ValuesPayload) -> Result<
        Seq<ContentCommandAddress>,
        SelectionTreeError,
    > {
        self.walk(self.start_node_spec(), p, self.nodes_spec().len() as nat)
    }

    pub fn new(
        start_node: SelectionNode,
        nodes: Vec<SelectionNode>,
        edges: Vec<SelectionEdge>,
    ) -> (r: SelectionTreeEvaluator)
        ensures
            r.start_node_spec() == start_node,
            r.nodes_spec() == nodes@,
            r.edges_spec() == edges@,
    {
        SelectionTreeEvaluator { start_node, nodes, edges }
    }

    /// Walks the tree and returns the commands along the single chosen
    /// path, in pre-order; the result is exactly [`Self::select_commands_spec`].
    pub fn select_commands<C: SelectionNodesContext>(
        &self,
        payload: &ValuesPayload,
        context: &C,
    ) -> (res: Result<Vec<ContentCommandAddress>, SelectionTreeError>)
        ensures
            match res {
                Ok(v) => self.select_commands_spec(*payload) == Ok::<
                    Seq<ContentCommandAddress>,
                    SelectionTreeError,
                >(v@),
                Err(e) => self.select_commands_spec(*payload) == Err::<
                    Seq<ContentCommandAddress>,
                    SelectionTreeError,
                >(e),
            },
    {
        let mut selected_command_ids: Vec<ContentCommandAddress> = Vec::new();
        match self.handle(&mut selected_command_ids, payload, context, &self.start_node,
            self.nodes.len()) {
            Ok(_) => Ok(selected_command_ids),
            Err(error) => Err(error),
        }
    }

    fn get_node(&self, address: &SelectionNodeAddress) -> (res: Result<
        &SelectionNode,
        SelectionTreeError,
    >)
        ensures
            match res {
                Ok(n) => self.node_at(*address) == Ok::<SelectionNode, SelectionTreeError>(*n),
                Err(e) => self.node_at(*address) == Err::<SelectionNode, SelectionTreeError>(e),
            },
    {
        let index = *address.get_index();
        if index >= self.nodes.len() {
            return Err(SelectionTreeError::MissingNode(*address));
        }
        let node = &self.nodes[index];
        if !node.matches(address) {
            return Err(SelectionTreeError::SelectionNodeAddressIdMismatch(*address));
        }
        Ok(node)
    }

    fn get_edge(&self, address: &SelectionEdgeAddress) -> (res: Result<
        &SelectionEdge,
        SelectionTreeError,
    >)
        ensures
            match res {
                Ok(n) => self.edge_at(*address) == Ok::<SelectionEdge, SelectionTreeError>(*n),
                Err(e) => self.edge_at(*address) == Err::<SelectionEdge, SelectionTreeError>(e),
            },
    {
        let index = *address.get_index();
        if index >= self.edges.len() {
            return Err(SelectionTreeError::MissingEdge(*address));
        }
        let edge = &self.edges[index];
        if !edge.matches(address) {
            return Err(SelectionTreeError::SelectionEdgeAddressIdMismatch(*address));
        }
        Ok(edge)
    }

    fn handle<C: SelectionNodesContext>(
        &self,
        selected_command_ids: &mut Vec<ContentCommandAddress>,
        payload: &ValuesPayload,
        context: &C,
        current_node: &SelectionNode,
        fuel: usize,
    ) -> (res: Result<(), SelectionTreeError>)
        ensures
            match res {
                Ok(_) => {
                    &&& self.walk(*current_node, *payload, fuel as nat) is Ok
                    &&& final(selected_command_ids)@ == old(selected_command_ids)@ + self.walk(
                        *current_node,
                        *payload,
                        fuel as nat,
                    )->Ok_0
                },
                Err(e) => self.walk(*current_node, *payload, fuel as nat) == Err::<
                    Seq<ContentCommandAddress>,
                    SelectionTreeError,
                >(e),
            },
            old(selected_command_ids)@.len() <= final(selected_command_ids)@.len()
                && final(selected_command_ids)@.subrange(
                0,
                old(selected_command_ids)@.len() as int,
            ) == old(selected_command_ids)@,
        decreases fuel,
    {
        match current_node.select_content_command_id(payload, context) {
            Ok(command_address) => selected_command_ids.push(command_address),
            Err(error) => {
                proof {
                    assert(selected_command_ids@.subrange(
                        0,
                        old(selected_command_ids)@.len() as int,
                    ) =~= old(selected_command_ids)@);
                }
                return Err(SelectionTreeError::SelectionNodeError(error));
            },
        };
        proof {
            assert(selected_command_ids@.subrange(0, old(selected_command_ids)@.len() as int)
                =~= old(selected_command_ids)@);
        }
        let outgoing = current_node.get_outgoing_edges();
        let ghost all_addrs = current_node.outgoing_edges_spec();
        let mut i: usize = 0;
        proof {
            assert(all_addrs.subrange(0, all_addrs.len() as int) =~= all_addrs);
        }
        while i < outgoing.len()
            invariant
                0 <= i <= all_addrs.len(),
                outgoing@ == all_addrs,
                all_addrs == current_node.outgoing_edges_spec(),
                self.walk_edges(all_addrs, *payload, fuel as nat) == self.walk_edges(
                    all_addrs.subrange(i as int, all_addrs.len() as int),
                    *payload,
                    fuel as nat,
                ),
                selected_command_ids@ == old(selected_command_ids)@ + seq![
                    current_node.select_spec(*payload)->Ok_0,
                ],
                selected_command_ids@.subrange(0, old(selected_command_ids)@.len() as int)
                    == old(selected_command_ids)@,
                current_node.select_spec(*payload) is Ok,
            decreases all_addrs.len() - i,
        {
            proof {
                assert(all_addrs.subrange(i as int, all_addrs.len() as int)[0] == all_addrs[
                    i as int]);
            }
            let address = &outgoing[i];
            match self.get_edge(address) {
                Ok(edge) => {
                    match edge.can_pass(payload) {
                        Ok(can_pass) => {
                            if can_pass {
                                let node = match self.get_node(edge.get_next_selection_node()) {
                                    Ok(node) => node,
                                    Err(error) => {
                                        return Err(error);
                                    },
                                };
                                if fuel == 0 {
                                    return Err(SelectionTreeError::CycleDetected);
                                }
                                let r = self.handle(
                                    selected_command_ids,
                                    payload,
                                    context,
                                    node,
                                    fuel - 1,
                                );
                                proof {
                                    assert(self.walk_edges(
                                        all_addrs.subrange(i as int, all_addrs.len() as int),
                                        *payload,
                                        fuel as nat,
                                    ) == self.walk(*node, *payload, (fuel - 1) as nat));
                                    assert(selected_command_ids@.subrange(
                                        0,
                                        old(selected_command_ids)@.len() as int,
                                    ) =~= old(selected_command_ids)@);
                                    if r is Ok {
                                        let cmd = current_node.select_spec(*payload)->Ok_0;
                                        let rest = self.walk(
                                            *node,
                                            *payload,
                                            (fuel - 1) as nat,
                                        )->Ok_0;
                                        assert((old(selected_command_ids)@ + seq![cmd]) + rest
                                            =~= old(selected_command_ids)@ + (seq![cmd] + rest));
                                    }
                                }
                                return r;
                            }
                        },
                        Err(error) => {
                            return Err(SelectionTreeError::SelectionEdgeError(error));
                        },
                    }
                },
                Err(error) => {
                    return Err(error);
                },
            }
            proof {
                assert(all_addrs.subrange(i as int, all_addrs.len() as int).subrange(
                    1,
                    all_addrs.len() - i,
                ) =~= all_addrs.subrange(i + 1, all_addrs.len() as int));
            }
            i += 1;
        }
        Ok(())
    }

    /// Law: address safety. A node or edge address whose index is in range
    /// but whose id does not match the element stored at that index — for
    /// instance because the element's id was corrupted after construction —
    /// resolves to the corresponding id-mismatch error, never to an
    /// element; the walk propagates that error to the caller unchanged.
    pub proof fn lemma_address_id_mismatch(
        self,
        node_address: SelectionNodeAddress,
        edge_address: SelectionEdgeAddress,
    )
        ensures
            (node_address.index < self.nodes_spec().len() && self.nodes_spec()[
                node_address.index as int].id_spec() != node_address.id as int)
                ==> self.node_at(node_address) == Err::<SelectionNode, SelectionTreeError>(
                SelectionTreeError::SelectionNodeAddressIdMismatch(node_address),
            ),
            (edge_address.index < self.edges_spec().len() && self.edges_spec()[
                edge_address.index as int].id_spec() != edge_address.id as int)
                ==> self.edge_at(edge_address) == Err::<SelectionEdge, SelectionTreeError>(
                SelectionTreeError::SelectionEdgeAddressIdMismatch(edge_address),
            ),
    {
    }

    /// Law: on a successful walk the emitted sequence follows a single path.
    /// At each visited node, either no outgoing edge resolves to a passing
    /// guard and the path ends there, or there is a first edge (all its
    /// earlier siblings resolved and failed) that resolved, passed, and the
    /// rest of the sequence is the walk from that edge's target node.
    pub proof fn lemma_walk_edges_first_passing(
        self,
        addrs: Seq<SelectionEdgeAddress>,
        p: ValuesPayload,
        fuel: nat,
    )
        requires
            self.walk_edges(addrs, p, fuel) is Ok,
        ensures
            self.walk_edges(addrs, p, fuel)->Ok_0.len() == 0 ==> forall|j: int|
                0 <= j < addrs.len() ==> self.edge_fails(#[trigger] addrs[j], p),
            self.walk_edges(addrs, p, fuel)->Ok_0.len() > 0 ==> exists|i: int|
                {
                    &&& 0 <= i < addrs.len()
                    &&& #[trigger] self.edge_passes(addrs[i], p)
                    &&& (forall|j: int| 0 <= j < i ==> self.edge_fails(#[trigger] addrs[j], p))
                    &&& fuel > 0
                    &&& self.node_at(self.edge_at(addrs[i])->Ok_0.next_node_spec()) is Ok
                    &&& self.walk_edges(addrs, p, fuel) == self.walk(
                        self.node_at(self.edge_at(addrs[i])->Ok_0.next_node_spec())->Ok_0,
                        p,
                        (fuel - 1) as nat,
                    )
                },
        decreases addrs.len(),
    {
        if addrs.len() == 0 {
        } else {
            let edge = self.edge_at(addrs[0])->Ok_0;
            match edge.can_pass_spec(p) {
                Ok(can) => {
                    if can {
                        let next = self.node_at(edge.next_node_spec())->Ok_0;
                        let r = self.walk(next, p, (fuel - 1) as nat);
                        assert(r is Ok && r->Ok_0.len() > 0);
                        assert(self.edge_passes(addrs[0], p));
                    } else {
                        let tail = addrs.subrange(1, addrs.len() as int);
                        self.lemma_walk_edges_first_passing(tail, p, fuel);
                        assert(self.edge_fails(addrs[0], p));
                        if self.walk_edges(addrs, p, fuel)->Ok_0.len() == 0 {
                            assert forall|j: int| 0 <= j < addrs.len() implies self.edge_fails(
                                #[trigger] addrs[j],
                                p,
                            ) by {
                                if j > 0 {
                                    assert(tail[j - 1] == addrs[j]);
                                }
                            }
                        } else {
                            let i0 = choose|i: int|
                                {
                                    &&& 0 <= i < tail.len()
                                    &&& #[trigger] self.edge_passes(tail[i], p)
                                    &&& (forall|j: int|
                                        0 <= j < i ==> self.edge_fails(#[trigger] tail[j], p))
                                    &&& fuel > 0
                                    &&& self.node_at(
                                        self.edge_at(tail[i])->Ok_0.next_node_spec(),
                                    ) is Ok
                                    &&& self.walk_edges(tail, p, fuel) == self.walk(
                                        self.node_at(
                                            self.edge_at(tail[i])->Ok_0.next_node_spec(),
                                        )->Ok_0,
                                        p,
                                        (fuel - 1) as nat,
                                    )
                                };
                            assert(tail[i0] == addrs[i0 + 1]);
                            assert forall|j: int| 0 <= j < i0 + 1 implies self.edge_fails(
                                #[trigger] addrs[j],
                                p,
                            ) by {
                                if j > 0 {
                                    assert(tail[j - 1] == addrs[j]);
                                }
                            }
                            assert(self.edge_passes(addrs[i0 + 1], p));
                        }
                    }
                },
                Err(_) => {
                    assert(false);
                },
            }
        }
    }
}

} // verus!
