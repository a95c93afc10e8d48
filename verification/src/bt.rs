//! The behavior-tree engine: node definitions, node instances, the builder
//! that links sub-tree references, and the tick protocol.
//!
//! Definitions are pure data. The builder inlines every `ExecuteSubTree`
//! reference at build time, so instances carry their resolved sub-tree root
//! directly. A tick never performs I/O itself: `PrintLog` appends a
//! [`LogEntry`] to the log buffer handed in, and the caller prints the
//! buffer.

use vstd::prelude::*;

verus! {

/// Why a tree could not be built.
#[derive(Clone, Copy, PartialEq, Eq, Structural, Debug)]
pub enum BuildError {
    /// An `ExecuteSubTree` names a subtree id with no definition.
    UnknownSubTree(i32),
    /// A definition holds the same node id twice.
    DuplicateNodeId(i32),
    /// A `Sequence` definition with no children.
    EmptyComposite(i32),
    /// Sub-tree references nest deeper than the number of definitions,
    /// which only a cycle among the sub-trees can cause.
    SubTreeCycle(i32),
}

/// Result of one tick of a node.
#[derive(Clone, Copy, PartialEq, Eq, Structural, Debug)]
pub enum TickStatus {
    Success,
    Failure,
    Running,
}

/// Why a tick failed.
#[derive(Debug)]
pub enum TickError {
    /// The log sink refused the write.
    Io,
    /// A sub-tree reference survived to run time unresolved.
    SubTreeUnresolved(i32),
    /// A composite's child failed; the child's error is wrapped once.
    ChildTickError(Box<TickError>),
}

/// One line of the log sink: written by the caller as
/// `[bt_node_id=<n>] <message>`.
#[derive(Clone, PartialEq, Eq, Debug)]
pub struct LogEntry {
    pub bt_node_id: i32,
    pub message: String,
}

/// Definition of a `PrintLog` action node.
#[derive(Clone, Debug)]
pub struct PrintLogActionNodeDefinition {
    pub bt_node_id: i32,
    pub message: String,
}

impl PrintLogActionNodeDefinition {
    pub fn new(bt_node_id: i32, message: String) -> (r: PrintLogActionNodeDefinition)
        ensures
            r.bt_node_id == bt_node_id,
            r.message == message,
    {
        PrintLogActionNodeDefinition { bt_node_id, message }
    }
}

/// Definition of an `ExecuteSubTree` action node.
#[derive(Clone, Copy, PartialEq, Eq, Structural, Debug)]
pub struct ExecuteSubTreeActionNodeDefinition {
    pub bt_node_id: i32,
    pub subtree_id: i32,
}

impl ExecuteSubTreeActionNodeDefinition {
    pub fn new(bt_node_id: i32, subtree_id: i32) -> (r: ExecuteSubTreeActionNodeDefinition)
        ensures
            r == (ExecuteSubTreeActionNodeDefinition { bt_node_id, subtree_id }),
    {
        ExecuteSubTreeActionNodeDefinition { bt_node_id, subtree_id }
    }
}

/// Definition of a `Sequence` composite node.
#[derive(Debug)]
pub struct SequenceCompositeNodeDefinition {
    pub bt_node_id: i32,
    pub children: Vec<BTNodeDefinition>,
}

impl SequenceCompositeNodeDefinition {
    pub fn new(bt_node_id: i32, children: Vec<BTNodeDefinition>) -> (r:
        SequenceCompositeNodeDefinition)
        ensures
            r.bt_node_id == bt_node_id,
            r.children == children,
    {
        SequenceCompositeNodeDefinition { bt_node_id, children }
    }
}

/// Definition of one behavior-tree node.
#[derive(Debug)]
pub enum BTNodeDefinition {
    PrintLog(PrintLogActionNodeDefinition),
    ExecuteSubTree(ExecuteSubTreeActionNodeDefinition),
    Sequence(SequenceCompositeNodeDefinition),
}

/// A tree definition: the tree's own id and its root node definition.
#[derive(Debug)]
pub struct TreeDefinition {
    pub id: i32,
    pub root: BTNodeDefinition,
}

impl TreeDefinition {
    pub fn new(id: i32, root: BTNodeDefinition) -> (r: TreeDefinition)
        ensures
            r.id == id,
            r.root == root,
    {
        TreeDefinition { id, root }
    }
}

/// Structural size of a definition, the termination measure of the walks
/// over it.
pub open spec fn def_size(d: BTNodeDefinition) -> nat
    decreases d,
{
    match d {
        BTNodeDefinition::Sequence(s) => 1 + def_seq_size(s.children@),
        _ => 1,
    }
}

pub open spec fn def_seq_size(s: Seq<BTNodeDefinition>) -> nat
    decreases s,
{
    if s.len() == 0 {
        0
    } else {
        def_size(s[0]) + def_seq_size(s.subrange(1, s.len() as int))
    }
}

pub proof fn lemma_def_seq_size_bound(s: Seq<BTNodeDefinition>, i: int)
    requires
        0 <= i < s.len(),
    ensures
        def_size(s[i]) <= def_seq_size(s),
    decreases s.len(),
{
    if i > 0 {
        lemma_def_seq_size_bound(s.subrange(1, s.len() as int), i - 1);
        assert(s.subrange(1, s.len() as int)[i - 1] == s[i]);
    }
}

/// The node ids of a definition, in pre-order, without expanding sub-tree
/// references.
pub open spec fn def_ids_spec(d: BTNodeDefinition) -> Seq<i32>
    decreases def_size(d), 0int, 0int,
{
    match d {
        BTNodeDefinition::PrintLog(p) => seq![p.bt_node_id],
        BTNodeDefinition::ExecuteSubTree(e) => seq![e.bt_node_id],
        BTNodeDefinition::Sequence(s) => seq![s.bt_node_id] + def_seq_ids(s.children@),
    }
}

pub open spec fn def_seq_ids(s: Seq<BTNodeDefinition>) -> Seq<i32>
    decreases def_seq_size(s), 1int, s.len(),
{
    if s.len() == 0 {
        Seq::empty()
    } else {
        def_ids_spec(s[0]) + def_seq_ids(s.subrange(1, s.len() as int))
    }
}

/// A `PrintLog` action instance.
#[derive(Debug)]
pub struct PrintLogActionNode {
    pub bt_node_id: i32,
    pub message: String,
}

/// An `ExecuteSubTree` action instance, holding its resolved sub-tree root.
#[derive(Debug)]
pub struct ExecuteSubTreeActionNode {
    pub bt_node_id: i32,
    pub subtree_root: Box<BTNode>,
}

/// An action node.
#[derive(Debug)]
pub enum ActionBTNode {
    PrintLog(PrintLogActionNode),
    ExecuteSubTree(ExecuteSubTreeActionNode),
}

/// A `Sequence` composite instance with its resume cursor.
#[derive(Debug)]
pub struct SequenceCompositeNode {
    pub bt_node_id: i32,
    pub children: Vec<BTNode>,
    pub cursor: usize,
}

/// A composite node.
#[derive(Debug)]
pub enum CompositeBTNode {
    Sequence(SequenceCompositeNode),
}

/// A behavior-tree node instance.
#[derive(Debug)]
pub enum BTNode {
    Action(ActionBTNode),
    Composite(CompositeBTNode),
}

/// Structural size of an instance, the termination measure of the tick.
pub open spec fn bt_size(n: BTNode) -> nat
    decreases n,
{
    match n {
        BTNode::Action(ActionBTNode::PrintLog(_)) => 1,
        BTNode::Action(ActionBTNode::ExecuteSubTree(e)) => 1 + bt_size(*e.subtree_root),
        BTNode::Composite(CompositeBTNode::Sequence(sq)) => 1 + bt_seq_size(sq.children@),
    }
}

pub open spec fn bt_seq_size(s: Seq<BTNode>) -> nat
    decreases s,
{
    if s.len() == 0 {
        0
    } else {
        bt_size(s[0]) + bt_seq_size(s.subrange(1, s.len() as int))
    }
}

pub proof fn lemma_bt_seq_size_bound(s: Seq<BTNode>, i: int)
    requires
        0 <= i < s.len(),
    ensures
        bt_size(s[i]) <= bt_seq_size(s),
    decreases s.len(),
{
    if i > 0 {
        lemma_bt_seq_size_bound(s.subrange(1, s.len() as int), i - 1);
        assert(s.subrange(1, s.len() as int)[i - 1] == s[i]);
    }
}

pub proof fn lemma_bt_seq_size_suffix(s: Seq<BTNode>, i: int)
    requires
        0 <= i <= s.len(),
    ensures
        bt_seq_size(s.subrange(i, s.len() as int)) <= bt_seq_size(s),
    decreases i,
{
    if i == 0 {
        assert(s.subrange(0, s.len() as int) =~= s);
    } else {
        let tail = s.subrange(1, s.len() as int);
        lemma_bt_seq_size_suffix(tail, i - 1);
        assert(tail.subrange(i - 1, tail.len() as int) =~= s.subrange(i, s.len() as int));
    }
}

pub proof fn lemma_bt_seq_size_update(s: Seq<BTNode>, i: int, v: BTNode)
    requires
        0 <= i < s.len(),
    ensures
        bt_seq_size(s.update(i, v)) + bt_size(s[i]) == bt_seq_size(s) + bt_size(v),
    decreases s.len(),
{
    if i == 0 {
        assert(s.update(0, v)[0] == v);
        assert(s.update(0, v).subrange(1, s.len() as int) =~= s.subrange(1, s.len() as int));
    } else {
        lemma_bt_seq_size_update(s.subrange(1, s.len() as int), i - 1, v);
        assert(s.update(i, v).subrange(1, s.len() as int) =~= s.subrange(
            1,
            s.len() as int,
        ).update(i - 1, v));
        assert(s.update(i, v)[0] == s[0]);
        assert(s.subrange(1, s.len() as int)[i - 1] == s[i]);
    }
}

/// The status a tick returns and the log lines it emits, as a function of
/// the node's current state: `PrintLog` logs once and succeeds;
/// `ExecuteSubTree` is its sub-tree's tick; a `Sequence` ticks its children
/// from the cursor on, stopping at the first child that does not succeed,
/// whose status it returns (a child error is wrapped once in
/// `ChildTickError`); a sequence whose remaining children all succeed
/// succeeds.
pub open spec fn tick_status_spec(n: BTNode) -> (Result<TickStatus, TickError>, Seq<LogEntry>)
    decreases bt_size(n), 0int, 0int,
    via tick_status_spec_decreases
{
    match n {
        BTNode::Action(ActionBTNode::PrintLog(p)) => (
            Ok(TickStatus::Success),
            seq![LogEntry { bt_node_id: p.bt_node_id, message: p.message }],
        ),
        BTNode::Action(ActionBTNode::ExecuteSubTree(e)) => tick_status_spec(*e.subtree_root),
        BTNode::Composite(CompositeBTNode::Sequence(sq)) => {
            if sq.cursor >= sq.children@.len() {
                (Ok(TickStatus::Success), Seq::empty())
            } else {
                seq_status_spec(sq.children@.subrange(sq.cursor as int, sq.children@.len() as int))
            }
        },
    }
}

#[via_fn]
proof fn tick_status_spec_decreases(n: BTNode) {
    if let BTNode::Composite(CompositeBTNode::Sequence(sq)) = n {
        if sq.cursor < sq.children@.len() {
            lemma_bt_seq_size_suffix(sq.children@, sq.cursor as int);
        }
    }
}

pub open spec fn seq_status_spec(s: Seq<BTNode>) -> (Result<TickStatus, TickError>, Seq<LogEntry>)
    decreases bt_seq_size(s), 1int, s.len(),
{
    if s.len() == 0 {
        (Ok(TickStatus::Success), Seq::empty())
    } else {
        let (st, lg) = tick_status_spec(s[0]);
        match st {
            Err(e) => (Err(TickError::ChildTickError(Box::new(e))), lg),
            Ok(TickStatus::Failure) => (Ok(TickStatus::Failure), lg),
            Ok(TickStatus::Running) => (Ok(TickStatus::Running), lg),
            Ok(TickStatus::Success) => {
                let (st2, lg2) = seq_status_spec(s.subrange(1, s.len() as int));
                (st2, lg + lg2)
            },
        }
    }
}

/// Index of the first child from `i` on whose tick does not succeed, or
/// the children's length when every remaining tick succeeds. Within one
/// tick of a sequence this is the last child that gets ticked.
pub open spec fn seq_stop(s: Seq<BTNode>, i: int) -> int
    decreases s.len() - i,
{
    if i < 0 || i >= s.len() {
        s.len() as int
    } else if tick_status_spec(s[i]).0 == Ok::<TickStatus, TickError>(TickStatus::Success) {
        seq_stop(s, i + 1)
    } else {
        i
    }
}

pub proof fn lemma_seq_stop_is(s: Seq<BTNode>, c: int, stop: int)
    requires
        0 <= c <= stop <= s.len(),
        forall|t: int|
            c <= t < stop ==> tick_status_spec(#[trigger] s[t]).0 == Ok::<
                TickStatus,
                TickError,
            >(TickStatus::Success),
        stop < s.len() ==> tick_status_spec(s[stop]).0 != Ok::<TickStatus, TickError>(
            TickStatus::Success,
        ),
    ensures
        seq_stop(s, c) == stop,
    decreases stop - c,
{
    if c < stop {
        lemma_seq_stop_is(s, c + 1, stop);
    }
}

/// The node state after one tick, as a relation between the pre-tick and
/// post-tick states. Ticking is deterministic, so the relation pins the
/// returned node: `PrintLog` is unchanged; `ExecuteSubTree` holds its
/// ticked sub-tree; a `Sequence` holds the ticked states of the children
/// from the cursor through the first non-succeeding child, the rest
/// untouched, with the cursor on the running child, back at the cursor on
/// an error, and reset to zero otherwise.
pub open spec fn tick_rel(pre: BTNode, post: BTNode) -> bool
    decreases bt_size(pre), 0int,
{
    match pre {
        BTNode::Action(ActionBTNode::PrintLog(_)) => post == pre,
        BTNode::Action(ActionBTNode::ExecuteSubTree(e)) => match post {
            BTNode::Action(ActionBTNode::ExecuteSubTree(x)) => x.bt_node_id == e.bt_node_id
                && tick_rel(*e.subtree_root, *x.subtree_root),
            _ => false,
        },
        BTNode::Composite(CompositeBTNode::Sequence(sq)) => match post {
            BTNode::Composite(CompositeBTNode::Sequence(s2)) => seq_tick_rel(sq, s2),
            _ => false,
        },
    }
}

pub open spec fn seq_tick_rel(pre: SequenceCompositeNode, post: SequenceCompositeNode) -> bool
    decreases bt_seq_size(pre.children@), 1int,
    via seq_tick_rel_decreases
{
    let stop = seq_stop(pre.children@, pre.cursor as int);
    &&& post.bt_node_id == pre.bt_node_id
    &&& post.children@.len() == pre.children@.len()
    &&& (forall|t: int|
        0 <= t < pre.children@.len() && (t < pre.cursor || t > stop) ==> post.children@[t]
            == #[trigger] pre.children@[t])
    &&& (forall|t: int|
        pre.cursor <= t <= stop && t < pre.children@.len() ==> tick_rel(
            #[trigger] pre.children@[t],
            post.children@[t],
        ))
    &&& post.cursor as int == (if pre.cursor >= pre.children@.len() {
        0int
    } else if stop >= pre.children@.len() {
        0int
    } else {
        match tick_status_spec(pre.children@[stop]).0 {
            Ok(TickStatus::Running) => stop,
            Ok(TickStatus::Failure) => 0int,
            _ => pre.cursor as int,
        }
    })
}

#[via_fn]
proof fn seq_tick_rel_decreases(pre: SequenceCompositeNode, post: SequenceCompositeNode) {
    assert forall|t: int| 0 <= t < pre.children@.len() implies bt_size(
        #[trigger] pre.children@[t],
    ) <= bt_seq_size(pre.children@) by {
        lemma_bt_seq_size_bound(pre.children@, t);
    }
}

impl BTNode {
    /// Ticks the node once. The status returned and the log lines appended
    /// are exactly [`tick_status_spec`] of the node's pre-tick state; the
    /// node is returned with its post-tick state (a `Sequence` resumes at
    /// the child that returned `Running`, and resets after a terminal
    /// status).
    pub fn tick(self, log: &mut Vec<LogEntry>) -> (r: (BTNode, Result<TickStatus, TickError>))
        ensures
            r.1 == tick_status_spec(self).0,
            final(log)@ == old(log)@ + tick_status_spec(self).1,
            bt_size(r.0) == bt_size(self),
            tick_rel(self, r.0),
        decreases bt_size(self), 2int,
    {
        match self {
            BTNode::Action(a) => {
                let (a2, st) = a.tick(log);
                (BTNode::Action(a2), st)
            },
            BTNode::Composite(c) => {
                let (c2, st) = c.tick(log);
                (BTNode::Composite(c2), st)
            },
        }
    }
}

impl ActionBTNode {
    /// Ticks an action node; see [`BTNode::tick`].
    pub fn tick(self, log: &mut Vec<LogEntry>) -> (r: (ActionBTNode, Result<
        TickStatus,
        TickError,
    >))
        ensures
            r.1 == tick_status_spec(BTNode::Action(self)).0,
            final(log)@ == old(log)@ + tick_status_spec(BTNode::Action(self)).1,
            bt_size(BTNode::Action(r.0)) == bt_size(BTNode::Action(self)),
            tick_rel(BTNode::Action(self), BTNode::Action(r.0)),
        decreases bt_size(BTNode::Action(self)), 1int,
    {
        match self {
            ActionBTNode::PrintLog(p) => {
                log.push(LogEntry { bt_node_id: p.bt_node_id, message: p.message.clone() });
                (ActionBTNode::PrintLog(p), Ok(TickStatus::Success))
            },
            ActionBTNode::ExecuteSubTree(e) => {
                let ExecuteSubTreeActionNode { bt_node_id, subtree_root } = e;
                let (sub2, st) = (*subtree_root).tick(log);
                (
                    ActionBTNode::ExecuteSubTree(
                        ExecuteSubTreeActionNode { bt_node_id, subtree_root: Box::new(sub2) },
                    ),
                    st,
                )
            },
        }
    }
}

impl CompositeBTNode {
    /// Ticks a composite node; see [`BTNode::tick`].
    pub fn tick(self, log: &mut Vec<LogEntry>) -> (r: (CompositeBTNode, Result<
        TickStatus,
        TickError,
    >))
        ensures
            r.1 == tick_status_spec(BTNode::Composite(self)).0,
            final(log)@ == old(log)@ + tick_status_spec(BTNode::Composite(self)).1,
            bt_size(BTNode::Composite(r.0)) == bt_size(BTNode::Composite(self)),
            tick_rel(BTNode::Composite(self), BTNode::Composite(r.0)),
        decreases bt_size(BTNode::Composite(self)), 1int,
    {
        match self {
            CompositeBTNode::Sequence(sq) => {
                let (sq2, st) = sq.tick(log);
                (CompositeBTNode::Sequence(sq2), st)
            },
        }
    }
}

impl SequenceCompositeNode {
    /// Ticks the children from the cursor on, in order. The first child
    /// that does not succeed decides: `Running` keeps the cursor on that
    /// child for the next tick; `Failure` and a full pass of successes
    /// reset the cursor; a child error is wrapped once and returned.
    pub fn tick(self, log: &mut Vec<LogEntry>) -> (r: (SequenceCompositeNode, Result<
        TickStatus,
        TickError,
    >))
        ensures
            r.1 == tick_status_spec(BTNode::Composite(CompositeBTNode::Sequence(self))).0,
            final(log)@ == old(log)@ + tick_status_spec(
                BTNode::Composite(CompositeBTNode::Sequence(self)),
            ).1,
            bt_size(BTNode::Composite(CompositeBTNode::Sequence(r.0))) == bt_size(
                BTNode::Composite(CompositeBTNode::Sequence(self)),
            ),
            seq_tick_rel(self, r.0),
        decreases bt_size(BTNode::Composite(CompositeBTNode::Sequence(self))), 0int,
    {
        let ghost whole = BTNode::Composite(CompositeBTNode::Sequence(self));
        let SequenceCompositeNode { bt_node_id, mut children, cursor } = self;
        if cursor >= children.len() {
            proof {
                assert(old(log)@ + tick_status_spec(whole).1 =~= old(log)@);
                assert(seq_stop(self.children@, self.cursor as int) == self.children@.len());
            }
            return (
                SequenceCompositeNode { bt_node_id, children, cursor: 0 },
                Ok(TickStatus::Success),
            );
        }
        let mut i: usize = cursor;
        proof {
            assert(tick_status_spec(whole) == seq_status_spec(
                children@.subrange(cursor as int, children@.len() as int),
            ));
        }
        loop
            invariant
                whole == BTNode::Composite(CompositeBTNode::Sequence(self)),
                cursor <= i <= children@.len(),
                tick_status_spec(whole).0 == seq_status_spec(
                    children@.subrange(i as int, children@.len() as int),
                ).0,
                old(log)@ + tick_status_spec(whole).1 == log@ + seq_status_spec(
                    children@.subrange(i as int, children@.len() as int),
                ).1,
                bt_size(whole) == 1 + bt_seq_size(children@),
                children@.len() == self.children@.len(),
                cursor == self.cursor,
                bt_node_id == self.bt_node_id,
                self.cursor < self.children@.len(),
                forall|t: int|
                    cursor <= t < i ==> tick_status_spec(#[trigger] self.children@[t]).0 == Ok::<
                        TickStatus,
                        TickError,
                    >(TickStatus::Success),
                forall|t: int|
                    cursor <= t < i ==> tick_rel(#[trigger] self.children@[t], children@[t]),
                forall|t: int|
                    0 <= t < children@.len() && (t < cursor || t >= i) ==> children@[t]
                        == #[trigger] self.children@[t],
            decreases children@.len() - i,
        {
            if i >= children.len() {
                proof {
                    assert(children@.subrange(i as int, children@.len() as int).len() == 0);
                    assert(seq_status_spec(children@.subrange(i as int, children@.len() as int))
                        == (Ok::<TickStatus, TickError>(TickStatus::Success), Seq::<
                        LogEntry,
                    >::empty()));
                    assert(log@ + seq_status_spec(
                        children@.subrange(i as int, children@.len() as int),
                    ).1 =~= log@);
                    lemma_seq_stop_is(
                        self.children@,
                        self.cursor as int,
                        self.children@.len() as int,
                    );
                }
                let result_node = SequenceCompositeNode { bt_node_id, children, cursor: 0 };
                proof {
                    let stop = seq_stop(self.children@, self.cursor as int);
                    assert forall|t: int|
                        0 <= t < self.children@.len() && (t < self.cursor || t > stop)
                            implies result_node.children@[t] == self.children@[t] by {}
                    assert forall|t: int|
                        self.cursor <= t <= stop && t < self.children@.len() implies tick_rel(
                        self.children@[t],
                        result_node.children@[t],
                    ) by {}
                    assert(seq_tick_rel(self, result_node));
                }
                return (result_node, Ok(TickStatus::Success));
            }
            let ghost chs = children@;
            let ghost log_head = log@;
            proof {
                assert(chs.subrange(i as int, chs.len() as int)[0] == chs[i as int]);
                lemma_bt_seq_size_bound(chs, i as int);
            }
            let child = children.remove(i);
            let (child2, st) = child.tick(log);
            children.insert(i, child2);
            proof {
                assert(children@ =~= chs.update(i as int, child2));
                lemma_bt_seq_size_update(chs, i as int, child2);
            }
            proof {
                assert(chs[i as int] == self.children@[i as int]);
            }
            match st {
                Err(e) => {
                    proof {
                        assert(seq_status_spec(chs.subrange(i as int, chs.len() as int)).0
                            == Err::<TickStatus, TickError>(
                            TickError::ChildTickError(Box::new(e)),
                        ));
                        lemma_seq_stop_is(self.children@, self.cursor as int, i as int);
                    }
                    let result_node = SequenceCompositeNode { bt_node_id, children, cursor };
                    proof {
                        assert(seq_stop(self.children@, self.cursor as int) == i as int);
                        assert forall|t: int|
                            0 <= t < self.children@.len() && (t < self.cursor || t > i as int)
                                implies result_node.children@[t] == self.children@[t] by {
                            assert(result_node.children@[t] == chs[t]);
                        }
                        assert forall|t: int|
                            self.cursor <= t <= i as int && t < self.children@.len()
                                implies tick_rel(
                            self.children@[t],
                            result_node.children@[t],
                        ) by {
                            if t < i as int {
                                assert(result_node.children@[t] == chs[t]);
                            } else {
                                assert(result_node.children@[t] == child2);
                            }
                        }
                        assert(seq_tick_rel(self, result_node));
                    }
                    return (result_node, Err(TickError::ChildTickError(Box::new(e))));
                },
                Ok(TickStatus::Failure) => {
                    proof {
                        lemma_seq_stop_is(self.children@, self.cursor as int, i as int);
                    }
                    let result_node = SequenceCompositeNode { bt_node_id, children, cursor: 0 };
                    proof {
                        assert(seq_stop(self.children@, self.cursor as int) == i as int);
                        assert forall|t: int|
                            0 <= t < self.children@.len() && (t < self.cursor || t > i as int)
                                implies result_node.children@[t] == self.children@[t] by {
                            assert(result_node.children@[t] == chs[t]);
                        }
                        assert forall|t: int|
                            self.cursor <= t <= i as int && t < self.children@.len()
                                implies tick_rel(
                            self.children@[t],
                            result_node.children@[t],
                        ) by {
                            if t < i as int {
                                assert(result_node.children@[t] == chs[t]);
                            } else {
                                assert(result_node.children@[t] == child2);
                            }
                        }
                        assert(seq_tick_rel(self, result_node));
                    }
                    return (result_node, Ok(TickStatus::Failure));
                },
                Ok(TickStatus::Running) => {
                    proof {
                        lemma_seq_stop_is(self.children@, self.cursor as int, i as int);
                    }
                    return (
                        SequenceCompositeNode { bt_node_id, children, cursor: i },
                        Ok(TickStatus::Running),
                    );
                },
                Ok(TickStatus::Success) => {
                    proof {
                        let lg = tick_status_spec(chs[i as int]).1;
                        let rest = seq_status_spec(
                            chs.subrange(i + 1, chs.len() as int),
                        ).1;
                        assert(chs.subrange(i as int, chs.len() as int).subrange(
                            1,
                            chs.len() - i,
                        ) =~= chs.subrange(i + 1, chs.len() as int));
                        assert(children@.subrange(i + 1, children@.len() as int) =~= chs.subrange(
                            i + 1,
                            chs.len() as int,
                        ));
                        assert((log_head + lg) + rest =~= log_head + (lg + rest));
                    }
                    i += 1;
                },
            }
        }
    }
}

/// Collects the definition's node ids, in pre-order, into `out`.
fn collect_def_ids(def: &BTNodeDefinition, out: &mut Vec<i32>)
    ensures
        final(out)@ == old(out)@ + def_ids_spec(*def),
    decreases def_size(*def),
{
    match def {
        BTNodeDefinition::PrintLog(p) => {
            out.push(p.bt_node_id);
        },
        BTNodeDefinition::ExecuteSubTree(e) => {
            out.push(e.bt_node_id);
        },
        BTNodeDefinition::Sequence(sq) => {
            out.push(sq.bt_node_id);
            let mut j: usize = 0;
            proof {
                assert((old(out)@ + seq![sq.bt_node_id]) + def_seq_ids(sq.children@) =~= old(out)@
                    + (seq![sq.bt_node_id] + def_seq_ids(sq.children@)));
                assert(sq.children@.subrange(0, sq.children@.len() as int) =~= sq.children@);
            }
            while j < sq.children.len()
                invariant
                    0 <= j <= sq.children@.len(),
                    def_ids_spec(*def) == seq![sq.bt_node_id] + def_seq_ids(sq.children@),
                    def_size(*def) == 1 + def_seq_size(sq.children@),
                    out@ + def_seq_ids(
                        sq.children@.subrange(j as int, sq.children@.len() as int),
                    ) == old(out)@ + def_ids_spec(*def),
                decreases sq.children@.len() - j,
            {
                let ghost pre = out@;
                let ghost suffix = sq.children@.subrange(j as int, sq.children@.len() as int);
                proof {
                    assert(suffix[0] == sq.children@[j as int]);
                    lemma_def_seq_size_bound(sq.children@, j as int);
                }
                collect_def_ids(&sq.children[j], out);
                proof {
                    assert(suffix.subrange(1, suffix.len() as int) =~= sq.children@.subrange(
                        j + 1,
                        sq.children@.len() as int,
                    ));
                    assert((pre + def_ids_spec(sq.children@[j as int])) + def_seq_ids(
                        sq.children@.subrange(j + 1, sq.children@.len() as int),
                    ) =~= pre + (def_ids_spec(sq.children@[j as int]) + def_seq_ids(
                        sq.children@.subrange(j + 1, sq.children@.len() as int),
                    )));
                }
                j += 1;
            }
            proof {
                assert(def_seq_ids(
                    sq.children@.subrange(
                        sq.children@.len() as int,
                        sq.children@.len() as int,
                    ),
                ) =~= Seq::<i32>::empty());
                assert(out@ + Seq::<i32>::empty() =~= out@);
            }
        },
    }
}

/// Returns a node id that occurs twice in the list, or `None` when all ids
/// are distinct.
fn find_duplicate(ids: &Vec<i32>) -> (r: Option<i32>)
    ensures
        r is None <==> ids@.no_duplicates(),
{
    let mut a: usize = 0;
    while a < ids.len()
        invariant
            0 <= a <= ids@.len(),
            forall|i: int, j: int| #![trigger ids@[i], ids@[j]]
                0 <= i < a && i < j < ids@.len() ==> ids@[i] != ids@[j],
        decreases ids@.len() - a,
    {
        let mut b: usize = a + 1;
        while b < ids.len()
            invariant
                0 <= a < ids@.len(),
                a < b <= ids@.len(),
                forall|i: int, j: int| #![trigger ids@[i], ids@[j]]
                    0 <= i < a && i < j < ids@.len() ==> ids@[i] != ids@[j],
                forall|j: int| a < j < b ==> ids@[a as int] != #[trigger] ids@[j],
            decreases ids@.len() - b,
        {
            if ids[a] == ids[b] {
                return Some(ids[a]);
            }
            b += 1;
        }
        a += 1;
    }
    proof {
        assert forall|i: int, j: int|
            0 <= i < ids@.len() && 0 <= j < ids@.len() && i != j implies ids@[i] != ids@[j] by {
            if i < j {
                assert(ids@[i] != ids@[j]);
            } else {
                assert(ids@[j] != ids@[i]);
            }
        }
    }
    None
}

/// The first sub-tree definition tagged with `subtree_id`, if any.
pub open spec fn sub_lookup(subs: Seq<(i32, TreeDefinition)>, subtree_id: i32) -> Option<
    TreeDefinition,
>
    decreases subs.len(),
{
    if subs.len() == 0 {
        None
    } else if subs[0].0 == subtree_id {
        Some(subs[0].1)
    } else {
        sub_lookup(subs.subrange(1, subs.len() as int), subtree_id)
    }
}

/// Whether expanding `def` succeeds, and with which error it fails first:
/// an `ExecuteSubTree` whose subtree id has no definition is
/// `UnknownSubTree`; one nesting deeper than the fuel is `SubTreeCycle`; a
/// childless `Sequence` is `EmptyComposite`; children are tried in order
/// and the first failure decides.
pub open spec fn expand_ok(
    d: BTNodeDefinition,
    subs: Seq<(i32, TreeDefinition)>,
    fuel: nat,
) -> Result<(), BuildError>
    decreases fuel, def_size(d), 0int, 0int,
{
    match d {
        BTNodeDefinition::PrintLog(_) => Ok(()),
        BTNodeDefinition::ExecuteSubTree(e) => match sub_lookup(subs, e.subtree_id) {
            None => Err(BuildError::UnknownSubTree(e.subtree_id)),
            Some(td) => {
                if fuel == 0 {
                    Err(BuildError::SubTreeCycle(e.subtree_id))
                } else {
                    expand_ok(td.root, subs, (fuel - 1) as nat)
                }
            },
        },
        BTNodeDefinition::Sequence(sq) => {
            if sq.children@.len() == 0 {
                Err(BuildError::EmptyComposite(sq.bt_node_id))
            } else {
                expand_ok_children(sq.children@, subs, fuel)
            }
        },
    }
}

pub open spec fn expand_ok_children(
    ds: Seq<BTNodeDefinition>,
    subs: Seq<(i32, TreeDefinition)>,
    fuel: nat,
) -> Result<(), BuildError>
    decreases fuel, def_seq_size(ds), 1int, ds.len(),
{
    if ds.len() == 0 {
        Ok(())
    } else {
        match expand_ok(ds[0], subs, fuel) {
            Err(e) => Err(e),
            Ok(_) => expand_ok_children(ds.subrange(1, ds.len() as int), subs, fuel),
        }
    }
}

/// The node ids a successful expansion emits, in pre-order, with sub-trees
/// inlined at their references.
pub open spec fn expand_ids(
    d: BTNodeDefinition,
    subs: Seq<(i32, TreeDefinition)>,
    fuel: nat,
) -> Seq<i32>
    decreases fuel, def_size(d), 0int, 0int,
{
    match d {
        BTNodeDefinition::PrintLog(p) => seq![p.bt_node_id],
        BTNodeDefinition::ExecuteSubTree(e) => match sub_lookup(subs, e.subtree_id) {
            None => seq![e.bt_node_id],
            Some(td) => {
                if fuel == 0 {
                    seq![e.bt_node_id]
                } else {
                    seq![e.bt_node_id] + expand_ids(td.root, subs, (fuel - 1) as nat)
                }
            },
        },
        BTNodeDefinition::Sequence(sq) => seq![sq.bt_node_id] + expand_ids_children(
            sq.children@,
            subs,
            fuel,
        ),
    }
}

pub open spec fn expand_ids_children(
    ds: Seq<BTNodeDefinition>,
    subs: Seq<(i32, TreeDefinition)>,
    fuel: nat,
) -> Seq<i32>
    decreases fuel, def_seq_size(ds), 1int, ds.len(),
{
    if ds.len() == 0 {
        Seq::empty()
    } else {
        expand_ids(ds[0], subs, fuel) + expand_ids_children(
            ds.subrange(1, ds.len() as int),
            subs,
            fuel,
        )
    }
}

/// The instance a successful expansion returns: `n` is the expansion of
/// `d`, with every `ExecuteSubTree` holding the expansion of its resolved
/// sub-tree root and every `Sequence` starting at cursor 0. Expansion is
/// deterministic, so this relation pins the built node completely.
pub open spec fn expand_rel(
    d: BTNodeDefinition,
    subs: Seq<(i32, TreeDefinition)>,
    fuel: nat,
    n: BTNode,
) -> bool
    decreases fuel, def_size(d), 0int, 0int,
{
    match d {
        BTNodeDefinition::PrintLog(p) => match n {
            BTNode::Action(ActionBTNode::PrintLog(q)) => q.bt_node_id == p.bt_node_id
                && q.message == p.message,
            _ => false,
        },
        BTNodeDefinition::ExecuteSubTree(e) => match n {
            BTNode::Action(ActionBTNode::ExecuteSubTree(x)) => {
                &&& x.bt_node_id == e.bt_node_id
                &&& match sub_lookup(subs, e.subtree_id) {
                    Some(td) => fuel > 0 && expand_rel(
                        td.root,
                        subs,
                        (fuel - 1) as nat,
                        *x.subtree_root,
                    ),
                    None => false,
                }
            },
            _ => false,
        },
        BTNodeDefinition::Sequence(sq) => match n {
            BTNode::Composite(CompositeBTNode::Sequence(s2)) => {
                &&& s2.bt_node_id == sq.bt_node_id
                &&& s2.cursor == 0
                &&& expand_rel_children(sq.children@, subs, fuel, s2.children@)
            },
            _ => false,
        },
    }
}

pub open spec fn expand_rel_children(
    ds: Seq<BTNodeDefinition>,
    subs: Seq<(i32, TreeDefinition)>,
    fuel: nat,
    ns: Seq<BTNode>,
) -> bool
    decreases fuel, def_seq_size(ds), 1int, ds.len(),
{
    if ds.len() == 0 {
        ns.len() == 0
    } else {
        &&& ns.len() == ds.len()
        &&& expand_rel(ds[0], subs, fuel, ns[0])
        &&& expand_rel_children(
            ds.subrange(1, ds.len() as int),
            subs,
            fuel,
            ns.subrange(1, ns.len() as int),
        )
    }
}

proof fn lemma_rel_children_pointwise(
    ds: Seq<BTNodeDefinition>,
    subs: Seq<(i32, TreeDefinition)>,
    fuel: nat,
    ns: Seq<BTNode>,
)
    requires
        ds.len() == ns.len(),
        forall|u: int| 0 <= u < ds.len() ==> expand_rel(#[trigger] ds[u], subs, fuel, ns[u]),
    ensures
        expand_rel_children(ds, subs, fuel, ns),
    decreases ds.len(),
{
    if ds.len() > 0 {
        let dt = ds.subrange(1, ds.len() as int);
        let nt = ns.subrange(1, ns.len() as int);
        assert forall|u: int| 0 <= u < dt.len() implies expand_rel(
            #[trigger] dt[u],
            subs,
            fuel,
            nt[u],
        ) by {
            assert(dt[u] == ds[u + 1]);
            assert(nt[u] == ns[u + 1]);
        }
        lemma_rel_children_pointwise(dt, subs, fuel, nt);
    }
}

/// Builds the instance of one definition, inlining `ExecuteSubTree`
/// references from `subtrees` and appending every node id encountered to
/// `ids`. `fuel` bounds the nesting depth of sub-tree references; the entry
/// point supplies one unit per sub-tree definition, which only a cycle
/// among the sub-trees can exhaust.
fn expand(
    def: &BTNodeDefinition,
    subtrees: &Vec<(i32, TreeDefinition)>,
    fuel: usize,
    ids: &mut Vec<i32>,
) -> (r: Result<BTNode, BuildError>)
    ensures
        (match r {
            Ok(_) => expand_ok(*def, subtrees@, fuel as nat) is Ok,
            Err(e) => expand_ok(*def, subtrees@, fuel as nat) == Err::<(), BuildError>(e),
        }),
        r matches Ok(n) ==> expand_rel(*def, subtrees@, fuel as nat, n),
        r is Ok ==> final(ids)@ == old(ids)@ + expand_ids(*def, subtrees@, fuel as nat),
        !(r matches Err(BuildError::DuplicateNodeId(_))),
    decreases fuel, def_size(*def),
{
    match def {
        BTNodeDefinition::PrintLog(p) => {
            ids.push(p.bt_node_id);
            proof {
                assert(old(ids)@.push(p.bt_node_id) =~= old(ids)@ + seq![p.bt_node_id]);
            }
            Ok(
                BTNode::Action(
                    ActionBTNode::PrintLog(
                        PrintLogActionNode {
                            bt_node_id: p.bt_node_id,
                            message: p.message.clone(),
                        },
                    ),
                ),
            )
        },
        BTNodeDefinition::ExecuteSubTree(e) => {
            ids.push(e.bt_node_id);
            let mut t: usize = 0;
            proof {
                assert(subtrees@.subrange(0, subtrees@.len() as int) =~= subtrees@);
            }
            while t < subtrees.len()
                invariant
                    0 <= t <= subtrees@.len(),
                    *def == BTNodeDefinition::ExecuteSubTree(*e),
                    ids@ == old(ids)@ + seq![e.bt_node_id],
                    sub_lookup(subtrees@, e.subtree_id) == sub_lookup(
                        subtrees@.subrange(t as int, subtrees@.len() as int),
                        e.subtree_id,
                    ),
                decreases subtrees@.len() - t,
            {
                proof {
                    assert(subtrees@.subrange(t as int, subtrees@.len() as int)[0] == subtrees@[
                        t as int]);
                }
                if subtrees[t].0 == e.subtree_id {
                    proof {
                        assert(sub_lookup(subtrees@, e.subtree_id) == Some(
                            subtrees@[t as int].1,
                        ));
                    }
                    if fuel == 0 {
                        return Err(BuildError::SubTreeCycle(e.subtree_id));
                    }
                    return match expand(&subtrees[t].1.root, subtrees, fuel - 1, ids) {
                        Ok(sub) => {
                            let node = BTNode::Action(
                                ActionBTNode::ExecuteSubTree(
                                    ExecuteSubTreeActionNode {
                                        bt_node_id: e.bt_node_id,
                                        subtree_root: Box::new(sub),
                                    },
                                ),
                            );
                            proof {
                                assert((old(ids)@ + seq![e.bt_node_id]) + expand_ids(
                                    subtrees@[t as int].1.root,
                                    subtrees@,
                                    (fuel - 1) as nat,
                                ) =~= old(ids)@ + (seq![e.bt_node_id] + expand_ids(
                                    subtrees@[t as int].1.root,
                                    subtrees@,
                                    (fuel - 1) as nat,
                                )));
                            }
                            Ok(node)
                        },
                        Err(err) => Err(err),
                    };
                }
                proof {
                    assert(subtrees@.subrange(t as int, subtrees@.len() as int).subrange(
                        1,
                        subtrees@.len() - t,
                    ) =~= subtrees@.subrange(t + 1, subtrees@.len() as int));
                }
                t += 1;
            }
            proof {
                assert(subtrees@.subrange(
                    subtrees@.len() as int,
                    subtrees@.len() as int,
                ).len() == 0);
            }
            Err(BuildError::UnknownSubTree(e.subtree_id))
        },
        BTNodeDefinition::Sequence(sq) => {
            ids.push(sq.bt_node_id);
            if sq.children.len() == 0 {
                return Err(BuildError::EmptyComposite(sq.bt_node_id));
            }
            let mut built: Vec<BTNode> = Vec::new();
            let mut j: usize = 0;
            proof {
                assert(sq.children@.subrange(0, sq.children@.len() as int) =~= sq.children@);
            }
            while j < sq.children.len()
                invariant
                    0 <= j <= sq.children@.len(),
                    *def == BTNodeDefinition::Sequence(*sq),
                    sq.children@.len() > 0,
                    def_size(*def) == 1 + def_seq_size(sq.children@),
                    built@.len() == j,
                    forall|u: int|
                        0 <= u < j ==> expand_rel(
                            #[trigger] sq.children@[u],
                            subtrees@,
                            fuel as nat,
                            built@[u],
                        ),
                    expand_ok_children(sq.children@, subtrees@, fuel as nat)
                        == expand_ok_children(
                        sq.children@.subrange(j as int, sq.children@.len() as int),
                        subtrees@,
                        fuel as nat,
                    ),
                    old(ids)@ + seq![sq.bt_node_id] + expand_ids_children(
                        sq.children@,
                        subtrees@,
                        fuel as nat,
                    ) == ids@ + expand_ids_children(
                        sq.children@.subrange(j as int, sq.children@.len() as int),
                        subtrees@,
                        fuel as nat,
                    ),
                decreases sq.children@.len() - j,
            {
                proof {
                    lemma_def_seq_size_bound(sq.children@, j as int);
                    assert(sq.children@.subrange(j as int, sq.children@.len() as int)[0]
                        == sq.children@[j as int]);
                }
                let ghost ids_pre = ids@;
                match expand(&sq.children[j], subtrees, fuel, ids) {
                    Ok(node) => {
                        built.push(node);
                        proof {
                            assert(sq.children@.subrange(
                                j as int,
                                sq.children@.len() as int,
                            ).subrange(1, sq.children@.len() - j) =~= sq.children@.subrange(
                                j + 1,
                                sq.children@.len() as int,
                            ));
                            assert((ids_pre + expand_ids(
                                sq.children@[j as int],
                                subtrees@,
                                fuel as nat,
                            )) + expand_ids_children(
                                sq.children@.subrange(j + 1, sq.children@.len() as int),
                                subtrees@,
                                fuel as nat,
                            ) =~= ids_pre + (expand_ids(
                                sq.children@[j as int],
                                subtrees@,
                                fuel as nat,
                            ) + expand_ids_children(
                                sq.children@.subrange(j + 1, sq.children@.len() as int),
                                subtrees@,
                                fuel as nat,
                            )));
                        }
                    },
                    Err(err) => {
                        return Err(err);
                    },
                }
                j += 1;
            }
            let node = BTNode::Composite(
                CompositeBTNode::Sequence(
                    SequenceCompositeNode { bt_node_id: sq.bt_node_id, children: built, cursor: 0 },
                ),
            );
            proof {
                assert(sq.children@.subrange(
                    sq.children@.len() as int,
                    sq.children@.len() as int,
                ).len() == 0);
                lemma_rel_children_pointwise(sq.children@, subtrees@, fuel as nat, built@);
                assert((old(ids)@ + seq![sq.bt_node_id]) + expand_ids_children(
                    sq.children@,
                    subtrees@,
                    fuel as nat,
                ) =~= old(ids)@ + (seq![sq.bt_node_id] + expand_ids_children(
                    sq.children@,
                    subtrees@,
                    fuel as nat,
                )));
                assert(ids@ + Seq::<i32>::empty() =~= ids@);
            }
            Ok(node)
        },
    }
}

/// Builds a runnable tree from a root definition and a set of sub-tree
/// definitions tagged with their subtree ids, and returns it together with
/// every node id encountered, in pre-order, for pre-registration with the
/// reactive service. The build succeeds iff every provided definition is
/// free of duplicate node ids and the expansion resolves: every
/// `ExecuteSubTree` has a matching sub-tree definition, no `Sequence` is
/// childless, and sub-tree references do not nest past the number of
/// sub-tree definitions (only a cycle can). On success the returned
/// instance is exactly the expansion of the root definition
/// ([`expand_rel`]) and the ids are [`expand_ids`]; on failure the error is
/// `DuplicateNodeId` for a duplicate, else exactly the first error of the
/// expansion ([`expand_ok`]).
pub fn build_tree(tree: &TreeDefinition, subtrees: &Vec<(i32, TreeDefinition)>) -> (res: Result<
    (BTNode, Vec<i32>),
    BuildError,
>)
    ensures
        res is Ok <==> (def_ids_spec(tree.root).no_duplicates() && (forall|t: int|
            0 <= t < subtrees@.len() ==> def_ids_spec(
                #[trigger] subtrees@[t].1.root,
            ).no_duplicates()) && expand_ok(tree.root, subtrees@, subtrees@.len() as nat) is Ok),
        res matches Ok(p) ==> expand_rel(
            tree.root,
            subtrees@,
            subtrees@.len() as nat,
            p.0,
        ) && p.1@ == expand_ids(tree.root, subtrees@, subtrees@.len() as nat),
        !def_ids_spec(tree.root).no_duplicates() ==> res matches Err(
            BuildError::DuplicateNodeId(_),
        ),
        res matches Err(BuildError::DuplicateNodeId(_)) ==> !(def_ids_spec(
            tree.root,
        ).no_duplicates() && (forall|t: int|
            0 <= t < subtrees@.len() ==> def_ids_spec(
                #[trigger] subtrees@[t].1.root,
            ).no_duplicates())),
        (def_ids_spec(tree.root).no_duplicates() && (forall|t: int|
            0 <= t < subtrees@.len() ==> def_ids_spec(
                #[trigger] subtrees@[t].1.root,
            ).no_duplicates()) && expand_ok(tree.root, subtrees@, subtrees@.len() as nat) is Err)
            ==> res == Err::<(BTNode, Vec<i32>), BuildError>(
            expand_ok(tree.root, subtrees@, subtrees@.len() as nat)->Err_0,
        ),
{
    let mut root_ids: Vec<i32> = Vec::new();
    collect_def_ids(&tree.root, &mut root_ids);
    proof {
        assert(root_ids@ =~= def_ids_spec(tree.root));
    }
    if let Some(d) = find_duplicate(&root_ids) {
        return Err(BuildError::DuplicateNodeId(d));
    }
    let mut t: usize = 0;
    while t < subtrees.len()
        invariant
            0 <= t <= subtrees@.len(),
            forall|u: int|
                0 <= u < t ==> def_ids_spec(#[trigger] subtrees@[u].1.root).no_duplicates(),
        decreases subtrees@.len() - t,
    {
        let mut sub_ids: Vec<i32> = Vec::new();
        collect_def_ids(&subtrees[t].1.root, &mut sub_ids);
        proof {
            assert(sub_ids@ =~= def_ids_spec(subtrees@[t as int].1.root));
        }
        if let Some(d) = find_duplicate(&sub_ids) {
            return Err(BuildError::DuplicateNodeId(d));
        }
        t += 1;
    }
    let mut all_ids: Vec<i32> = Vec::new();
    match expand(&tree.root, subtrees, subtrees.len(), &mut all_ids) {
        Ok(root) => {
            proof {
                assert(all_ids@ =~= expand_ids(tree.root, subtrees@, subtrees@.len() as nat));
            }
            Ok((root, all_ids))
        },
        Err(err) => Err(err),
    }
}

} // verus!
