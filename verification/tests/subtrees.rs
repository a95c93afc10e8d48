use buttercup::bt::{
    build_tree, BTNode, BTNodeDefinition, BuildError, ExecuteSubTreeActionNodeDefinition,
    LogEntry, PrintLogActionNodeDefinition, SequenceCompositeNodeDefinition, TickStatus,
    TreeDefinition,
};

fn one_off_root_tree(id: i32, mut children: Vec<BTNodeDefinition>) -> TreeDefinition {
    if children.len() == 1 {
        TreeDefinition::new(id, children.remove(0))
    } else {
        TreeDefinition::new(
            id,
            BTNodeDefinition::Sequence(SequenceCompositeNodeDefinition::new(id, children)),
        )
    }
}

fn one_off_root_tree_with_id(
    id: i32,
    children: Vec<BTNodeDefinition>,
    subtree_id: i32,
) -> (i32, TreeDefinition) {
    (subtree_id, one_off_root_tree(id, children))
}

fn build_with_subtrees(
    tree_definition: TreeDefinition,
    subtrees: Vec<(i32, TreeDefinition)>,
) -> Result<(BTNode, Vec<i32>), BuildError> {
    build_tree(&tree_definition, &subtrees)
}

#[test]
fn test_builds_subtree_node_correctly() {
    let subtree_id = 10;

    let tree_definition = one_off_root_tree(
        2,
        vec![BTNodeDefinition::ExecuteSubTree(
            ExecuteSubTreeActionNodeDefinition::new(2, subtree_id),
        )],
    );

    build_with_subtrees(
        tree_definition,
        vec![one_off_root_tree_with_id(
            2,
            vec![BTNodeDefinition::PrintLog(PrintLogActionNodeDefinition::new(
                2,
                "I'm a subtree!".to_owned(),
            ))],
            subtree_id,
        )],
    )
    .expect("Expected the build to succeed!");
}

#[test]
fn test_builds_multiple_subtree_nodes_correctly() {

}

#[test]
fn ticking_a_built_subtree_logs_its_message_exactly_once() {
    let subtree_id = 10;
    let tree_definition = one_off_root_tree(
        2,
        vec![BTNodeDefinition::ExecuteSubTree(
            ExecuteSubTreeActionNodeDefinition::new(2, subtree_id),
        )],
    );
    let (root, ids) = build_with_subtrees(
        tree_definition,
        vec![one_off_root_tree_with_id(
            2,
            vec![BTNodeDefinition::PrintLog(PrintLogActionNodeDefinition::new(
                2,
                "I'm a subtree!".to_owned(),
            ))],
            subtree_id,
        )],
    )
    .expect("Expected the build to succeed!");
    assert_eq!(vec![2, 2], ids);
    let mut log: Vec<LogEntry> = Vec::new();
    let (_root, status) = root.tick(&mut log);
    assert_eq!(TickStatus::Success, status.unwrap());
    assert_eq!(1, log.len());
    assert_eq!(2, log[0].bt_node_id);
    assert_eq!("I'm a subtree!", log[0].message);
}

#[test]
fn build_fails_on_unknown_subtree() {
    let tree_definition = one_off_root_tree(
        1,
        vec![BTNodeDefinition::ExecuteSubTree(
            ExecuteSubTreeActionNodeDefinition::new(1, 77),
        )],
    );
    let result = build_with_subtrees(tree_definition, vec![]);
    assert!(matches!(result, Err(BuildError::UnknownSubTree(77))));
}

#[test]
fn build_fails_on_duplicate_node_id() {
    let tree_definition = TreeDefinition::new(
        1,
        BTNodeDefinition::Sequence(SequenceCompositeNodeDefinition::new(
            3,
            vec![
                BTNodeDefinition::PrintLog(PrintLogActionNodeDefinition::new(3, "a".to_owned())),
                BTNodeDefinition::PrintLog(PrintLogActionNodeDefinition::new(4, "b".to_owned())),
            ],
        )),
    );
    let result = build_with_subtrees(tree_definition, vec![]);
    assert!(matches!(result, Err(BuildError::DuplicateNodeId(3))));
}

#[test]
fn build_fails_on_empty_composite() {
    let tree_definition = TreeDefinition::new(
        1,
        BTNodeDefinition::Sequence(SequenceCompositeNodeDefinition::new(5, vec![])),
    );
    let result = build_with_subtrees(tree_definition, vec![]);
    assert!(matches!(result, Err(BuildError::EmptyComposite(5))));
}

#[test]
fn build_fails_on_subtree_cycle() {
    let tree_definition = one_off_root_tree(
        1,
        vec![BTNodeDefinition::ExecuteSubTree(
            ExecuteSubTreeActionNodeDefinition::new(1, 10),
        )],
    );
    let cyclic_subtree = (
        10,
        TreeDefinition::new(
            10,
            BTNodeDefinition::ExecuteSubTree(ExecuteSubTreeActionNodeDefinition::new(6, 10)),
        ),
    );
    let result = build_with_subtrees(tree_definition, vec![cyclic_subtree]);
    assert!(matches!(result, Err(BuildError::SubTreeCycle(10))));
}

#[test]
fn sequence_runs_children_in_order() {
    let tree_definition = TreeDefinition::new(
        1,
        BTNodeDefinition::Sequence(SequenceCompositeNodeDefinition::new(
            1,
            vec![
                BTNodeDefinition::PrintLog(PrintLogActionNodeDefinition::new(2, "one".to_owned())),
                BTNodeDefinition::PrintLog(PrintLogActionNodeDefinition::new(3, "two".to_owned())),
            ],
        )),
    );
    let (root, ids) = build_tree(&tree_definition, &vec![]).unwrap();
    assert_eq!(vec![1, 2, 3], ids);
    let mut log: Vec<LogEntry> = Vec::new();
    let (_root, status) = root.tick(&mut log);
    assert_eq!(TickStatus::Success, status.unwrap());
    assert_eq!(
        vec![("one".to_owned(), 2), ("two".to_owned(), 3)],
        log.iter()
            .map(|e| (e.message.clone(), e.bt_node_id))
            .collect::<Vec<_>>()
    );
}
