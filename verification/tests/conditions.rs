use buttercup::address::{ContentCommandAddress, SelectionEdgeAddress, SelectionNodeAddress};
use buttercup::conditions::{
    compare_values, Condition, ConditionEvaluationError, ConditionValue,
};
use buttercup::edges::{
    AlwaysTrueSelectionEdge, SelectionEdge, SelectionEdgeDefinition, SelectionEdgeType,
};
use buttercup::nodes::{
    DictionaryNodeMapping, DictionarySelectionNode, DictionarySelectionNodeDetails,
    MockSelectionNodesContext, SelectionNode, SelectionNodeDefinition, SelectionNodeError,
    SimpleSelectionNode, SimpleSelectionNodeDetails,
};
use buttercup::operators::RelationalOperator;
use buttercup::tree::{SelectionTreeEvaluator, SelectionTreeError};
use buttercup::values::{Rational, ValueHolder, ValuesPayload};

fn rat(num: i64, den: i64) -> ValueHolder {
    ValueHolder::Decimal(Rational::from_parts(num, den).unwrap())
}

#[test]
fn decimal_equality_is_by_value() {
    assert_eq!(
        Ok(true),
        compare_values(&rat(1, 2), &rat(2, 4), &RelationalOperator::Equals)
    );
    assert_eq!(
        Ok(false),
        compare_values(&rat(1, 2), &rat(2, 3), &RelationalOperator::Equals)
    );
}

#[test]
fn integer_and_decimal_compare_numerically() {
    // 21/2 = 10.5, so 10 < 21/2 but not 11 < 21/2.
    assert_eq!(
        Ok(true),
        compare_values(
            &ValueHolder::Integer(10),
            &rat(21, 2),
            &RelationalOperator::LessThan
        )
    );
    assert_eq!(
        Ok(false),
        compare_values(
            &ValueHolder::Integer(11),
            &rat(21, 2),
            &RelationalOperator::LessThan
        )
    );
    assert_eq!(
        Ok(true),
        compare_values(
            &rat(20, 2),
            &ValueHolder::Integer(10),
            &RelationalOperator::Equals
        )
    );
}

#[test]
fn cross_variant_comparison_is_an_error() {
    assert_eq!(
        Err(ConditionEvaluationError::IncompatibleValueTypes),
        compare_values(
            &ValueHolder::String("10".to_string()),
            &ValueHolder::Integer(10),
            &RelationalOperator::Equals
        )
    );
}

#[test]
fn string_operators_work_on_strings_only() {
    let left = ValueHolder::String("Borski".to_string());
    assert_eq!(
        Ok(true),
        compare_values(
            &left,
            &ValueHolder::String("ski".to_string()),
            &RelationalOperator::Contains
        )
    );
    assert_eq!(
        Ok(true),
        compare_values(
            &left,
            &ValueHolder::String("Bor".to_string()),
            &RelationalOperator::StartsWith
        )
    );
    assert_eq!(
        Ok(false),
        compare_values(
            &left,
            &ValueHolder::String("Bor".to_string()),
            &RelationalOperator::EndsWith
        )
    );
    assert_eq!(
        Err(ConditionEvaluationError::UnsupportedOperatorForType),
        compare_values(
            &ValueHolder::Integer(3),
            &ValueHolder::Integer(3),
            &RelationalOperator::Contains
        )
    );
}

#[test]
fn regex_matching_and_compile_errors() {
    let text = ValueHolder::String("aaab".to_string());
    let pattern = ValueHolder::String("^a+b$".to_string());
    assert_eq!(
        Ok(true),
        compare_values(&text, &pattern, &RelationalOperator::MatchesRegex)
    );
    let other = ValueHolder::String("xb".to_string());
    assert_eq!(
        Ok(false),
        compare_values(&other, &pattern, &RelationalOperator::MatchesRegex)
    );
    let bad = ValueHolder::String("(".to_string());
    assert_eq!(
        Err(ConditionEvaluationError::RegexCompileError("(".to_string())),
        compare_values(&text, &bad, &RelationalOperator::MatchesRegex)
    );
}

#[test]
fn list_contains_uses_value_equality() {
    let list = ValueHolder::List(vec![rat(1, 2), ValueHolder::Integer(4)]);
    assert_eq!(
        Ok(true),
        compare_values(&list, &rat(2, 4), &RelationalOperator::Contains)
    );
    assert_eq!(
        Ok(false),
        compare_values(&list, &rat(1, 3), &RelationalOperator::Contains)
    );
}

#[test]
fn condition_negation_and_missing_values() {
    let payload = ValuesPayload::new(vec![("x".to_string(), ValueHolder::Integer(3))]);
    let cond = Condition::new(
        0,
        "x".to_string(),
        RelationalOperator::GreaterThanOrEquals,
        true,
        ConditionValue::Static(ValueHolder::Integer(10)),
    );
    // 3 >= 10 is false; negated, the condition holds.
    assert_eq!(Ok(true), cond.evaluate(&payload));
    let missing_left = Condition::new(
        1,
        "y".to_string(),
        RelationalOperator::Equals,
        false,
        ConditionValue::Static(ValueHolder::Integer(1)),
    );
    assert_eq!(
        Err(ConditionEvaluationError::DidNotFindLeftValue("y".to_string())),
        missing_left.evaluate(&payload)
    );
    let missing_right = Condition::new(
        2,
        "x".to_string(),
        RelationalOperator::Equals,
        false,
        ConditionValue::Runtime("z".to_string()),
    );
    assert_eq!(
        Err(ConditionEvaluationError::DidNotFindRightValue("z".to_string())),
        missing_right.evaluate(&payload)
    );
}

fn dictionary_node() -> SelectionNode {
    SelectionNode::Dictionary(DictionarySelectionNode::new(
        SelectionNodeDefinition::new(1, "Dictionary".to_string()),
        vec![],
        DictionarySelectionNodeDetails::new(1, 9, "key".to_string()),
        DictionaryNodeMapping::new(
            ContentCommandAddress::new(9, 0),
            vec![
                (ValueHolder::Integer(1), ContentCommandAddress::new(11, 1)),
                (ValueHolder::Integer(2), ContentCommandAddress::new(12, 2)),
            ],
        ),
    ))
}

#[test]
fn dictionary_node_selects_mapped_default_or_errors() {
    let node = dictionary_node();
    let mock = MockSelectionNodesContext::new();

    let mapped = ValuesPayload::new(vec![("key".to_string(), ValueHolder::Integer(2))]);
    assert_eq!(
        Ok(ContentCommandAddress::new(12, 2)),
        node.select_content_command_id(&mapped, &mock)
    );

    let unmapped = ValuesPayload::new(vec![("key".to_string(), ValueHolder::Integer(7))]);
    assert_eq!(
        Ok(ContentCommandAddress::new(9, 0)),
        node.select_content_command_id(&unmapped, &mock)
    );

    let absent = ValuesPayload::new(vec![("other".to_string(), ValueHolder::Integer(2))]);
    assert_eq!(
        Err(SelectionNodeError::MissingDictionaryKey("key".to_string())),
        node.select_content_command_id(&absent, &mock)
    );
}

#[test]
fn edge_address_id_mismatch_is_detected() {
    // The start node points at edge slot 0 with the wrong id 99, while the
    // edge stored there carries id 0.
    let start_node = SelectionNode::Simple(SimpleSelectionNode::new(
        SelectionNodeDefinition::new(0, "Start".to_string()),
        vec![SelectionEdgeAddress::new(99, 0)],
        SimpleSelectionNodeDetails::new(0, 0),
        ContentCommandAddress::new(0, 0),
    ));
    let edges = vec![SelectionEdge::AlwaysTrueSelectionEdge(
        AlwaysTrueSelectionEdge::new(
            SelectionEdgeDefinition::new(0, 1, SelectionEdgeType::AlwaysTrueSelectionEdge),
            SelectionNodeAddress::new(1, 0),
        ),
    )];
    let evaluator = SelectionTreeEvaluator::new(start_node, vec![], edges);
    let payload = ValuesPayload::new(vec![]);
    let mock = MockSelectionNodesContext::new();
    assert_eq!(
        Err(SelectionTreeError::SelectionEdgeAddressIdMismatch(
            SelectionEdgeAddress::new(99, 0)
        )),
        evaluator.select_commands(&payload, &mock)
    );
}

#[test]
fn node_address_id_mismatch_is_detected() {
    // The edge leads to node slot 0 under id 5, but the node stored there
    // carries id 1: the id check catches the stale address.
    let start_node = SelectionNode::Simple(SimpleSelectionNode::new(
        SelectionNodeDefinition::new(0, "Start".to_string()),
        vec![SelectionEdgeAddress::new(0, 0)],
        SimpleSelectionNodeDetails::new(0, 0),
        ContentCommandAddress::new(0, 0),
    ));
    let nodes = vec![SelectionNode::Simple(SimpleSelectionNode::new(
        SelectionNodeDefinition::new(1, "Target".to_string()),
        vec![],
        SimpleSelectionNodeDetails::new(1, 1),
        ContentCommandAddress::new(1, 0),
    ))];
    let edges = vec![SelectionEdge::AlwaysTrueSelectionEdge(
        AlwaysTrueSelectionEdge::new(
            SelectionEdgeDefinition::new(0, 5, SelectionEdgeType::AlwaysTrueSelectionEdge),
            SelectionNodeAddress::new(5, 0),
        ),
    )];
    let evaluator = SelectionTreeEvaluator::new(start_node, nodes, edges);
    let payload = ValuesPayload::new(vec![]);
    let mock = MockSelectionNodesContext::new();
    assert_eq!(
        Err(SelectionTreeError::SelectionNodeAddressIdMismatch(
            SelectionNodeAddress::new(5, 0)
        )),
        evaluator.select_commands(&payload, &mock)
    );
}

#[test]
fn payload_lookup_takes_the_latest_binding() {
    let payload = ValuesPayload::new(vec![
        ("k".to_string(), ValueHolder::Integer(1)),
        ("k".to_string(), ValueHolder::Integer(2)),
    ]);
    assert!(matches!(
        payload.get(&"k".to_string()),
        Some(ValueHolder::Integer(2))
    ));
    assert!(payload.get(&"missing".to_string()).is_none());
}
