use buttercup::address::{
    ContentCommandAddress, ExpressionAddress, SelectionEdgeAddress, SelectionNodeAddress,
};
use buttercup::conditions::{Condition, ConditionEvaluationError, ConditionValue};
use buttercup::edges::{
    AlwaysTrueSelectionEdge, LogicalExpressionSelectionEdge, LogicalExpressionSelectionEdgeDetails,
    SelectionEdge, SelectionEdgeDefinition, SelectionEdgeError, SelectionEdgeType,
};
use buttercup::expressions::{
    Expression, ExpressionDefinition, ExpressionEvaluationError, NextExpressionAddressWithOperator,
};
use buttercup::nodes::{
    DictionaryNodeMapping, DictionarySelectionNode, DictionarySelectionNodeDetails,
    MockSelectionNodesContext, SelectionNode, SelectionNodeDefinition, SimpleSelectionNode,
    SimpleSelectionNodeDetails,
};
use buttercup::operators::{LogicalOperator, RelationalOperator};
use buttercup::tree::SelectionTreeEvaluator;
use buttercup::values::{Rational, ValueHolder, ValuesPayload, Weekday, WeekdayWrapper};

const FIRST_VALUE_NAME: &str = "firstValueName";
const SECOND_VALUE_NAME: &str = "secondValueName";
const THIRD_VALUE_NAME: &str = "thirdValueName";
const FOURTH_VALUE_NAME: &str = "fourthValueName";
const FIFTH_VALUE_NAME: &str = "fifthValueName";

/// The exact rational value of an `f64`, as the original fixtures obtained
/// through an arbitrary-precision rational type.
fn rational_from_f64(x: f64) -> Rational {
    assert!(x.is_finite() && x != 0.0);
    let bits = x.to_bits();
    let negative = (bits >> 63) == 1;
    let exp = ((bits >> 52) & 0x7ff) as i64;
    let frac = bits & ((1u64 << 52) - 1);
    assert!(exp != 0, "subnormals not needed here");
    let mut mantissa = frac | (1u64 << 52);
    let mut e = exp - 1075;
    while mantissa % 2 == 0 && e < 0 {
        mantissa /= 2;
        e += 1;
    }
    let (num, den): (i64, i64) = if e >= 0 {
        ((mantissa << e) as i64, 1)
    } else {
        assert!(-e <= 62 && mantissa <= i64::MAX as u64);
        (mantissa as i64, 1i64 << (-e))
    };
    let num = if negative { -num } else { num };
    Rational::from_parts(num, den).unwrap()
}

fn decimal(x: f64) -> ValueHolder {
    ValueHolder::Decimal(rational_from_f64(x))
}

#[test]
fn test_only_default_edge_match() {
    let evaluator = build_evaluator();
    let payload = build_payload(vec![
        (
            FIRST_VALUE_NAME.to_string(),
            ValueHolder::DayOfWeek(WeekdayWrapper::new(Weekday::Sat)),
        ),
        (SECOND_VALUE_NAME.to_string(), decimal(0.3215421213)),
        (THIRD_VALUE_NAME.to_string(), decimal(11.2)),
        (FOURTH_VALUE_NAME.to_string(), ValueHolder::Integer(11)),
        (
            FIFTH_VALUE_NAME.to_string(),
            ValueHolder::String("Borsm".to_string()),
        ),
    ]);
    let mock = MockSelectionNodesContext::new();
    check_command_ids(
        vec![0, 2, 7],
        evaluator.select_commands(&payload, &mock).unwrap(),
    );
}

#[test]
fn test_both_expression_edges_match() {
    let evaluator = build_evaluator();
    let payload = build_payload(vec![
        (
            FIRST_VALUE_NAME.to_string(),
            ValueHolder::DayOfWeek(WeekdayWrapper::new(Weekday::Sat)),
        ),
        (SECOND_VALUE_NAME.to_string(), decimal(0.3215421213)),
        (THIRD_VALUE_NAME.to_string(), decimal(0.3215421213)),
        (FOURTH_VALUE_NAME.to_string(), ValueHolder::Integer(11)),
        (
            FIFTH_VALUE_NAME.to_string(),
            ValueHolder::String("Borski".to_string()),
        ),
    ]);
    let mock = MockSelectionNodesContext::new();
    check_command_ids(
        vec![0, 1, 4],
        evaluator.select_commands(&payload, &mock).unwrap(),
    );
}

#[test]
fn test_err_empty_payload() {
    let evaluator = build_evaluator();
    let payload = build_payload(vec![]);
    let mock = MockSelectionNodesContext::new();
    let result = evaluator.select_commands(&payload, &mock);
    assert_eq!(true, result.is_err());
    assert_eq!(
        buttercup::tree::SelectionTreeError::SelectionEdgeError(
            SelectionEdgeError::LogicalExpressionSelectionEdgeError(
                ExpressionEvaluationError::ConditionEvaluationError(
                    ConditionEvaluationError::DidNotFindLeftValue(SECOND_VALUE_NAME.to_string())
                )
            )
        ),
        result.err().unwrap()
    );
}

fn build_evaluator() -> SelectionTreeEvaluator {
    let start_node: SelectionNode = SelectionNode::Simple(SimpleSelectionNode::new(
        SelectionNodeDefinition::new(0, "Starting Node".to_string()),
        vec![
            SelectionEdgeAddress::new(0, 0),
            SelectionEdgeAddress::new(1, 1),
        ],
        SimpleSelectionNodeDetails::new(0, 0),
        ContentCommandAddress::new(0, 0),
    ));
    let nodes: Vec<SelectionNode> = vec![
        SelectionNode::Simple(SimpleSelectionNode::new(
            SelectionNodeDefinition::new(1, "First After Condition Node".to_string()),
            vec![SelectionEdgeAddress::new(2, 2)],
            SimpleSelectionNodeDetails::new(1, 1),
            ContentCommandAddress::new(1, 0),
        )),
        SelectionNode::Simple(SimpleSelectionNode::new(
            SelectionNodeDefinition::new(2, "Second Default Node".to_string()),
            vec![SelectionEdgeAddress::new(3, 3)],
            SimpleSelectionNodeDetails::new(2, 2),
            ContentCommandAddress::new(2, 0),
        )),
        SelectionNode::Dictionary(DictionarySelectionNode::new(
            SelectionNodeDefinition::new(3, "Third Dictionary Node".to_string()),
            vec![],
            DictionarySelectionNodeDetails::new(3, 3, FIRST_VALUE_NAME.to_string()),
            DictionaryNodeMapping::new(
                ContentCommandAddress::new(3, 0),
                build_map(vec![
                    (
                        ValueHolder::DayOfWeek(WeekdayWrapper::new(Weekday::Sat)),
                        ContentCommandAddress::new(4, 0),
                    ),
                    (
                        ValueHolder::DayOfWeek(WeekdayWrapper::new(Weekday::Sun)),
                        ContentCommandAddress::new(5, 0),
                    ),
                ]),
            ),
        )),
        SelectionNode::Dictionary(DictionarySelectionNode::new(
            SelectionNodeDefinition::new(4, "Fourth Dictionary Node".to_string()),
            vec![],
            DictionarySelectionNodeDetails::new(4, 6, FIRST_VALUE_NAME.to_string()),
            DictionaryNodeMapping::new(
                ContentCommandAddress::new(6, 0),
                build_map(vec![
                    (
                        ValueHolder::DayOfWeek(WeekdayWrapper::new(Weekday::Sat)),
                        ContentCommandAddress::new(7, 0),
                    ),
                    (
                        ValueHolder::DayOfWeek(WeekdayWrapper::new(Weekday::Sun)),
                        ContentCommandAddress::new(8, 0),
                    ),
                    (
                        ValueHolder::DayOfWeek(WeekdayWrapper::new(Weekday::Mon)),
                        ContentCommandAddress::new(9, 0),
                    ),
                ]),
            ),
        )),
    ];
    let edges: Vec<SelectionEdge> = vec![
        SelectionEdge::LogicalExpressionSelectionEdge(LogicalExpressionSelectionEdge::new(
            SelectionEdgeDefinition::new(0, 1, SelectionEdgeType::LogicalExpressionSelectionEdge),
            SelectionNodeAddress::new(1, 0),
            LogicalExpressionSelectionEdgeDetails::new(0, 1),
            vec![Expression::new(
                ExpressionDefinition::new(1, LogicalOperator::And),
                vec![
                    Condition::new(
                        0,
                        SECOND_VALUE_NAME.to_string(),
                        RelationalOperator::Equals,
                        false,
                        ConditionValue::Runtime(THIRD_VALUE_NAME.to_string()),
                    ),
                    Condition::new(
                        1,
                        THIRD_VALUE_NAME.to_string(),
                        RelationalOperator::LessThan,
                        false,
                        ConditionValue::Static(ValueHolder::Integer(10)),
                    ),
                ],
                Option::None,
            )],
            Expression::new(
                ExpressionDefinition::new(0, LogicalOperator::And),
                vec![
                    Condition::new(
                        2,
                        SECOND_VALUE_NAME.to_string(),
                        RelationalOperator::Equals,
                        false,
                        ConditionValue::Runtime(THIRD_VALUE_NAME.to_string()),
                    ),
                    Condition::new(
                        3,
                        THIRD_VALUE_NAME.to_string(),
                        RelationalOperator::LessThan,
                        false,
                        ConditionValue::Static(ValueHolder::Integer(10)),
                    ),
                    Condition::new(
                        4,
                        FOURTH_VALUE_NAME.to_string(),
                        RelationalOperator::GreaterThanOrEquals,
                        true,
                        ConditionValue::Static(ValueHolder::Integer(10)),
                    ),
                ],
                Option::Some(NextExpressionAddressWithOperator::new(
                    ExpressionAddress::new(1, 0),
                    LogicalOperator::Or,
                )),
            ),
        )),
        SelectionEdge::AlwaysTrueSelectionEdge(AlwaysTrueSelectionEdge::new(
            SelectionEdgeDefinition::new(1, 2, SelectionEdgeType::AlwaysTrueSelectionEdge),
            SelectionNodeAddress::new(2, 1),
        )),
        SelectionEdge::LogicalExpressionSelectionEdge(LogicalExpressionSelectionEdge::new(
            SelectionEdgeDefinition::new(2, 3, SelectionEdgeType::LogicalExpressionSelectionEdge),
            SelectionNodeAddress::new(3, 2),
            LogicalExpressionSelectionEdgeDetails::new(0, 1),
            vec![],
            Expression::new(
                ExpressionDefinition::new(2, LogicalOperator::And),
                vec![Condition::new(
                    5,
                    FIFTH_VALUE_NAME.to_string(),
                    RelationalOperator::Contains,
                    false,
                    ConditionValue::Static(ValueHolder::String(String::from("ski"))),
                )],
                Option::None,
            ),
        )),
        SelectionEdge::AlwaysTrueSelectionEdge(AlwaysTrueSelectionEdge::new(
            SelectionEdgeDefinition::new(3, 4, SelectionEdgeType::AlwaysTrueSelectionEdge),
            SelectionNodeAddress::new(4, 3),
        )),
    ];
    SelectionTreeEvaluator::new(start_node, nodes, edges)
}

fn build_map<K, V>(entries: Vec<(K, V)>) -> Vec<(K, V)> {
    entries
}

fn build_payload(values: Vec<(String, ValueHolder)>) -> ValuesPayload {
    ValuesPayload::new(values)
}

fn check_command_ids(expected: Vec<i32>, actual: Vec<ContentCommandAddress>) {
    assert_eq!(
        expected,
        actual
            .iter()
            .map(|command| *command.get_id())
            .collect::<Vec<i32>>()
    );
}
