use frontary::comparison_input::{
    ComparisonBuffer, chosen_comparison_kind, chosen_value_kind, comparison_kind_item,
    comparison_template, empty_value, input_comparison_value, value_kind_item,
};
use frontary::{Comparison, ComparisonKind, ComparisonValue, ValueKind};

#[test]
fn kind_options() {
    let i = value_kind_item(ValueKind::Integer);
    assert_eq!(i.id(), "Integer");
    assert_eq!(i.value(), "Integer");
    let c = comparison_kind_item(ComparisonKind::NotEqual);
    assert_eq!(c.id(), "x != a");
}

#[test]
fn templates_of_comparisons() {
    let v = empty_value(ValueKind::Float);
    assert!(v == ComparisonValue::Float(None));
    let t = comparison_template(ComparisonKind::OpenRange, ComparisonValue::Integer(None));
    assert!(t == Comparison::OpenRange(ComparisonValue::Integer(None), ComparisonValue::Integer(None)));
    let t = comparison_template(ComparisonKind::Less, ComparisonValue::Integer(None));
    assert!(t == Comparison::Less(ComparisonValue::Integer(None)));
}

#[test]
fn values_entered_one_at_a_time() {
    let mut b = ComparisonBuffer { first: None, second: None };
    let r = input_comparison_value(&mut b, ComparisonKind::CloseRange, 1, ComparisonValue::Integer(Some(9)));
    assert!(r.is_none());
    let r = input_comparison_value(&mut b, ComparisonKind::CloseRange, 0, ComparisonValue::Integer(Some(1)));
    assert!(
        r == Some(Comparison::CloseRange(ComparisonValue::Integer(Some(1)), ComparisonValue::Integer(Some(9))))
    );
    let mut b = ComparisonBuffer { first: None, second: None };
    let r = input_comparison_value(&mut b, ComparisonKind::Greater, 0, ComparisonValue::Integer(Some(3)));
    assert!(r == Some(Comparison::Greater(ComparisonValue::Integer(Some(3)))));
}

#[test]
fn chosen_kinds() {
    assert!(chosen_value_kind(&Some(vec!["Float".to_string()])) == Some(ValueKind::Float));
    assert!(chosen_value_kind(&Some(vec!["float".to_string()])).is_none());
    assert!(chosen_value_kind(&Some(vec![])).is_none());
    assert!(chosen_value_kind(&None).is_none());
    assert!(chosen_comparison_kind(&Some(vec!["x > a".to_string()])) == Some(ComparisonKind::Greater));
}
