use zeroclaw::value::StructuredValue;

#[test]
fn get_finds_the_first_entry_under_a_key() {
    let value = StructuredValue::Object(vec![
        ("a".to_string(), StructuredValue::Bool(true)),
        ("b".to_string(), StructuredValue::Null),
        ("a".to_string(), StructuredValue::Bool(false)),
    ]);
    assert_eq!(value.get("a"), Some(&StructuredValue::Bool(true)));
    assert_eq!(value.get("b"), Some(&StructuredValue::Null));
    assert_eq!(value.get("c"), None);
    assert_eq!(StructuredValue::Null.get("a"), None);
}
