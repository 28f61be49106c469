use kdl_ast::ast::Document;
use kdl_ast::ast::Integer;
use kdl_ast::ast::Decimal;
use kdl_ast::ast::Literal;
use kdl_ast::ast::Node;
use kdl_ast::ast::TypeName;
use kdl_ast::ast::Value;
use kdl_ast::props::Properties;
use kdl_ast::span::Span;
use kdl_ast::span::Spanned;

fn sp<T>(value: T) -> Spanned<T, Span> {
    Spanned::new(Span::new(0, 0), value)
}

fn untyped(literal: Literal) -> Value<Span> {
    Value { type_annotation: None, literal: sp(literal) }
}

fn int_value(text: &str) -> Value<Span> {
    untyped(Literal::Int(Integer::from_string(String::from(text))))
}

fn bool_value(b: bool) -> Value<Span> {
    untyped(Literal::Boolean(b))
}

fn string_value(text: &str) -> Value<Span> {
    untyped(Literal::String(String::from(text)))
}

fn bare_node(name: &str) -> Node<Span> {
    Node {
        type_annotation: None,
        node_name: sp(String::from(name)),
        arguments: Vec::new(),
        properties: Properties::new(),
        children: None,
    }
}

#[test]
fn type_name_dereferences_to_construction_text() {
    let t = TypeName::from_string(String::from("my-type"));
    assert_eq!(t.as_str(), "my-type");
    let u = TypeName::from_string(String::from(""));
    assert_eq!(u.as_str(), "");
}

#[test]
fn type_name_equality_is_textual() {
    let a = TypeName::from_string(String::from("date"));
    let b = TypeName::from_string(String::from("date"));
    let c = TypeName::from_string(String::from("url"));
    assert_eq!(a, b);
    assert_ne!(a, c);
}

#[test]
fn integer_equality_is_textual_not_numeric() {
    assert_eq!(
        Integer::from_string(String::from("42")),
        Integer::from_string(String::from("42"))
    );
    assert_ne!(
        Integer::from_string(String::from("42")),
        Integer::from_string(String::from("042"))
    );
    assert_ne!(
        Integer::from_string(String::from("16")),
        Integer::from_string(String::from("0x10"))
    );
    assert_eq!(Integer::from_string(String::from("-7")).as_str(), "-7");
}

#[test]
fn decimal_equality_is_textual_not_numeric() {
    assert_eq!(
        Decimal::from_string(String::from("1.5")),
        Decimal::from_string(String::from("1.5"))
    );
    assert_ne!(
        Decimal::from_string(String::from("1.50")),
        Decimal::from_string(String::from("1.5"))
    );
    assert_ne!(
        Decimal::from_string(String::from("1e3")),
        Decimal::from_string(String::from("1000.0"))
    );
    assert_eq!(Decimal::from_string(String::from("1.50")).as_str(), "1.50");
}

#[test]
fn literal_equality_matches_kind_and_payload() {
    let one = Literal::Int(Integer::from_string(String::from("1")));
    let one_decimal = Literal::Decimal(Decimal::from_string(String::from("1")));
    assert_ne!(one, one_decimal);
    assert_eq!(Literal::Null, Literal::Null);
    assert_ne!(Literal::Boolean(true), Literal::Boolean(false));
    assert_ne!(Literal::Null, Literal::Boolean(false));
    assert_eq!(
        Literal::String(String::from("red")),
        Literal::String(String::from("red"))
    );
}

#[test]
fn children_absent_and_empty_block_both_iterate_empty() {
    let absent = bare_node("a");
    assert!(absent.children.is_none());
    assert_eq!(absent.children().len(), 0);
    assert_eq!(absent.children().iter().count(), 0);

    let mut empty_block = bare_node("b");
    empty_block.children = Some(sp(Vec::new()));
    // distinguishable in storage, indistinguishable through iteration
    assert!(empty_block.children.is_some());
    assert_eq!(empty_block.children().len(), 0);
    assert_eq!(empty_block.children().iter().count(), 0);
}

#[test]
fn children_yield_nested_nodes_in_order() {
    let mut parent = bare_node("parent");
    parent.children = Some(sp(vec![sp(bare_node("first")), sp(bare_node("second"))]));
    let kids = parent.children();
    assert_eq!(kids.len(), 2);
    assert_eq!(kids[0].value.node_name.value, "first");
    assert_eq!(kids[1].value.node_name.value, "second");
}

#[test]
fn property_insert_overwrites_same_key() {
    let mut props: Properties<Span> = Properties::new();
    props.insert(sp(String::from("x")), bool_value(true));
    props.insert(sp(String::from("x")), bool_value(false));
    assert_eq!(props.len(), 1);
    let v = props.get("x").expect("key x must be present");
    assert_eq!(v.literal.value, Literal::Boolean(false));
}

#[test]
fn property_iteration_is_by_key_not_insertion() {
    let mut props: Properties<Span> = Properties::new();
    props.insert(sp(String::from("beta")), int_value("2"));
    props.insert(sp(String::from("gamma")), int_value("3"));
    props.insert(sp(String::from("alpha")), int_value("1"));
    assert_eq!(props.len(), 3);
    let keys: Vec<&str> = (0..props.len())
        .map(|i| props.entry(i).name.value.as_str())
        .collect();
    assert_eq!(keys, vec!["alpha", "beta", "gamma"]);
}

#[test]
fn property_get_distinguishes_missing_keys() {
    let mut props: Properties<Span> = Properties::new();
    props.insert(sp(String::from("here")), int_value("1"));
    assert!(props.get("here").is_some());
    assert!(props.get("missing").is_none());
    assert!(props.get("her").is_none());
}

#[test]
fn argument_order_is_construction_order() {
    let mut node = bare_node("args");
    node.push_argument(sp(int_value("9")));
    node.push_argument(sp(int_value("1")));
    node.push_argument(sp(int_value("5")));
    let texts: Vec<&str> = node
        .arguments
        .iter()
        .map(|a| match &a.value.literal.value {
            Literal::Int(i) => i.as_str(),
            _ => panic!("expected integer arguments"),
        })
        .collect();
    // exactly as pushed, never re-sorted
    assert_eq!(texts, vec!["9", "1", "5"]);
}

#[test]
fn point_node_document_scenario() {
    let mut point = bare_node("point");
    point.push_argument(sp(int_value("3")));
    point.push_argument(sp(int_value("4")));
    point.properties.insert(sp(String::from("color")), string_value("red"));

    let document = Document { children: vec![sp(point)] };
    assert_eq!(document.children.len(), 1);
    assert_eq!(document.nodes().len(), 1);

    let node = &document.nodes()[0].value;
    assert_eq!(node.node_name.value, "point");
    let argument_texts: Vec<&str> = node
        .arguments
        .iter()
        .map(|a| match &a.value.literal.value {
            Literal::Int(i) => i.as_str(),
            _ => panic!("expected integer arguments"),
        })
        .collect();
    assert_eq!(argument_texts, vec!["3", "4"]);

    assert_eq!(node.properties.len(), 1);
    let color = node.properties.get("color").expect("color must be present");
    assert_eq!(color.literal.value, Literal::String(String::from("red")));

    assert_eq!(node.children().iter().count(), 0);
}

#[test]
fn flag_nodes_overwrite_scenario() {
    let mut first = bare_node("flag");
    first.properties.insert(sp(String::from("x")), bool_value(true));

    let mut second = bare_node("flag");
    second.properties.insert(sp(String::from("x")), bool_value(true));
    second.properties.insert(sp(String::from("x")), bool_value(false));

    let stored = second.properties.get("x").expect("key x must be present");
    assert_eq!(stored.literal.value, Literal::Boolean(false));
    assert_eq!(second.properties.len(), 1);

    // the first node keeps its own value
    let kept = first.properties.get("x").expect("key x must be present");
    assert_eq!(kept.literal.value, Literal::Boolean(true));
}

#[test]
fn spanned_map_keeps_the_span() {
    let wrapped = Spanned::new(Span::new(3, 8), 10u64);
    let doubled = wrapped.map(|v| v * 2);
    assert_eq!(doubled.value, 20);
    assert_eq!(doubled.span, Span::new(3, 8));
}

#[test]
fn typed_value_carries_annotation() {
    let mut v = int_value("8");
    v.type_annotation = Some(sp(TypeName::from_string(String::from("u8"))));
    let annotation = v.type_annotation.as_ref().expect("annotation set");
    assert_eq!(annotation.value.as_str(), "u8");
}
