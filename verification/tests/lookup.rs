//! The tree lookup primitives.

use atdf::err::Error;
use atdf::tree::Node;
use atdf::tree::attr;
use atdf::tree::attr_bool;
use atdf::tree::child;
use atdf::tree::named_child;

fn node(name: &str, attrs: &[(&str, &str)], children: Vec<Node>) -> Node {
    Node {
        name: name.to_string(),
        attrs: attrs.iter().map(|(k, v)| (k.to_string(), v.to_string())).collect(),
        children,
    }
}

#[test]
fn attr_returns_value() {
    let el = node("register", &[("name", "DATA"), ("offset", "0x00")], vec![]);
    assert_eq!(attr(&el, "name").unwrap(), "DATA");
}

#[test]
fn attr_returns_first_match() {
    let el = node("x", &[("k", "first"), ("k", "second")], vec![]);
    assert_eq!(attr(&el, "k").unwrap(), "first");
}

#[test]
fn attr_missing_names_node_and_attribute() {
    let el = node("register", &[], vec![]);
    assert!(matches!(
        attr(&el, "name"),
        Err(Error::MissingAttribute(t, a)) if t == "register" && a == "name"
    ));
}

#[test]
fn child_returns_first_with_tag() {
    let el = node(
        "instance",
        &[],
        vec![node("signals", &[], vec![]), node("register-group", &[("name", "a")], vec![]), node(
            "register-group",
            &[("name", "b")],
            vec![],
        )],
    );
    let c = child(&el, "register-group").unwrap();
    assert_eq!(attr(c, "name").unwrap(), "a");
}

#[test]
fn child_missing_names_parent_and_tag() {
    let el = node("instance", &[], vec![]);
    assert!(matches!(
        child(&el, "register-group"),
        Err(Error::MissingChild(t, c)) if t == "instance" && c == "register-group"
    ));
}

#[test]
fn named_child_matches_tag_and_name() {
    let el = node(
        "module",
        &[],
        vec![
            node("register-group", &[("name", "A")], vec![]),
            node("value-group", &[("name", "B")], vec![]),
            node("register-group", &[("name", "B"), ("caption", "hit")], vec![]),
        ],
    );
    let c = named_child(&el, "register-group", "B").unwrap();
    assert_eq!(attr(c, "caption").unwrap(), "hit");
}

#[test]
fn named_child_missing_names_all_three() {
    let el = node("modules", &[], vec![node("module", &[("name", "PORTA")], vec![])]);
    assert!(matches!(
        named_child(&el, "module", "TWI"),
        Err(Error::MissingNamedChild(t, c, n)) if t == "modules" && c == "module" && n == "TWI"
    ));
}

#[test]
fn bool_attr_absent_is_false() {
    let el = node("memory-segment", &[], vec![]);
    assert_eq!(attr_bool(&el, "exec").unwrap(), false);
}

#[test]
fn bool_attr_empty_is_true() {
    let el = node("memory-segment", &[("exec", "")], vec![]);
    assert_eq!(attr_bool(&el, "exec").unwrap(), true);
}

#[test]
fn bool_attr_words() {
    let t = node("m", &[("exec", "true")], vec![]);
    let f = node("m", &[("exec", "false")], vec![]);
    assert_eq!(attr_bool(&t, "exec").unwrap(), true);
    assert_eq!(attr_bool(&f, "exec").unwrap(), false);
}

#[test]
fn bool_attr_digits() {
    let t = node("m", &[("exec", "1")], vec![]);
    let f = node("m", &[("exec", "0")], vec![]);
    assert_eq!(attr_bool(&t, "exec").unwrap(), true);
    assert_eq!(attr_bool(&f, "exec").unwrap(), false);
}

#[test]
fn bool_attr_garbage_is_invalid() {
    let el = node("m", &[("exec", "maybe")], vec![]);
    assert!(matches!(
        attr_bool(&el, "exec"),
        Err(Error::InvalidLiteral(s)) if s == "maybe"
    ));
}

#[test]
fn bool_attr_large_number_is_invalid() {
    let el = node("m", &[("exec", "2")], vec![]);
    assert!(matches!(attr_bool(&el, "exec"), Err(Error::InvalidLiteral(_))));
}
