//! Cross-reference resolution: instances to modules, stubs to named
//! register-groups, and the single recovery point for instances without a
//! register-group child.

use atdf::err::Error;
use atdf::peripheral::Instance;
use atdf::peripheral::PeripheralFamily;
use atdf::tree::Node;

fn node(name: &str, attrs: &[(&str, &str)], children: Vec<Node>) -> Node {
    Node {
        name: name.to_string(),
        attrs: attrs.iter().map(|(k, v)| (k.to_string(), v.to_string())).collect(),
        children,
    }
}

fn data_register(name: &str, offset: &str) -> Node {
    node("register", &[("name", name), ("offset", offset), ("size", "1")], vec![])
}

/// A module with one register-group "PORTA" holding DATA and DIR.
fn porta_module() -> Node {
    node(
        "module",
        &[("name", "PORTA")],
        vec![node(
            "register-group",
            &[("name", "PORTA")],
            vec![data_register("DATA", "0x00"), data_register("DIR", "0x01")],
        )],
    )
}

fn stub_instance(name: &str, group: &str) -> Node {
    node(
        "instance",
        &[("name", name)],
        vec![node(
            "register-group",
            &[("name", group), ("address-space", "data"), ("offset", "0x20")],
            vec![],
        )],
    )
}

#[test]
fn empty_stub_resolves_named_group() {
    let inst = Instance::parse(&stub_instance("PORTA0", "PORTA"), &porta_module()).unwrap();
    assert_eq!(inst.name, "PORTA0");
    assert_eq!(inst.address_space, "data");
    assert_eq!(inst.offset, 0x20);
    assert_eq!(inst.registers.len(), 2);
    assert_eq!(inst.registers[0].name, "DATA");
    assert_eq!(inst.registers[1].name, "DIR");
}

#[test]
fn inline_register_group_is_never_replaced() {
    let el = node(
        "instance",
        &[("name", "PORTA0")],
        vec![node(
            "register-group",
            &[("name", "PORTA"), ("address-space", "data"), ("offset", "0x20")],
            vec![data_register("LOCAL", "0x05")],
        )],
    );
    let inst = Instance::parse(&el, &porta_module()).unwrap();
    assert_eq!(inst.registers.len(), 1);
    assert_eq!(inst.registers[0].name, "LOCAL");
    assert_eq!(inst.registers[0].offset, 5);
}

#[test]
fn name_in_module_takes_precedence_over_name() {
    let module = node(
        "module",
        &[("name", "PORT")],
        vec![
            node("register-group", &[("name", "PORTA")], vec![data_register("A", "0")]),
            node("register-group", &[("name", "PORTB")], vec![data_register("B", "1")]),
        ],
    );
    let el = node(
        "instance",
        &[("name", "PB")],
        vec![node(
            "register-group",
            &[("name", "PORTA"), ("name-in-module", "PORTB"), ("address-space", "data"), (
                "offset",
                "0",
            )],
            vec![],
        )],
    );
    let inst = Instance::parse(&el, &module).unwrap();
    assert_eq!(inst.registers[0].name, "B");
}

#[test]
fn unresolvable_stub_is_named_child_error() {
    let r = Instance::parse(&stub_instance("X0", "GONE"), &porta_module());
    assert!(matches!(
        r,
        Err(Error::MissingNamedChild(t, c, n)) if t == "module" && c == "register-group" && n == "GONE"
    ));
}

#[test]
fn family_omits_instance_without_register_group() {
    let modules = node("modules", &[], vec![porta_module()]);
    let fam = node(
        "peripherals-entry",
        &[("name", "PORTA")],
        vec![
            node("instance", &[("name", "BARE")], vec![]),
            stub_instance("PORTA0", "PORTA"),
        ],
    );
    let fam = PeripheralFamily::parse(&fam, &modules).unwrap();
    assert_eq!(fam.instances.len(), 1);
    assert_eq!(fam.instances[0].name, "PORTA0");
}

#[test]
fn family_aborts_on_other_instance_errors() {
    let modules = node("modules", &[], vec![porta_module()]);
    let fam = node(
        "fam",
        &[("name", "PORTA")],
        vec![node("instance", &[], vec![])],
    );
    assert!(matches!(
        PeripheralFamily::parse(&fam, &modules),
        Err(Error::MissingAttribute(t, a)) if t == "instance" && a == "name"
    ));
}

#[test]
fn family_without_matching_module_fails() {
    let modules = node("modules", &[], vec![porta_module()]);
    let fam = node("fam", &[("name", "TWI")], vec![]);
    assert!(matches!(
        PeripheralFamily::parse(&fam, &modules),
        Err(Error::MissingNamedChild(t, c, n)) if t == "modules" && c == "module" && n == "TWI"
    ));
}

#[test]
fn instance_signals_use_bare_index_decoding() {
    let el = node(
        "instance",
        &[("name", "PORTA0")],
        vec![
            node(
                "register-group",
                &[("name", "PORTA"), ("address-space", "data"), ("offset", "0")],
                vec![],
            ),
            node(
                "signals",
                &[],
                vec![
                    node("signal", &[("group", "P"), ("pad", "PA0"), ("index", "09")], vec![]),
                    node("signal", &[("group", "P"), ("pad", "PA1")], vec![]),
                ],
            ),
        ],
    );
    let inst = Instance::parse(&el, &porta_module()).unwrap();
    let signals = inst.signals();
    assert_eq!(signals.len(), 2);
    assert_eq!(signals[0].index, Some(9));
    assert_eq!(signals[1].index, None);
    assert_eq!(signals[1].pad, "PA1");
}
