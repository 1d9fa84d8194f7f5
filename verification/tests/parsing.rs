//! The document-model parsers, entity by entity.

use atdf::address::AddressSpace;
use atdf::address::Endianness;
use atdf::address::MemorySegment;
use atdf::address::SegmentKind;
use atdf::err::Error;
use atdf::interrupt::Interrupt;
use atdf::register::Access;
use atdf::register::Bitfield;
use atdf::register::EnumerationValue;
use atdf::register::Register;
use atdf::tree::Node;

fn node(name: &str, attrs: &[(&str, &str)], children: Vec<Node>) -> Node {
    Node {
        name: name.to_string(),
        attrs: attrs.iter().map(|(k, v)| (k.to_string(), v.to_string())).collect(),
        children,
    }
}

fn porta_module() -> Node {
    node(
        "module",
        &[("name", "PORTA")],
        vec![node(
            "value-group",
            &[("name", "PV")],
            vec![
                node("value", &[("name", "LOW"), ("value", "0x0"), ("caption", "low")], vec![]),
                node("value", &[("name", "HIGH"), ("value", "0x1")], vec![]),
            ],
        )],
    )
}

#[test]
fn enumeration_value_parses() {
    let el = node("value", &[("name", "HIGH"), ("value", "0x1"), ("caption", "driven high")], vec![]);
    let v = EnumerationValue::parse(&el).unwrap();
    assert_eq!(v.name, "HIGH");
    assert_eq!(v.description.as_deref(), Some("driven high"));
    assert_eq!(v.value, 1);
}

#[test]
fn enumeration_value_without_value_attr_fails() {
    let el = node("value", &[("name", "HIGH")], vec![]);
    assert!(matches!(
        EnumerationValue::parse(&el),
        Err(Error::MissingAttribute(t, a)) if t == "value" && a == "value"
    ));
}

#[test]
fn bitfield_without_values_attr_has_none() {
    let el = node("bitfield", &[("name", "PIN0"), ("mask", "0x01")], vec![]);
    let bf = Bitfield::parse(&el, &porta_module()).unwrap();
    assert_eq!(bf.name, "PIN0");
    assert_eq!(bf.mask, 1);
    assert!(bf.values.is_none());
}

#[test]
fn bitfield_resolves_value_group() {
    let el = node("bitfield", &[("name", "PIN0"), ("mask", "0x01"), ("values", "PV")], vec![]);
    let bf = Bitfield::parse(&el, &porta_module()).unwrap();
    let values = bf.values.unwrap();
    assert_eq!(values.len(), 2);
    assert_eq!(values[0].name, "LOW");
    assert_eq!(values[0].value, 0);
    assert_eq!(values[1].name, "HIGH");
    assert_eq!(values[1].value, 1);
}

#[test]
fn bitfield_unresolvable_value_group_is_hard_error() {
    let el = node("bitfield", &[("name", "PIN0"), ("mask", "0x01"), ("values", "GONE")], vec![]);
    assert!(matches!(
        Bitfield::parse(&el, &porta_module()),
        Err(Error::MissingNamedChild(t, c, n)) if t == "module" && c == "value-group" && n == "GONE"
    ));
}

#[test]
fn bitfield_bad_mask_is_literal_error() {
    let el = node("bitfield", &[("name", "PIN0"), ("mask", "0xZZ")], vec![]);
    assert!(matches!(
        Bitfield::parse(&el, &porta_module()),
        Err(Error::InvalidLiteral(s)) if s == "0xZZ"
    ));
}

#[test]
fn register_initial_defaults_to_zero() {
    let el = node("register", &[("name", "DATA"), ("offset", "0x00"), ("size", "1")], vec![]);
    let r = Register::parse(&el, &porta_module()).unwrap();
    assert_eq!(r.initial, 0);
    assert_eq!(r.offset, 0);
    assert_eq!(r.size, 1);
    assert!(r.access.is_none());
    assert!(r.bitfields.is_empty());
}

#[test]
fn register_reads_initval_and_access() {
    let el = node(
        "register",
        &[("name", "CTRL"), ("offset", "0x04"), ("size", "2"), ("initval", "0x10"), ("ocd-rw", "R")],
        vec![node("bitfield", &[("name", "EN"), ("mask", "0x01")], vec![])],
    );
    let r = Register::parse(&el, &porta_module()).unwrap();
    assert_eq!(r.initial, 0x10);
    assert_eq!(r.access, Some(Access::ReadOnly));
    assert_eq!(r.bitfields.len(), 1);
}

#[test]
fn register_empty_access_text_is_bidirectional() {
    let el = node(
        "register",
        &[("name", "UDR"), ("offset", "0x00"), ("size", "1"), ("ocd-rw", "")],
        vec![],
    );
    let r = Register::parse(&el, &porta_module()).unwrap();
    assert_eq!(r.access, Some(Access::Bidirectional));
}

#[test]
fn register_unknown_access_text_fails() {
    let el = node(
        "register",
        &[("name", "UDR"), ("offset", "0x00"), ("size", "1"), ("ocd-rw", "RWX")],
        vec![],
    );
    assert!(matches!(
        Register::parse(&el, &porta_module()),
        Err(Error::InvalidLiteral(s)) if s == "RWX"
    ));
}

#[test]
fn interrupt_parses() {
    let el = node("interrupt", &[("name", "RESET"), ("index", "0"), ("caption", "reset")], vec![]);
    let it = Interrupt::parse(&el).unwrap();
    assert_eq!(it.name, "RESET");
    assert_eq!(it.index, 0);
    assert_eq!(it.description.as_deref(), Some("reset"));
}

#[test]
fn interrupt_without_index_fails() {
    let el = node("interrupt", &[("name", "RESET")], vec![]);
    assert!(matches!(
        Interrupt::parse(&el),
        Err(Error::MissingAttribute(t, a)) if t == "interrupt" && a == "index"
    ));
}

#[test]
fn memory_segment_parses_kind_and_flags() {
    let el = node(
        "memory-segment",
        &[("name", "prog"), ("start", "0x0000"), ("size", "0x8000"), ("type", "FLASH"), ("rw", "R"), ("exec", "1")],
        vec![],
    );
    let seg = MemorySegment::parse(&el).unwrap();
    assert_eq!(seg.kind, SegmentKind::Flash);
    assert_eq!(seg.access, Access::ReadOnly);
    assert!(seg.executable);
}

#[test]
fn memory_segment_unknown_kind_is_preserved() {
    let el = node(
        "memory-segment",
        &[("name", "u"), ("start", "0"), ("size", "0x10"), ("type", "USER_PAGE")],
        vec![],
    );
    let seg = MemorySegment::parse(&el).unwrap();
    assert_eq!(seg.kind, SegmentKind::Other("USER_PAGE".to_string()));
    assert_eq!(seg.access, Access::ReadWrite);
    assert!(!seg.executable);
}

#[test]
fn address_space_parses() {
    let el = node(
        "address-space",
        &[("name", "data"), ("endianness", "little"), ("start", "0x0"), ("size", "0x8000")],
        vec![node(
            "memory-segment",
            &[("name", "sram"), ("start", "0x100"), ("size", "0x400"), ("type", "RAM")],
            vec![],
        )],
    );
    let a = AddressSpace::parse(&el).unwrap();
    assert_eq!(a.name, "data");
    assert_eq!(a.endianness, Endianness::Little);
    assert_eq!(a.start, 0);
    assert_eq!(a.size, 0x8000);
    assert_eq!(a.segments.len(), 1);
    assert_eq!(a.segments[0].kind, SegmentKind::Ram);
}

#[test]
fn value_group_parses() {
    let el = node(
        "value-group",
        &[("name", "PV"), ("caption", "pin values")],
        vec![
            node("value", &[("name", "LOW"), ("value", "0")], vec![]),
            node("value", &[("name", "HIGH"), ("value", "1")], vec![]),
        ],
    );
    let g = atdf::register::ValueGroup::parse(&el).unwrap();
    assert_eq!(g.name, "PV");
    assert_eq!(g.description.as_deref(), Some("pin values"));
    assert_eq!(g.values.len(), 2);
    assert_eq!(g.values[1].name, "HIGH");
    assert_eq!(g.values[1].value, 1);
}

#[test]
fn module_parses_its_groups() {
    let el = node(
        "module",
        &[("name", "PORTA")],
        vec![
            node(
                "register-group",
                &[("name", "PORTA")],
                vec![node(
                    "register",
                    &[("name", "DATA"), ("offset", "0"), ("size", "1")],
                    vec![node(
                        "bitfield",
                        &[("name", "PIN0"), ("mask", "0x01"), ("values", "PV")],
                        vec![],
                    )],
                )],
            ),
            node("value-group", &[("name", "PV")], vec![node(
                "value",
                &[("name", "HIGH"), ("value", "1")],
                vec![],
            )]),
        ],
    );
    let m = atdf::device::Module::parse(&el).unwrap();
    assert_eq!(m.name, "PORTA");
    assert_eq!(m.register_groups.len(), 1);
    assert_eq!(m.value_groups.len(), 1);
    let r = &m.register_groups[0].registers[0];
    assert_eq!(r.name, "DATA");
    let values = r.bitfields[0].values.as_ref().unwrap();
    assert_eq!(values[0].name, "HIGH");
}

#[test]
fn device_missing_containers_are_empty_lists() {
    let el = node("device", &[("name", "ATbare")], vec![]);
    let modules = node("modules", &[], vec![]);
    let d = atdf::device::Device::parse(&el, &modules).unwrap();
    assert_eq!(d.name, "ATbare");
    assert!(d.address_spaces().is_empty());
    assert!(d.peripherals().is_empty());
    assert!(d.interrupts().is_empty());
}

#[test]
fn address_space_bad_endianness_fails() {
    let el = node(
        "address-space",
        &[("name", "data"), ("endianness", "middle"), ("start", "0"), ("size", "1")],
        vec![],
    );
    assert!(matches!(
        AddressSpace::parse(&el),
        Err(Error::InvalidLiteral(s)) if s == "middle"
    ));
}
