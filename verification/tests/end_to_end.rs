//! Whole-document parsing and translation into the target schema.

use atdf::device;
use atdf::err::Error;
use atdf::parse;
use atdf::svd::is_translatable;
use atdf::tree::Node;

fn node(name: &str, attrs: &[(&str, &str)], children: Vec<Node>) -> Node {
    Node {
        name: name.to_string(),
        attrs: attrs.iter().map(|(k, v)| (k.to_string(), v.to_string())).collect(),
        children,
    }
}

fn register(name: &str, offset: &str, size: &str, bitfields: Vec<Node>) -> Node {
    node("register", &[("name", name), ("offset", offset), ("size", size)], bitfields)
}

fn stub_instance(name: &str, group: &str, space: &str, offset: &str) -> Node {
    node(
        "instance",
        &[("name", name)],
        vec![node(
            "register-group",
            &[("name", group), ("address-space", space), ("offset", offset)],
            vec![],
        )],
    )
}

/// The minimal document: one device, one address space, one family "PORTA"
/// with one instance resolving to one register DATA with one bitfield PIN0.
fn minimal_doc() -> Node {
    node(
        "avr-tools-device-file",
        &[],
        vec![
            node(
                "devices",
                &[],
                vec![node(
                    "device",
                    &[("name", "ATtest")],
                    vec![
                        node(
                            "address-spaces",
                            &[],
                            vec![node(
                                "address-space",
                                &[("name", "data"), ("endianness", "little"), ("start", "0"), (
                                    "size",
                                    "0x8000",
                                )],
                                vec![],
                            )],
                        ),
                        node(
                            "peripherals",
                            &[],
                            vec![node(
                                "module",
                                &[("name", "PORTA")],
                                vec![stub_instance("PORTA", "PORTA", "data", "0x00")],
                            )],
                        ),
                    ],
                )],
            ),
            node(
                "modules",
                &[],
                vec![node(
                    "module",
                    &[("name", "PORTA")],
                    vec![node(
                        "register-group",
                        &[("name", "PORTA")],
                        vec![register(
                            "DATA",
                            "0x00",
                            "1",
                            vec![node("bitfield", &[("name", "PIN0"), ("mask", "0x01")], vec![])],
                        )],
                    )],
                )],
            ),
        ],
    )
}

#[test]
fn minimal_document_translates() {
    let doc = parse(&minimal_doc()).unwrap();
    assert_eq!(doc.devices().len(), 1);
    let dev = &doc.devices()[0];
    assert_eq!(dev.name, "ATtest");
    assert_eq!(dev.address_spaces().len(), 1);
    assert_eq!(dev.address_spaces()[0].size, 0x8000);

    assert!(is_translatable(dev));
    let out = device(dev, doc.modules());
    assert_eq!(out.name, "ATtest");
    assert_eq!(out.peripherals.len(), 1);
    let p = &out.peripherals[0];
    assert_eq!(p.name, "PORTA");
    assert_eq!(p.base_address, 0x00);
    assert_eq!(p.registers.len(), 1);
    let r = &p.registers[0];
    assert_eq!(r.name, "DATA");
    assert_eq!(r.size, 8);
    assert_eq!(r.fields.len(), 1);
    assert_eq!(r.fields[0].bit_range.offset, 0);
    assert_eq!(r.fields[0].bit_range.width, 1);
}

#[test]
fn wrong_root_tag_is_rejected() {
    let r = parse(&node("not-a-device-file", &[], vec![]));
    assert!(matches!(
        r,
        Err(Error::MissingChild(t, c)) if t == "not-a-device-file" && c == "avr-tools-device-file"
    ));
}

#[test]
fn missing_sections_are_rejected() {
    let r = parse(&node("avr-tools-device-file", &[], vec![]));
    assert!(matches!(
        r,
        Err(Error::MissingChild(t, c)) if t == "avr-tools-device-file" && c == "devices"
    ));
}

#[test]
fn document_with_dropped_instance_still_parses() {
    let doc = node(
        "avr-tools-device-file",
        &[],
        vec![
            node(
                "devices",
                &[],
                vec![node(
                    "device",
                    &[("name", "ATtest")],
                    vec![node(
                        "peripherals",
                        &[],
                        vec![node(
                            "module",
                            &[("name", "PORTA")],
                            vec![
                                node("instance", &[("name", "BARE")], vec![]),
                                stub_instance("PORTA", "PORTA", "data", "0x10"),
                            ],
                        )],
                    )],
                )],
            ),
            node(
                "modules",
                &[],
                vec![node(
                    "module",
                    &[("name", "PORTA")],
                    vec![node("register-group", &[("name", "PORTA")], vec![register(
                        "DATA",
                        "0x00",
                        "1",
                        vec![],
                    )])],
                )],
            ),
        ],
    );
    let doc = parse(&doc).unwrap();
    let dev = &doc.devices()[0];
    assert_eq!(dev.peripherals().len(), 1);
    assert_eq!(dev.peripherals()[0].instances.len(), 1);
    assert_eq!(dev.peripherals()[0].instances[0].name, "PORTA");
}

#[test]
fn translation_drops_non_contiguous_fields() {
    let modules = vec![];
    let dev = atdf::device::Device {
        name: "D".to_string(),
        address_spaces: vec![],
        peripherals: vec![atdf::peripheral::PeripheralFamily {
            name: "P".to_string(),
            description: None,
            instances: vec![atdf::peripheral::Instance {
                name: "P0".to_string(),
                description: None,
                address_space: "data".to_string(),
                offset: 0,
                registers: vec![atdf::register::Register {
                    name: "R".to_string(),
                    description: None,
                    offset: 0,
                    size: 4,
                    initial: 0,
                    access: None,
                    bitfields: vec![
                        atdf::register::Bitfield {
                            name: "GOOD".to_string(),
                            description: None,
                            mask: 0x30,
                            values: None,
                        },
                        atdf::register::Bitfield {
                            name: "SPLIT".to_string(),
                            description: None,
                            mask: 0b1011,
                            values: None,
                        },
                    ],
                }],
                signals: vec![],
            }],
        }],
        interrupts: vec![],
    };
    assert!(is_translatable(&dev));
    let out = device(&dev, &modules);
    let r = &out.peripherals[0].registers[0];
    assert_eq!(r.size, 32);
    assert_eq!(r.fields.len(), 1);
    assert_eq!(r.fields[0].name, "GOOD");
    assert_eq!(r.fields[0].bit_range.offset, 4);
    assert_eq!(r.fields[0].bit_range.width, 2);
}

#[test]
fn translation_excludes_non_data_instances() {
    let modules = vec![];
    let inst = |space: &str| atdf::peripheral::Instance {
        name: format!("I_{}", space),
        description: None,
        address_space: space.to_string(),
        offset: 0,
        registers: vec![],
        signals: vec![],
    };
    let dev = atdf::device::Device {
        name: "D".to_string(),
        address_spaces: vec![],
        peripherals: vec![atdf::peripheral::PeripheralFamily {
            name: "P".to_string(),
            description: None,
            instances: vec![inst("config"), inst("data")],
        }],
        interrupts: vec![],
    };
    let out = device(&dev, &modules);
    assert_eq!(out.peripherals.len(), 1);
    assert_eq!(out.peripherals[0].name, "I_data");
}

#[test]
fn translation_attaches_enumerated_values() {
    let modules = vec![];
    let dev = atdf::device::Device {
        name: "D".to_string(),
        address_spaces: vec![],
        peripherals: vec![atdf::peripheral::PeripheralFamily {
            name: "P".to_string(),
            description: None,
            instances: vec![atdf::peripheral::Instance {
                name: "P0".to_string(),
                description: None,
                address_space: "data".to_string(),
                offset: 0,
                registers: vec![atdf::register::Register {
                    name: "R".to_string(),
                    description: None,
                    offset: 0,
                    size: 1,
                    initial: 0,
                    access: None,
                    bitfields: vec![atdf::register::Bitfield {
                        name: "F".to_string(),
                        description: None,
                        mask: 0x01,
                        values: Some(vec![atdf::register::EnumerationValue {
                            name: "ON".to_string(),
                            description: Some("enabled".to_string()),
                            value: 1,
                        }]),
                    }],
                }],
                signals: vec![],
            }],
        }],
        interrupts: vec![],
    };
    let out = device(&dev, &modules);
    let f = &out.peripherals[0].registers[0].fields[0];
    let evs = f.enumerated_values.as_ref().unwrap();
    assert_eq!(evs.len(), 1);
    assert_eq!(evs[0].name, "ON");
    assert_eq!(evs[0].description.as_deref(), Some("enabled"));
    assert_eq!(evs[0].value, 1);
}

#[test]
fn zero_mask_is_not_translatable() {
    let dev = atdf::device::Device {
        name: "D".to_string(),
        address_spaces: vec![],
        peripherals: vec![atdf::peripheral::PeripheralFamily {
            name: "P".to_string(),
            description: None,
            instances: vec![atdf::peripheral::Instance {
                name: "P0".to_string(),
                description: None,
                address_space: "data".to_string(),
                offset: 0,
                registers: vec![atdf::register::Register {
                    name: "R".to_string(),
                    description: None,
                    offset: 0,
                    size: 1,
                    initial: 0,
                    access: None,
                    bitfields: vec![atdf::register::Bitfield {
                        name: "Z".to_string(),
                        description: None,
                        mask: 0,
                        values: None,
                    }],
                }],
                signals: vec![],
            }],
        }],
        interrupts: vec![],
    };
    assert!(!is_translatable(&dev));
}
