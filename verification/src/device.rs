//! The modules section, the per-device assembly, and the document entry
//! point: validate the root, locate the `devices` and `modules` sections,
//! and produce one resolved device per declaration.

use vstd::prelude::*;

use crate::address::AddressSpace;
use crate::address::aspace_err;
use crate::address::aspace_ok;
use crate::address::aspace_rel;
use crate::err::Error;
use crate::err::miss_attr;
use crate::err::miss_child;
use crate::interrupt::Interrupt;
use crate::interrupt::Interrupts;
use crate::interrupt::interrupt_nodes;
use crate::interrupt::interrupts_list_err;
use crate::interrupt::interrupts_list_ok;
use crate::interrupt::interrupts_list_rel;
use crate::peripheral::PeripheralFamily;
use crate::peripheral::family_err;
use crate::peripheral::family_ok;
use crate::peripheral::family_rel;
use crate::register::RegisterGroup;
use crate::register::ValueGroup;
use crate::register::rgroup_err;
use crate::register::rgroup_ok;
use crate::register::rgroup_rel;
use crate::register::vgroup_err;
use crate::register::vgroup_ok;
use crate::register::vgroup_rel;
use crate::tree::Node;
use crate::tree::attr;
use crate::tree::attr_opt;
use crate::tree::child;
use crate::tree::find_attr;
use crate::tree::find_child;
use crate::tree::lemma_filter_take_step;
use crate::tree::opt_view;
use crate::tree::str_eq;
use crate::tree::tag_is;

verus! {

/// The children tagged `tag` of the child of `el` tagged `container`; a
/// missing container stands for an empty list.
pub open spec fn container_nodes(el: Node, container: Seq<char>, tag: Seq<char>) -> Seq<Node> {
    match find_child(el.children@, container) {
        None => Seq::empty(),
        Some(c) => c.children@.filter(tag_is(tag)),
    }
}

/// The register-group children of a module node, in order.
pub open spec fn rgroup_nodes(el: Node) -> Seq<Node> {
    el.children@.filter(tag_is("register-group"@))
}

/// The value-group children of a module node, in order.
pub open spec fn vgroup_nodes(el: Node) -> Seq<Node> {
    el.children@.filter(tag_is("value-group"@))
}

/// Every register-group node of `ns` parses against `module`.
pub open spec fn rgroups_list_ok(ns: Seq<Node>, module: Node) -> bool {
    forall|k: int| 0 <= k < ns.len() ==> rgroup_ok(#[trigger] ns[k], module)
}

/// `list` holds the parse of each register-group node of `ns`, in order.
pub open spec fn rgroups_list_rel(list: Seq<RegisterGroup>, ns: Seq<Node>, module: Node) -> bool {
    &&& list.len() == ns.len()
    &&& forall|k: int| 0 <= k < ns.len() ==> rgroup_rel(#[trigger] list[k], ns[k], module)
}

/// `e` is the error of the first register-group node of `ns` that fails.
pub open spec fn rgroups_list_err(ns: Seq<Node>, module: Node, e: Error) -> bool {
    exists|k: int|
        0 <= k < ns.len() && !rgroup_ok(#[trigger] ns[k], module) && rgroup_err(ns[k], module, e)
            && (forall|j: int| 0 <= j < k ==> rgroup_ok(#[trigger] ns[j], module))
}

/// Every value-group node of `ns` parses.
pub open spec fn vgroups_list_ok(ns: Seq<Node>) -> bool {
    forall|k: int| 0 <= k < ns.len() ==> vgroup_ok(#[trigger] ns[k])
}

/// `list` holds the parse of each value-group node of `ns`, in order.
pub open spec fn vgroups_list_rel(list: Seq<ValueGroup>, ns: Seq<Node>) -> bool {
    &&& list.len() == ns.len()
    &&& forall|k: int| 0 <= k < ns.len() ==> vgroup_rel(#[trigger] list[k], ns[k])
}

/// `e` is the error of the first value-group node of `ns` that fails.
pub open spec fn vgroups_list_err(ns: Seq<Node>, e: Error) -> bool {
    exists|k: int|
        0 <= k < ns.len() && !vgroup_ok(#[trigger] ns[k]) && vgroup_err(ns[k], e) && (forall|
            j: int,
        |
            0 <= j < k ==> vgroup_ok(#[trigger] ns[j]))
}

/// A module: the named register-groups and value-groups that peripherals of
/// one family resolve their references against.
#[derive(Debug, PartialEq)]
pub struct Module {
    pub name: String,
    pub description: Option<String>,
    pub register_groups: Vec<RegisterGroup>,
    pub value_groups: Vec<ValueGroup>,
}

/// A module node parses: its register-groups (whose bitfields resolve
/// against this very module) and its value-groups all parse.
pub open spec fn module_ok(el: Node) -> bool {
    &&& find_attr(el.attrs@, "name"@) is Some
    &&& rgroups_list_ok(rgroup_nodes(el), el)
    &&& vgroups_list_ok(vgroup_nodes(el))
}

/// The fields a parsed module must hold, against its node.
pub open spec fn module_rel(m: Module, el: Node) -> bool {
    &&& Some(m.name@) == find_attr(el.attrs@, "name"@)
    &&& opt_view(m.description) == find_attr(el.attrs@, "caption"@)
    &&& rgroups_list_rel(m.register_groups@, rgroup_nodes(el), el)
    &&& vgroups_list_rel(m.value_groups@, vgroup_nodes(el))
}

/// The error a failing module node produces.
pub open spec fn module_err(el: Node, e: Error) -> bool {
    if find_attr(el.attrs@, "name"@) is None {
        miss_attr(e, el.name@, "name"@)
    } else if !rgroups_list_ok(rgroup_nodes(el), el) {
        rgroups_list_err(rgroup_nodes(el), el, e)
    } else {
        vgroups_list_err(vgroup_nodes(el), e)
    }
}

impl Module {
    /// Parses one module of the modules section.
    pub fn parse(el: &Node) -> (r: Result<Module, Error>)
        ensures
            match r {
                Ok(m) => module_ok(*el) && module_rel(m, *el),
                Err(e) => !module_ok(*el) && module_err(*el, e),
            },
    {
        let name = match attr(el, "name") {
            Ok(v) => v.clone(),
            Err(e) => return Err(e),
        };
        let description = attr_opt(el, "caption");
        let n = el.children.len();
        let mut register_groups: Vec<RegisterGroup> = Vec::new();
        let mut i: usize = 0;
        while i < n
            invariant
                n == el.children@.len(),
                i <= n,
                find_attr(el.attrs@, "name"@) is Some,
                rgroups_list_ok(
                    el.children@.take(i as int).filter(tag_is("register-group"@)),
                    *el,
                ),
                rgroups_list_rel(
                    register_groups@,
                    el.children@.take(i as int).filter(tag_is("register-group"@)),
                    *el,
                ),
            decreases n - i,
        {
            proof {
                reveal(Seq::filter);
                assert(el.children@.take(i as int + 1).drop_last() =~= el.children@.take(
                    i as int,
                ));
            }
            let c = &el.children[i];
            if str_eq(c.name.as_str(), "register-group") {
                match RegisterGroup::parse(c, el) {
                    Ok(v) => {
                        register_groups.push(v);
                    },
                    Err(e) => {
                        proof {
                            lemma_filter_take_step(
                                el.children@,
                                tag_is("register-group"@),
                                i as int,
                            );
                        }
                        return Err(e);
                    },
                }
            }
            i += 1;
        }
        proof {
            assert(el.children@.take(n as int) =~= el.children@);
        }
        let mut value_groups: Vec<ValueGroup> = Vec::new();
        let mut j: usize = 0;
        while j < n
            invariant
                n == el.children@.len(),
                j <= n,
                find_attr(el.attrs@, "name"@) is Some,
                rgroups_list_ok(rgroup_nodes(*el), *el),
                vgroups_list_ok(el.children@.take(j as int).filter(tag_is("value-group"@))),
                vgroups_list_rel(
                    value_groups@,
                    el.children@.take(j as int).filter(tag_is("value-group"@)),
                ),
            decreases n - j,
        {
            proof {
                reveal(Seq::filter);
                assert(el.children@.take(j as int + 1).drop_last() =~= el.children@.take(
                    j as int,
                ));
            }
            let c = &el.children[j];
            if str_eq(c.name.as_str(), "value-group") {
                match ValueGroup::parse(c) {
                    Ok(v) => {
                        value_groups.push(v);
                    },
                    Err(e) => {
                        proof {
                            lemma_filter_take_step(el.children@, tag_is("value-group"@), j as int);
                        }
                        return Err(e);
                    },
                }
            }
            j += 1;
        }
        proof {
            assert(el.children@.take(n as int) =~= el.children@);
        }
        Ok(Module { name, description, register_groups, value_groups })
    }
}

/// Every address-space node of `ns` parses.
pub open spec fn aspaces_list_ok(ns: Seq<Node>) -> bool {
    forall|k: int| 0 <= k < ns.len() ==> aspace_ok(#[trigger] ns[k])
}

/// `list` holds the parse of each address-space node of `ns`, in order.
pub open spec fn aspaces_list_rel(list: Seq<AddressSpace>, ns: Seq<Node>) -> bool {
    &&& list.len() == ns.len()
    &&& forall|k: int| 0 <= k < ns.len() ==> aspace_rel(#[trigger] list[k], ns[k])
}

/// `e` is the error of the first address-space node of `ns` that fails.
pub open spec fn aspaces_list_err(ns: Seq<Node>, e: Error) -> bool {
    exists|k: int|
        0 <= k < ns.len() && !aspace_ok(#[trigger] ns[k]) && aspace_err(ns[k], e) && (forall|
            j: int,
        |
            0 <= j < k ==> aspace_ok(#[trigger] ns[j]))
}

/// Every family node of `ns` parses against the modules section.
pub open spec fn fams_list_ok(ns: Seq<Node>, modules: Node) -> bool {
    forall|k: int| 0 <= k < ns.len() ==> family_ok(#[trigger] ns[k], modules)
}

/// `list` holds the parse of each family node of `ns`, in order.
pub open spec fn fams_list_rel(list: Seq<PeripheralFamily>, ns: Seq<Node>, modules: Node) -> bool {
    &&& list.len() == ns.len()
    &&& forall|k: int| 0 <= k < ns.len() ==> family_rel(#[trigger] list[k], ns[k], modules)
}

/// `e` is the error of the first family node of `ns` that fails.
pub open spec fn fams_list_err(ns: Seq<Node>, modules: Node, e: Error) -> bool {
    exists|k: int|
        0 <= k < ns.len() && !family_ok(#[trigger] ns[k], modules) && family_err(
            ns[k],
            modules,
            e,
        ) && (forall|j: int| 0 <= j < k ==> family_ok(#[trigger] ns[j], modules))
}

/// Parses every address-space child of the container node.
fn parse_aspaces(cont: &Node) -> (r: Result<Vec<AddressSpace>, Error>)
    ensures
        match r {
            Ok(list) => aspaces_list_ok(cont.children@.filter(tag_is("address-space"@)))
                && aspaces_list_rel(list@, cont.children@.filter(tag_is("address-space"@))),
            Err(e) => !aspaces_list_ok(cont.children@.filter(tag_is("address-space"@)))
                && aspaces_list_err(cont.children@.filter(tag_is("address-space"@)), e),
        },
{
    let n = cont.children.len();
    let mut out: Vec<AddressSpace> = Vec::new();
    let mut i: usize = 0;
    while i < n
        invariant
            n == cont.children@.len(),
            i <= n,
            aspaces_list_ok(cont.children@.take(i as int).filter(tag_is("address-space"@))),
            aspaces_list_rel(out@, cont.children@.take(i as int).filter(tag_is("address-space"@))),
        decreases n - i,
    {
        proof {
            reveal(Seq::filter);
            assert(cont.children@.take(i as int + 1).drop_last() =~= cont.children@.take(i as int));
        }
        let c = &cont.children[i];
        if str_eq(c.name.as_str(), "address-space") {
            match AddressSpace::parse(c) {
                Ok(v) => {
                    out.push(v);
                },
                Err(e) => {
                    proof {
                        lemma_filter_take_step(cont.children@, tag_is("address-space"@), i as int);
                    }
                    return Err(e);
                },
            }
        }
        i += 1;
    }
    proof {
        assert(cont.children@.take(n as int) =~= cont.children@);
    }
    Ok(out)
}

/// Parses every family (`module`-tagged) child of the peripherals container.
fn parse_fams(cont: &Node, modules: &Node) -> (r: Result<Vec<PeripheralFamily>, Error>)
    ensures
        match r {
            Ok(list) => fams_list_ok(cont.children@.filter(tag_is("module"@)), *modules)
                && fams_list_rel(list@, cont.children@.filter(tag_is("module"@)), *modules),
            Err(e) => !fams_list_ok(cont.children@.filter(tag_is("module"@)), *modules)
                && fams_list_err(cont.children@.filter(tag_is("module"@)), *modules, e),
        },
{
    let n = cont.children.len();
    let mut out: Vec<PeripheralFamily> = Vec::new();
    let mut i: usize = 0;
    while i < n
        invariant
            n == cont.children@.len(),
            i <= n,
            fams_list_ok(cont.children@.take(i as int).filter(tag_is("module"@)), *modules),
            fams_list_rel(
                out@,
                cont.children@.take(i as int).filter(tag_is("module"@)),
                *modules,
            ),
        decreases n - i,
    {
        proof {
            reveal(Seq::filter);
            assert(cont.children@.take(i as int + 1).drop_last() =~= cont.children@.take(i as int));
        }
        let c = &cont.children[i];
        if str_eq(c.name.as_str(), "module") {
            match PeripheralFamily::parse(c, modules) {
                Ok(v) => {
                    out.push(v);
                },
                Err(e) => {
                    proof {
                        lemma_filter_take_step(cont.children@, tag_is("module"@), i as int);
                    }
                    return Err(e);
                },
            }
        }
        i += 1;
    }
    proof {
        assert(cont.children@.take(n as int) =~= cont.children@);
    }
    Ok(out)
}

/// One fully resolved device.
#[derive(Debug, PartialEq)]
pub struct Device {
    pub name: String,
    pub address_spaces: Vec<AddressSpace>,
    pub peripherals: Vec<PeripheralFamily>,
    pub interrupts: Vec<Interrupt>,
}

/// A device node parses against the modules section: its address spaces,
/// peripheral families and interrupts all parse (a missing container is an
/// empty list).
pub open spec fn device_ok(el: Node, modules: Node) -> bool {
    &&& find_attr(el.attrs@, "name"@) is Some
    &&& aspaces_list_ok(container_nodes(el, "address-spaces"@, "address-space"@))
    &&& fams_list_ok(container_nodes(el, "peripherals"@, "module"@), modules)
    &&& interrupts_list_ok(container_nodes(el, "interrupts"@, "interrupt"@))
}

/// The fields a parsed device must hold, against its node and the modules
/// section.
pub open spec fn device_rel(d: Device, el: Node, modules: Node) -> bool {
    &&& Some(d.name@) == find_attr(el.attrs@, "name"@)
    &&& aspaces_list_rel(
        d.address_spaces@,
        container_nodes(el, "address-spaces"@, "address-space"@),
    )
    &&& fams_list_rel(d.peripherals@, container_nodes(el, "peripherals"@, "module"@), modules)
    &&& interrupts_list_rel(d.interrupts@, container_nodes(el, "interrupts"@, "interrupt"@))
}

/// The error a failing device node produces.
pub open spec fn device_err(el: Node, modules: Node, e: Error) -> bool {
    if find_attr(el.attrs@, "name"@) is None {
        miss_attr(e, el.name@, "name"@)
    } else if !aspaces_list_ok(container_nodes(el, "address-spaces"@, "address-space"@)) {
        aspaces_list_err(container_nodes(el, "address-spaces"@, "address-space"@), e)
    } else if !fams_list_ok(container_nodes(el, "peripherals"@, "module"@), modules) {
        fams_list_err(container_nodes(el, "peripherals"@, "module"@), modules, e)
    } else {
        interrupts_list_err(container_nodes(el, "interrupts"@, "interrupt"@), e)
    }
}

impl Device {
    /// The address spaces of the device, in declaration order.
    pub fn address_spaces(&self) -> (r: &Vec<AddressSpace>)
        ensures
            *r == self.address_spaces,
    {
        &self.address_spaces
    }

    /// The peripheral families of the device, in declaration order.
    pub fn peripherals(&self) -> (r: &Vec<PeripheralFamily>)
        ensures
            *r == self.peripherals,
    {
        &self.peripherals
    }

    /// The interrupts of the device, in declaration order.
    pub fn interrupts(&self) -> (r: &Vec<Interrupt>)
        ensures
            *r == self.interrupts,
    {
        &self.interrupts
    }

    /// Parses one device declaration against the modules section.
    pub fn parse(el: &Node, modules: &Node) -> (r: Result<Device, Error>)
        ensures
            match r {
                Ok(d) => device_ok(*el, *modules) && device_rel(d, *el, *modules),
                Err(e) => !device_ok(*el, *modules) && device_err(*el, *modules, e),
            },
    {
        let name = match attr(el, "name") {
            Ok(v) => v.clone(),
            Err(e) => return Err(e),
        };
        let address_spaces: Vec<AddressSpace> = match child(el, "address-spaces") {
            Err(_) => Vec::new(),
            Ok(cont) => match parse_aspaces(cont) {
                Ok(v) => v,
                Err(e) => return Err(e),
            },
        };
        let peripherals: Vec<PeripheralFamily> = match child(el, "peripherals") {
            Err(_) => Vec::new(),
            Ok(cont) => match parse_fams(cont, modules) {
                Ok(v) => v,
                Err(e) => return Err(e),
            },
        };
        let interrupts: Vec<Interrupt> = match child(el, "interrupts") {
            Err(_) => Vec::new(),
            Ok(cont) => match Interrupts::parse(cont) {
                Ok(v) => v.0,
                Err(e) => return Err(e),
            },
        };
        Ok(Device { name, address_spaces, peripherals, interrupts })
    }
}

/// Every device node of `ns` parses against the modules section.
pub open spec fn devices_list_ok(ns: Seq<Node>, modules: Node) -> bool {
    forall|k: int| 0 <= k < ns.len() ==> device_ok(#[trigger] ns[k], modules)
}

/// `list` holds the parse of each device node of `ns`, in order.
pub open spec fn devices_list_rel(list: Seq<Device>, ns: Seq<Node>, modules: Node) -> bool {
    &&& list.len() == ns.len()
    &&& forall|k: int| 0 <= k < ns.len() ==> device_rel(#[trigger] list[k], ns[k], modules)
}

/// `e` is the error of the first device node of `ns` that fails.
pub open spec fn devices_list_err(ns: Seq<Node>, modules: Node, e: Error) -> bool {
    exists|k: int|
        0 <= k < ns.len() && !device_ok(#[trigger] ns[k], modules) && device_err(
            ns[k],
            modules,
            e,
        ) && (forall|j: int| 0 <= j < k ==> device_ok(#[trigger] ns[j], modules))
}

/// Every module node of `ns` parses.
pub open spec fn modules_list_ok(ns: Seq<Node>) -> bool {
    forall|k: int| 0 <= k < ns.len() ==> module_ok(#[trigger] ns[k])
}

/// `list` holds the parse of each module node of `ns`, in order.
pub open spec fn modules_list_rel(list: Seq<Module>, ns: Seq<Node>) -> bool {
    &&& list.len() == ns.len()
    &&& forall|k: int| 0 <= k < ns.len() ==> module_rel(#[trigger] list[k], ns[k])
}

/// `e` is the error of the first module node of `ns` that fails.
pub open spec fn modules_list_err(ns: Seq<Node>, e: Error) -> bool {
    exists|k: int|
        0 <= k < ns.len() && !module_ok(#[trigger] ns[k]) && module_err(ns[k], e) && (forall|
            j: int,
        |
            0 <= j < k ==> module_ok(#[trigger] ns[j]))
}

/// Parses every device child of the devices section.
fn parse_device_list(cont: &Node, modules: &Node) -> (r: Result<Vec<Device>, Error>)
    ensures
        match r {
            Ok(list) => devices_list_ok(cont.children@.filter(tag_is("device"@)), *modules)
                && devices_list_rel(list@, cont.children@.filter(tag_is("device"@)), *modules),
            Err(e) => !devices_list_ok(cont.children@.filter(tag_is("device"@)), *modules)
                && devices_list_err(cont.children@.filter(tag_is("device"@)), *modules, e),
        },
{
    let n = cont.children.len();
    let mut out: Vec<Device> = Vec::new();
    let mut i: usize = 0;
    while i < n
        invariant
            n == cont.children@.len(),
            i <= n,
            devices_list_ok(cont.children@.take(i as int).filter(tag_is("device"@)), *modules),
            devices_list_rel(
                out@,
                cont.children@.take(i as int).filter(tag_is("device"@)),
                *modules,
            ),
        decreases n - i,
    {
        proof {
            reveal(Seq::filter);
            assert(cont.children@.take(i as int + 1).drop_last() =~= cont.children@.take(i as int));
        }
        let c = &cont.children[i];
        if str_eq(c.name.as_str(), "device") {
            match Device::parse(c, modules) {
                Ok(v) => {
                    out.push(v);
                },
                Err(e) => {
                    proof {
                        lemma_filter_take_step(cont.children@, tag_is("device"@), i as int);
                    }
                    return Err(e);
                },
            }
        }
        i += 1;
    }
    proof {
        assert(cont.children@.take(n as int) =~= cont.children@);
    }
    Ok(out)
}

/// Parses every module child of the modules section.
fn parse_module_list(cont: &Node) -> (r: Result<Vec<Module>, Error>)
    ensures
        match r {
            Ok(list) => modules_list_ok(cont.children@.filter(tag_is("module"@)))
                && modules_list_rel(list@, cont.children@.filter(tag_is("module"@))),
            Err(e) => !modules_list_ok(cont.children@.filter(tag_is("module"@)))
                && modules_list_err(cont.children@.filter(tag_is("module"@)), e),
        },
{
    let n = cont.children.len();
    let mut out: Vec<Module> = Vec::new();
    let mut i: usize = 0;
    while i < n
        invariant
            n == cont.children@.len(),
            i <= n,
            modules_list_ok(cont.children@.take(i as int).filter(tag_is("module"@))),
            modules_list_rel(out@, cont.children@.take(i as int).filter(tag_is("module"@))),
        decreases n - i,
    {
        proof {
            reveal(Seq::filter);
            assert(cont.children@.take(i as int + 1).drop_last() =~= cont.children@.take(i as int));
        }
        let c = &cont.children[i];
        if str_eq(c.name.as_str(), "module") {
            match Module::parse(c) {
                Ok(v) => {
                    out.push(v);
                },
                Err(e) => {
                    proof {
                        lemma_filter_take_step(cont.children@, tag_is("module"@), i as int);
                    }
                    return Err(e);
                },
            }
        }
        i += 1;
    }
    proof {
        assert(cont.children@.take(n as int) =~= cont.children@);
    }
    Ok(out)
}

/// A parsed document: its resolved devices and the modules they resolved
/// against.
#[derive(Debug, PartialEq)]
pub struct Atdf {
    pub devices: Vec<Device>,
    pub modules: Vec<Module>,
}

/// The expected tag of the document root.
pub open spec fn root_tag() -> Seq<char> {
    "avr-tools-device-file"@
}

/// A document root parses: it carries the expected tag, holds `devices` and
/// `modules` sections, and every device and module declaration parses.
pub open spec fn atdf_ok(root: Node) -> bool {
    &&& root.name@ == root_tag()
    &&& find_child(root.children@, "devices"@) is Some
    &&& find_child(root.children@, "modules"@) is Some
    &&& devices_list_ok(
        container_nodes(root, "devices"@, "device"@),
        find_child(root.children@, "modules"@)->Some_0,
    )
    &&& modules_list_ok(container_nodes(root, "modules"@, "module"@))
}

/// The content a parsed document must hold, against its root node.
pub open spec fn atdf_rel(a: Atdf, root: Node) -> bool {
    &&& devices_list_rel(
        a.devices@,
        container_nodes(root, "devices"@, "device"@),
        find_child(root.children@, "modules"@)->Some_0,
    )
    &&& modules_list_rel(a.modules@, container_nodes(root, "modules"@, "module"@))
}

/// The error a failing document produces.
pub open spec fn atdf_err(root: Node, e: Error) -> bool {
    if root.name@ != root_tag() {
        miss_child(e, root.name@, root_tag())
    } else if find_child(root.children@, "devices"@) is None {
        miss_child(e, root.name@, "devices"@)
    } else if find_child(root.children@, "modules"@) is None {
        miss_child(e, root.name@, "modules"@)
    } else {
        let modules = find_child(root.children@, "modules"@)->Some_0;
        if !devices_list_ok(container_nodes(root, "devices"@, "device"@), modules) {
            devices_list_err(container_nodes(root, "devices"@, "device"@), modules, e)
        } else {
            modules_list_err(container_nodes(root, "modules"@, "module"@), e)
        }
    }
}

impl Atdf {
    /// The resolved devices of the document, in declaration order.
    pub fn devices(&self) -> (r: &Vec<Device>)
        ensures
            *r == self.devices,
    {
        &self.devices
    }

    /// The modules of the document, in declaration order.
    pub fn modules(&self) -> (r: &Vec<Module>)
        ensures
            *r == self.modules,
    {
        &self.modules
    }
}

/// Parses a whole document from its root node: validates the root tag,
/// locates the `devices` and `modules` sections, and produces one resolved
/// device per declaration, aborting on the first failing device.  A root
/// with another tag is reported as a missing expected element, carrying the
/// tag that was found and the one expected.
pub fn parse(root: &Node) -> (r: Result<Atdf, Error>)
    ensures
        match r {
            Ok(a) => atdf_ok(*root) && atdf_rel(a, *root),
            Err(e) => !atdf_ok(*root) && atdf_err(*root, e),
        },
{
    if !str_eq(root.name.as_str(), "avr-tools-device-file") {
        return Err(Error::MissingChild(root.name.clone(), "avr-tools-device-file".to_owned()));
    }
    let devs_node = match child(root, "devices") {
        Ok(c) => c,
        Err(e) => return Err(e),
    };
    let mods_node = match child(root, "modules") {
        Ok(c) => c,
        Err(e) => return Err(e),
    };
    let devices = match parse_device_list(devs_node, mods_node) {
        Ok(v) => v,
        Err(e) => return Err(e),
    };
    let modules = match parse_module_list(mods_node) {
        Ok(v) => v,
        Err(e) => return Err(e),
    };
    Ok(Atdf { devices, modules })
}

} // verus!
