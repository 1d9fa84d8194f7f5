//! Peripheral families and their concrete instances.
//!
//! An instance declares its own (possibly empty) register-group node.  A
//! non-empty node is used as it stands (local override); an empty one is a
//! stub that names a register-group of the module matching the family, under
//! its `name-in-module` attribute (falling back to `name`).  An instance
//! whose only failure is a missing register-group child legitimately has no
//! registers and is omitted from its family; every other failure aborts the
//! enclosing device parse.

use vstd::prelude::*;

use crate::err::Error;
use crate::err::invalid_lit;
use crate::err::miss_attr;
use crate::err::miss_child;
use crate::err::miss_named;
use crate::num::index_literal;
use crate::num::parse;
use crate::register::Register;
use crate::register::node_registers;
use crate::register::parse_registers;
use crate::register::registers_list_err;
use crate::register::registers_list_ok;
use crate::register::registers_list_rel;
use crate::tree::Node;
use crate::tree::attr;
use crate::tree::attr_opt;
use crate::tree::attr_num_is;
use crate::tree::attr_num_ok;
use crate::tree::child;
use crate::tree::find_attr;
use crate::tree::find_child;
use crate::tree::find_named_child;
use crate::tree::lemma_filter_take_step;
use crate::tree::named_child;
use crate::tree::opt_view;
use crate::tree::str_eq;
use crate::tree::tag_is;

verus! {

/// A signal pin of an instance.  Its index is a bare index: a leading zero
/// is decimal there, never octal.
#[derive(Debug, PartialEq)]
pub struct Signal {
    pub group: String,
    pub index: Option<u32>,
    pub pad: String,
}

/// A signal node parses: `group` and `pad` are present and an `index`
/// attribute, if any, decodes under the bare-index rule set into 32 bits.
pub open spec fn signal_ok(el: Node) -> bool {
    &&& find_attr(el.attrs@, "group"@) is Some
    &&& find_attr(el.attrs@, "pad"@) is Some
    &&& match find_attr(el.attrs@, "index"@) {
        None => true,
        Some(t) => match index_literal(t) {
            Some(v) => v < 0x1_0000_0000,
            None => false,
        },
    }
}

/// The fields a parsed signal must hold, against its node.
pub open spec fn signal_rel(sg: Signal, el: Node) -> bool {
    &&& Some(sg.group@) == find_attr(el.attrs@, "group"@)
    &&& Some(sg.pad@) == find_attr(el.attrs@, "pad"@)
    &&& match find_attr(el.attrs@, "index"@) {
        None => sg.index is None,
        Some(t) => sg.index matches Some(v) && index_literal(t) == Some(v as nat),
    }
}

/// The error a failing signal node produces.
pub open spec fn signal_err(el: Node, e: Error) -> bool {
    if find_attr(el.attrs@, "group"@) is None {
        miss_attr(e, el.name@, "group"@)
    } else if find_attr(el.attrs@, "pad"@) is None {
        miss_attr(e, el.name@, "pad"@)
    } else {
        match find_attr(el.attrs@, "index"@) {
            None => false,
            Some(t) => invalid_lit(e, t),
        }
    }
}

impl Signal {
    /// Parses one signal from its node.
    pub fn parse(el: &Node) -> (r: Result<Signal, Error>)
        ensures
            match r {
                Ok(sg) => signal_ok(*el) && signal_rel(sg, *el),
                Err(e) => !signal_ok(*el) && signal_err(*el, e),
            },
    {
        let group = match attr(el, "group") {
            Ok(v) => v.clone(),
            Err(e) => return Err(e),
        };
        let pad = match attr(el, "pad") {
            Ok(v) => v.clone(),
            Err(e) => return Err(e),
        };
        let index: Option<u32> = match attr_opt(el, "index") {
            None => None,
            Some(t) => match parse(t.as_str()) {
                Ok(v) => Some(v),
                Err(e) => return Err(e),
            },
        };
        Ok(Signal { group, index, pad })
    }
}

/// The signal nodes of an instance: the `signal` children of its optional
/// `signals` child.
pub open spec fn inst_signals(el: Node) -> Seq<Node> {
    match find_child(el.children@, "signals"@) {
        None => Seq::empty(),
        Some(sc) => sc.children@.filter(tag_is("signal"@)),
    }
}

/// Every node of `ss` parses as a signal.
pub open spec fn signals_list_ok(ss: Seq<Node>) -> bool {
    forall|k: int| 0 <= k < ss.len() ==> signal_ok(#[trigger] ss[k])
}

/// `list` holds the parse of each node of `ss`, in order.
pub open spec fn signals_list_rel(list: Seq<Signal>, ss: Seq<Node>) -> bool {
    &&& list.len() == ss.len()
    &&& forall|k: int| 0 <= k < ss.len() ==> signal_rel(#[trigger] list[k], ss[k])
}

/// `e` is the error of the first node of `ss` failing as a signal.
pub open spec fn signals_list_err(ss: Seq<Node>, e: Error) -> bool {
    exists|k: int|
        0 <= k < ss.len() && !signal_ok(#[trigger] ss[k]) && signal_err(ss[k], e) && (forall|j: int|
            0 <= j < k ==> signal_ok(#[trigger] ss[j]))
}

/// Parses the signals of an instance node; a missing `signals` child is an
/// empty list.
fn parse_signals(el: &Node) -> (r: Result<Vec<Signal>, Error>)
    ensures
        match r {
            Ok(list) => signals_list_ok(inst_signals(*el)) && signals_list_rel(
                list@,
                inst_signals(*el),
            ),
            Err(e) => !signals_list_ok(inst_signals(*el)) && signals_list_err(
                inst_signals(*el),
                e,
            ),
        },
{
    let sc = match child(el, "signals") {
        Ok(c) => c,
        Err(_) => {
            let empty: Vec<Signal> = Vec::new();
            return Ok(empty);
        },
    };
    let n = sc.children.len();
    let mut out: Vec<Signal> = Vec::new();
    let mut i: usize = 0;
    while i < n
        invariant
            n == sc.children@.len(),
            i <= n,
            find_child(el.children@, "signals"@) == Some(*sc),
            signals_list_ok(sc.children@.take(i as int).filter(tag_is("signal"@))),
            signals_list_rel(out@, sc.children@.take(i as int).filter(tag_is("signal"@))),
        decreases n - i,
    {
        proof {
            reveal(Seq::filter);
            assert(sc.children@.take(i as int + 1).drop_last() =~= sc.children@.take(i as int));
        }
        let c = &sc.children[i];
        if str_eq(c.name.as_str(), "signal") {
            match Signal::parse(c) {
                Ok(v) => {
                    out.push(v);
                },
                Err(e) => {
                    proof {
                        lemma_filter_take_step(sc.children@, tag_is("signal"@), i as int);
                    }
                    return Err(e);
                },
            }
        }
        i += 1;
    }
    proof {
        assert(sc.children@.take(n as int) =~= sc.children@);
    }
    Ok(out)
}

/// The name under which an instance's register-group stub refers into the
/// module: its `name-in-module` attribute, falling back to `name`.
pub open spec fn ref_name(rg: Node) -> Option<Seq<char>> {
    match find_attr(rg.attrs@, "name-in-module"@) {
        Some(t) => Some(t),
        None => find_attr(rg.attrs@, "name"@),
    }
}

/// The node whose register children an instance takes: its own
/// register-group node when that has children (local override), else the
/// named register-group of the module.  Meaningful under [`inst_ok`].
pub open spec fn inst_target(rg: Node, module: Node) -> Node {
    if rg.children@.len() > 0 {
        rg
    } else {
        find_named_child(module.children@, "register-group"@, ref_name(rg)->Some_0)->Some_0
    }
}

/// A concrete peripheral placement, with its register-group reference
/// resolved into owned registers.
#[derive(Debug, PartialEq)]
pub struct Instance {
    pub name: String,
    pub description: Option<String>,
    /// The address space the register group lives in.
    pub address_space: String,
    /// The offset of the register group within that address space.
    pub offset: u32,
    pub registers: Vec<Register>,
    pub signals: Vec<Signal>,
}

/// An instance node parses and resolves against `module`.
pub open spec fn inst_ok(el: Node, module: Node) -> bool {
    &&& find_attr(el.attrs@, "name"@) is Some
    &&& match find_child(el.children@, "register-group"@) {
        None => false,
        Some(rg) => {
            &&& find_attr(rg.attrs@, "address-space"@) is Some
            &&& attr_num_ok(rg.attrs@, "offset"@)
            &&& if rg.children@.len() > 0 {
                registers_list_ok(node_registers(rg), module)
            } else {
                &&& ref_name(rg) is Some
                &&& find_named_child(module.children@, "register-group"@, ref_name(rg)->Some_0)
                    is Some
                &&& registers_list_ok(node_registers(inst_target(rg, module)), module)
            }
        },
    }
    &&& signals_list_ok(inst_signals(el))
}

/// The instance's only failure is a missing register-group child: it is
/// treated as valid-but-empty and omitted from its family.
pub open spec fn inst_dropped(el: Node) -> bool {
    &&& find_attr(el.attrs@, "name"@) is Some
    &&& find_child(el.children@, "register-group"@) is None
}

/// The fields a parsed instance must hold, against its node and module.
pub open spec fn inst_rel(inst: Instance, el: Node, module: Node) -> bool {
    &&& Some(inst.name@) == find_attr(el.attrs@, "name"@)
    &&& opt_view(inst.description) == find_attr(el.attrs@, "caption"@)
    &&& {
        let rg = find_child(el.children@, "register-group"@)->Some_0;
        &&& Some(inst.address_space@) == find_attr(rg.attrs@, "address-space"@)
        &&& attr_num_is(rg.attrs@, "offset"@, inst.offset)
        &&& registers_list_rel(inst.registers@, node_registers(inst_target(rg, module)), module)
    }
    &&& signals_list_rel(inst.signals@, inst_signals(el))
}

/// The error a failing instance node produces.
pub open spec fn inst_err(el: Node, module: Node, e: Error) -> bool {
    if find_attr(el.attrs@, "name"@) is None {
        miss_attr(e, el.name@, "name"@)
    } else {
        match find_child(el.children@, "register-group"@) {
            None => miss_child(e, el.name@, "register-group"@),
            Some(rg) => if find_attr(rg.attrs@, "address-space"@) is None {
                miss_attr(e, rg.name@, "address-space"@)
            } else {
                match find_attr(rg.attrs@, "offset"@) {
                    None => miss_attr(e, rg.name@, "offset"@),
                    Some(t) => if !attr_num_ok(rg.attrs@, "offset"@) {
                        invalid_lit(e, t)
                    } else if rg.children@.len() == 0 && ref_name(rg) is None {
                        miss_attr(e, rg.name@, "name"@)
                    } else if rg.children@.len() == 0 && find_named_child(
                        module.children@,
                        "register-group"@,
                        ref_name(rg)->Some_0,
                    ) is None {
                        miss_named(e, module.name@, "register-group"@, ref_name(rg)->Some_0)
                    } else if !registers_list_ok(node_registers(inst_target(rg, module)), module) {
                        registers_list_err(node_registers(inst_target(rg, module)), module, e)
                    } else {
                        signals_list_err(inst_signals(el), e)
                    },
                }
            },
        }
    }
}

impl Instance {
    /// The signal pins of the instance, in declaration order.
    pub fn signals(&self) -> (r: &Vec<Signal>)
        ensures
            *r == self.signals,
    {
        &self.signals
    }

    /// Parses one instance, resolving its register-group reference against
    /// the module matching the peripheral family.
    pub fn parse(el: &Node, module: &Node) -> (r: Result<Instance, Error>)
        ensures
            match r {
                Ok(inst) => inst_ok(*el, *module) && inst_rel(inst, *el, *module),
                Err(e) => !inst_ok(*el, *module) && inst_err(*el, *module, e),
            },
    {
        let name = match attr(el, "name") {
            Ok(v) => v.clone(),
            Err(e) => return Err(e),
        };
        let description = attr_opt(el, "caption");
        let rg = match child(el, "register-group") {
            Ok(c) => c,
            Err(e) => return Err(e),
        };
        let address_space = match attr(rg, "address-space") {
            Ok(v) => v.clone(),
            Err(e) => return Err(e),
        };
        let ot = match attr(rg, "offset") {
            Ok(v) => v,
            Err(e) => return Err(e),
        };
        let offset = match crate::num::parse_uint(ot.as_str()) {
            Ok(v) => v,
            Err(e) => return Err(e),
        };
        let target: &Node = if rg.children.len() > 0 {
            rg
        } else {
            let nm: &String = match attr(rg, "name-in-module") {
                Ok(v) => v,
                Err(_) => match attr(rg, "name") {
                    Ok(v) => v,
                    Err(e) => return Err(e),
                },
            };
            match named_child(module, "register-group", nm.as_str()) {
                Ok(c) => c,
                Err(e) => return Err(e),
            }
        };
        let registers = match parse_registers(target, module) {
            Ok(v) => v,
            Err(e) => return Err(e),
        };
        let signals = match parse_signals(el) {
            Ok(v) => v,
            Err(e) => return Err(e),
        };
        Ok(Instance { name, description, address_space, offset, registers, signals })
    }
}

/// The instance children of a family node, in order.
pub open spec fn inst_nodes(el: Node) -> Seq<Node> {
    el.children@.filter(tag_is("instance"@))
}

/// The predicate selecting instances that parse against `module`.
pub open spec fn kept_pred(module: Node) -> spec_fn(Node) -> bool {
    |c: Node| inst_ok(c, module)
}

/// The instance nodes a family keeps: those that parse; instances whose only
/// failure is a missing register-group child are omitted.
pub open spec fn kept_instances(el: Node, module: Node) -> Seq<Node> {
    inst_nodes(el).filter(kept_pred(module))
}

/// The module of a family: the named module matching the family's name.
pub open spec fn family_module(el: Node, modules: Node) -> Option<Node> {
    match find_attr(el.attrs@, "name"@) {
        Some(nm) => find_named_child(modules.children@, "module"@, nm),
        None => None,
    }
}

/// A family node parses against the `modules` section: its module resolves
/// and every instance child either parses or is legitimately empty.
pub open spec fn family_ok(el: Node, modules: Node) -> bool {
    &&& find_attr(el.attrs@, "name"@) is Some
    &&& family_module(el, modules) is Some
    &&& forall|k: int|
        0 <= k < inst_nodes(el).len() ==> inst_ok(
            #[trigger] inst_nodes(el)[k],
            family_module(el, modules)->Some_0,
        ) || inst_dropped(inst_nodes(el)[k])
}

/// A family of peripheral instances sharing one register layout, defined by
/// the module of the same name.
#[derive(Debug, PartialEq)]
pub struct PeripheralFamily {
    pub name: String,
    pub description: Option<String>,
    pub instances: Vec<Instance>,
}

/// The fields a parsed family must hold, against its node and the modules
/// section.
pub open spec fn family_rel(fam: PeripheralFamily, el: Node, modules: Node) -> bool {
    &&& Some(fam.name@) == find_attr(el.attrs@, "name"@)
    &&& opt_view(fam.description) == find_attr(el.attrs@, "caption"@)
    &&& {
        let module = family_module(el, modules)->Some_0;
        let kept = kept_instances(el, module);
        &&& fam.instances@.len() == kept.len()
        &&& forall|k: int|
            0 <= k < kept.len() ==> inst_rel(#[trigger] fam.instances@[k], kept[k], module)
    }
}

/// The error a failing family node produces.
pub open spec fn family_err(el: Node, modules: Node, e: Error) -> bool {
    if find_attr(el.attrs@, "name"@) is None {
        miss_attr(e, el.name@, "name"@)
    } else if family_module(el, modules) is None {
        miss_named(e, modules.name@, "module"@, find_attr(el.attrs@, "name"@)->Some_0)
    } else {
        let module = family_module(el, modules)->Some_0;
        exists|k: int|
            0 <= k < inst_nodes(el).len() && !inst_ok(#[trigger] inst_nodes(el)[k], module)
                && !inst_dropped(inst_nodes(el)[k]) && inst_err(inst_nodes(el)[k], module, e) && (
            forall|j: int|
                0 <= j < k ==> inst_ok(#[trigger] inst_nodes(el)[j], module) || inst_dropped(
                    inst_nodes(el)[j],
                ))
    }
}

impl PeripheralFamily {
    /// Parses one peripheral family, resolving its instances against the
    /// module matching the family's name.  An instance whose only failure is
    /// a missing register-group child is omitted; any other failing instance
    /// aborts the parse.
    pub fn parse(el: &Node, modules: &Node) -> (r: Result<PeripheralFamily, Error>)
        ensures
            match r {
                Ok(fam) => family_ok(*el, *modules) && family_rel(fam, *el, *modules),
                Err(e) => !family_ok(*el, *modules) && family_err(*el, *modules, e),
            },
    {
        let name = match attr(el, "name") {
            Ok(v) => v.clone(),
            Err(e) => return Err(e),
        };
        let description = attr_opt(el, "caption");
        let module = match named_child(modules, "module", name.as_str()) {
            Ok(c) => c,
            Err(e) => return Err(e),
        };
        let n = el.children.len();
        let mut out: Vec<Instance> = Vec::new();
        let mut i: usize = 0;
        while i < n
            invariant
                n == el.children@.len(),
                i <= n,
                find_attr(el.attrs@, "name"@) == Some(name@),
                find_named_child(modules.children@, "module"@, name@) == Some(*module),
                family_module(*el, *modules) == Some(*module),
                forall|k: int|
                    0 <= k < el.children@.take(i as int).filter(tag_is("instance"@)).len()
                        ==> inst_ok(
                        #[trigger] el.children@.take(i as int).filter(tag_is("instance"@))[k],
                        *module,
                    ) || inst_dropped(el.children@.take(i as int).filter(tag_is("instance"@))[k]),
                out@.len() == el.children@.take(i as int).filter(tag_is("instance"@)).filter(
                    kept_pred(*module),
                ).len(),
                forall|k: int|
                    0 <= k < out@.len() ==> inst_rel(
                        #[trigger] out@[k],
                        el.children@.take(i as int).filter(tag_is("instance"@)).filter(
                            kept_pred(*module),
                        )[k],
                        *module,
                    ),
            decreases n - i,
        {
            let ghost insts_pre = el.children@.take(i as int).filter(tag_is("instance"@));
            proof {
                reveal(Seq::filter);
                assert(el.children@.take(i as int + 1).drop_last() =~= el.children@.take(
                    i as int,
                ));
            }
            let c = &el.children[i];
            if str_eq(c.name.as_str(), "instance") {
                let has_name = match attr(c, "name") {
                    Ok(_) => true,
                    Err(_) => false,
                };
                let has_rg = match child(c, "register-group") {
                    Ok(_) => true,
                    Err(_) => false,
                };
                if has_name && !has_rg {
                    proof {
                        assert(inst_dropped(el.children@[i as int]));
                        assert(!inst_ok(el.children@[i as int], *module));
                        assert(insts_pre.push(el.children@[i as int]).drop_last() =~= insts_pre);
                    }
                } else {
                    match Instance::parse(c, module) {
                        Ok(inst) => {
                            proof {
                                assert(insts_pre.push(el.children@[i as int]).drop_last()
                                    =~= insts_pre);
                                assert(kept_pred(*module)(el.children@[i as int]));
                            }
                            out.push(inst);
                        },
                        Err(e) => {
                            proof {
                                lemma_filter_take_step(el.children@, tag_is("instance"@), i as int);
                                let f = inst_nodes(*el);
                                assert(f[insts_pre.len() as int] == el.children@[i as int]);
                                assert(!inst_dropped(el.children@[i as int]));
                                assert forall|j: int| 0 <= j < insts_pre.len() implies inst_ok(
                                    #[trigger] f[j],
                                    *module,
                                ) || inst_dropped(f[j]) by {
                                    assert(f[j] == insts_pre[j]);
                                }
                                assert(family_err(*el, *modules, e));
                            }
                            return Err(e);
                        },
                    }
                }
            }
            i += 1;
        }
        proof {
            assert(el.children@.take(n as int) =~= el.children@);
        }
        Ok(PeripheralFamily { name, description, instances: out })
    }
}

} // verus!
