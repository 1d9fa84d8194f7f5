//! Register-level document entities: access modes, enumerated values,
//! bitfields, registers, and the named register/value groups of a module.
//!
//! Bitfields resolve their optional `values` attribute against a named
//! value-group of the peripheral's module; an unresolvable name is a hard
//! error.

use vstd::prelude::*;

use crate::err::Error;
use crate::err::invalid_lit;
use crate::err::miss_attr;
use crate::err::miss_named;
use crate::num::addr_literal;
use crate::num::parse_uint;
use crate::tree::Node;
use crate::tree::attr;
use crate::tree::attr_opt;
use crate::tree::attr_num_is;
use crate::tree::attr_num_ok;
use crate::tree::find_attr;
use crate::tree::find_named_child;
use crate::tree::lemma_filter_take_step;
use crate::tree::named_child;
use crate::tree::opt_view;
use crate::tree::str_eq;
use crate::tree::tag_is;

verus! {

/// How a register or memory segment may be accessed.
#[derive(Debug, Clone, Copy, PartialEq, Eq, Structural)]
pub enum Access {
    /// Reads and writes have different semantics (e.g. a data register).
    Bidirectional,
    ReadOnly,
    WriteOnly,
    ReadWrite,
}

impl Default for Access {
    /// Unannotated registers and segments are read-write.
    fn default() -> (r: Self)
        ensures
            r == Access::ReadWrite,
    {
        Access::ReadWrite
    }
}

/// The access mode an attribute text stands for: empty marks the
/// bidirectional case, `R`, `W` and `RW` their initials.
pub open spec fn access_val(t: Seq<char>) -> Option<Access> {
    if t.len() == 0 {
        Some(Access::Bidirectional)
    } else if t == "R"@ {
        Some(Access::ReadOnly)
    } else if t == "W"@ {
        Some(Access::WriteOnly)
    } else if t == "RW"@ {
        Some(Access::ReadWrite)
    } else {
        None
    }
}

/// Decodes an access-mode attribute text under [`access_val`].
pub fn parse_access(v: &str) -> (r: Option<Access>)
    ensures
        r == access_val(v@),
{
    if v.unicode_len() == 0 {
        Some(Access::Bidirectional)
    } else if str_eq(v, "R") {
        Some(Access::ReadOnly)
    } else if str_eq(v, "W") {
        Some(Access::WriteOnly)
    } else if str_eq(v, "RW") {
        Some(Access::ReadWrite)
    } else {
        None
    }
}

/// A named value inside a value-group of a module.
#[derive(Debug, PartialEq)]
pub struct Value {
    pub name: String,
    pub description: Option<String>,
    pub value: u32,
}

/// An enumerated value resolved onto a bitfield.
#[derive(Debug, PartialEq)]
pub struct EnumerationValue {
    pub name: String,
    pub description: Option<String>,
    pub value: u32,
}

/// A value node parses: it has a `name` attribute and a `value` attribute
/// that decodes under the address rule set into 32 bits.
pub open spec fn value_ok(el: Node) -> bool {
    &&& find_attr(el.attrs@, "name"@) is Some
    &&& attr_num_ok(el.attrs@, "value"@)
}

/// The fields a parsed value must hold, against its node.
pub open spec fn value_fields_rel(
    name: Seq<char>,
    desc: Option<Seq<char>>,
    value: u32,
    el: Node,
) -> bool {
    &&& Some(name) == find_attr(el.attrs@, "name"@)
    &&& desc == find_attr(el.attrs@, "caption"@)
    &&& attr_num_is(el.attrs@, "value"@, value)
}

/// The error a failing value node produces.
pub open spec fn value_err(el: Node, e: Error) -> bool {
    if find_attr(el.attrs@, "name"@) is None {
        miss_attr(e, el.name@, "name"@)
    } else {
        match find_attr(el.attrs@, "value"@) {
            None => miss_attr(e, el.name@, "value"@),
            Some(t) => invalid_lit(e, t),
        }
    }
}

impl EnumerationValue {
    /// Parses one enumerated value from its node.
    pub fn parse(el: &Node) -> (r: Result<EnumerationValue, Error>)
        ensures
            match r {
                Ok(v) => value_ok(*el) && value_fields_rel(
                    v.name@,
                    opt_view(v.description),
                    v.value,
                    *el,
                ),
                Err(e) => !value_ok(*el) && value_err(*el, e),
            },
    {
        let name = match attr(el, "name") {
            Ok(v) => v.clone(),
            Err(e) => return Err(e),
        };
        let description = attr_opt(el, "caption");
        let vt = match attr(el, "value") {
            Ok(v) => v,
            Err(e) => return Err(e),
        };
        let value = match parse_uint(vt.as_str()) {
            Ok(v) => v,
            Err(e) => return Err(e),
        };
        Ok(EnumerationValue { name, description, value })
    }
}

/// The value children of a value-group node, in order.
pub open spec fn vg_values(vg: Node) -> Seq<Node> {
    vg.children@.filter(tag_is("value"@))
}

/// Every node of `vs` parses as a value.
pub open spec fn values_list_ok(vs: Seq<Node>) -> bool {
    forall|k: int| 0 <= k < vs.len() ==> value_ok(#[trigger] vs[k])
}

/// `list` holds the parse of each node of `vs`, in order.
pub open spec fn values_list_rel(list: Seq<EnumerationValue>, vs: Seq<Node>) -> bool {
    &&& list.len() == vs.len()
    &&& forall|k: int|
        0 <= k < vs.len() ==> value_fields_rel(
            (#[trigger] list[k]).name@,
            opt_view(list[k].description),
            list[k].value,
            vs[k],
        )
}

/// `e` is the error of the first node of `vs` that fails to parse as a value.
pub open spec fn values_list_err(vs: Seq<Node>, e: Error) -> bool {
    exists|k: int|
        0 <= k < vs.len() && !value_ok(#[trigger] vs[k]) && value_err(vs[k], e) && (forall|j: int|
            0 <= j < k ==> value_ok(#[trigger] vs[j]))
}

impl Value {
    /// Parses one named value from its node.
    pub fn parse(el: &Node) -> (r: Result<Value, Error>)
        ensures
            match r {
                Ok(v) => value_ok(*el) && value_fields_rel(
                    v.name@,
                    opt_view(v.description),
                    v.value,
                    *el,
                ),
                Err(e) => !value_ok(*el) && value_err(*el, e),
            },
    {
        let name = match attr(el, "name") {
            Ok(v) => v.clone(),
            Err(e) => return Err(e),
        };
        let description = attr_opt(el, "caption");
        let vt = match attr(el, "value") {
            Ok(v) => v,
            Err(e) => return Err(e),
        };
        let value = match parse_uint(vt.as_str()) {
            Ok(v) => v,
            Err(e) => return Err(e),
        };
        Ok(Value { name, description, value })
    }
}

/// A field of a register: a name, a 32-bit mask, and optionally the
/// enumerated values resolved from a named value-group of the module.
#[derive(Debug, PartialEq)]
pub struct Bitfield {
    pub name: String,
    pub description: Option<String>,
    pub mask: u32,
    pub values: Option<Vec<EnumerationValue>>,
}

/// A bitfield node parses against `module`: `name` and a decodable `mask`
/// are present, and its `values` attribute, if any, names a value-group of
/// the module whose values all parse.
pub open spec fn bitfield_ok(el: Node, module: Node) -> bool {
    &&& find_attr(el.attrs@, "name"@) is Some
    &&& attr_num_ok(el.attrs@, "mask"@)
    &&& match find_attr(el.attrs@, "values"@) {
        None => true,
        Some(s) => match find_named_child(module.children@, "value-group"@, s) {
            None => false,
            Some(vg) => values_list_ok(vg_values(vg)),
        },
    }
}

/// The fields a parsed bitfield must hold, against its node and module.
pub open spec fn bitfield_rel(bf: Bitfield, el: Node, module: Node) -> bool {
    &&& Some(bf.name@) == find_attr(el.attrs@, "name"@)
    &&& opt_view(bf.description) == find_attr(el.attrs@, "caption"@)
    &&& attr_num_is(el.attrs@, "mask"@, bf.mask)
    &&& match find_attr(el.attrs@, "values"@) {
        None => bf.values is None,
        Some(s) => bf.values matches Some(list) && values_list_rel(
            list@,
            vg_values(find_named_child(module.children@, "value-group"@, s)->Some_0),
        ),
    }
}

/// The error a failing bitfield node produces.
pub open spec fn bitfield_err(el: Node, module: Node, e: Error) -> bool {
    if find_attr(el.attrs@, "name"@) is None {
        miss_attr(e, el.name@, "name"@)
    } else {
        match find_attr(el.attrs@, "mask"@) {
            None => miss_attr(e, el.name@, "mask"@),
            Some(t) => if !attr_num_ok(el.attrs@, "mask"@) {
                invalid_lit(e, t)
            } else {
                match find_attr(el.attrs@, "values"@) {
                    None => false,
                    Some(s) => match find_named_child(module.children@, "value-group"@, s) {
                        None => miss_named(e, module.name@, "value-group"@, s),
                        Some(vg) => values_list_err(vg_values(vg), e),
                    },
                }
            },
        }
    }
}

impl Bitfield {
    /// Parses one bitfield from its node, resolving enumerated values
    /// against the peripheral's module.
    pub fn parse(el: &Node, module: &Node) -> (r: Result<Bitfield, Error>)
        ensures
            match r {
                Ok(bf) => bitfield_ok(*el, *module) && bitfield_rel(bf, *el, *module),
                Err(e) => !bitfield_ok(*el, *module) && bitfield_err(*el, *module, e),
            },
    {
        let name = match attr(el, "name") {
            Ok(v) => v.clone(),
            Err(e) => return Err(e),
        };
        let description = attr_opt(el, "caption");
        let mt = match attr(el, "mask") {
            Ok(v) => v,
            Err(e) => return Err(e),
        };
        let mask = match parse_uint(mt.as_str()) {
            Ok(v) => v,
            Err(e) => return Err(e),
        };
        let values: Option<Vec<EnumerationValue>> = match attr_opt(el, "values") {
            None => None,
            Some(s) => {
                let vg = match named_child(module, "value-group", s.as_str()) {
                    Ok(c) => c,
                    Err(e) => return Err(e),
                };
                match parse_values(vg) {
                    Ok(list) => Some(list),
                    Err(e) => return Err(e),
                }
            },
        };
        Ok(Bitfield { name, description, mask, values })
    }
}

/// Parses every value child of a value-group node, failing on the first bad
/// one.
fn parse_values(vg: &Node) -> (r: Result<Vec<EnumerationValue>, Error>)
    ensures
        match r {
            Ok(list) => values_list_ok(vg_values(*vg)) && values_list_rel(list@, vg_values(*vg)),
            Err(e) => !values_list_ok(vg_values(*vg)) && values_list_err(vg_values(*vg), e),
        },
{
    let n = vg.children.len();
    let mut out: Vec<EnumerationValue> = Vec::new();
    let mut i: usize = 0;
    while i < n
        invariant
            n == vg.children@.len(),
            i <= n,
            values_list_ok(vg.children@.take(i as int).filter(tag_is("value"@))),
            values_list_rel(out@, vg.children@.take(i as int).filter(tag_is("value"@))),
        decreases n - i,
    {
        let ghost pre = vg.children@.take(i as int).filter(tag_is("value"@));
        proof {
            reveal(Seq::filter);
            assert(vg.children@.take(i as int + 1).drop_last() =~= vg.children@.take(i as int));
        }
        let c = &vg.children[i];
        if str_eq(c.name.as_str(), "value") {
            match EnumerationValue::parse(c) {
                Ok(v) => {
                    out.push(v);
                },
                Err(e) => {
                    proof {
                        lemma_filter_take_step(vg.children@, tag_is("value"@), i as int);
                    }
                    return Err(e);
                },
            }
        }
        i += 1;
    }
    proof {
        assert(vg.children@.take(n as int) =~= vg.children@);
    }
    Ok(out)
}

/// The bitfield children of a register node, in order.
pub open spec fn reg_bitfields(el: Node) -> Seq<Node> {
    el.children@.filter(tag_is("bitfield"@))
}

/// Every node of `bs` parses as a bitfield against `module`.
pub open spec fn bitfields_list_ok(bs: Seq<Node>, module: Node) -> bool {
    forall|k: int| 0 <= k < bs.len() ==> bitfield_ok(#[trigger] bs[k], module)
}

/// `list` holds the parse of each node of `bs`, in order.
pub open spec fn bitfields_list_rel(list: Seq<Bitfield>, bs: Seq<Node>, module: Node) -> bool {
    &&& list.len() == bs.len()
    &&& forall|k: int| 0 <= k < bs.len() ==> bitfield_rel(#[trigger] list[k], bs[k], module)
}

/// `e` is the error of the first node of `bs` failing as a bitfield.
pub open spec fn bitfields_list_err(bs: Seq<Node>, module: Node, e: Error) -> bool {
    exists|k: int|
        0 <= k < bs.len() && !bitfield_ok(#[trigger] bs[k], module) && bitfield_err(
            bs[k],
            module,
            e,
        ) && (forall|j: int| 0 <= j < k ==> bitfield_ok(#[trigger] bs[j], module))
}

/// A register: a byte range within its group, an initial value (zero when
/// unstated), an optional access mode, and its bitfields.
#[derive(Debug, PartialEq)]
pub struct Register {
    pub name: String,
    pub description: Option<String>,
    pub offset: u32,
    pub size: u32,
    pub initial: u32,
    pub access: Option<Access>,
    pub bitfields: Vec<Bitfield>,
}

/// A register node parses against `module`.
pub open spec fn register_ok(el: Node, module: Node) -> bool {
    &&& find_attr(el.attrs@, "name"@) is Some
    &&& attr_num_ok(el.attrs@, "offset"@)
    &&& attr_num_ok(el.attrs@, "size"@)
    &&& (find_attr(el.attrs@, "initval"@) is None || attr_num_ok(el.attrs@, "initval"@))
    &&& match find_attr(el.attrs@, "ocd-rw"@) {
        None => true,
        Some(t) => access_val(t) is Some,
    }
    &&& bitfields_list_ok(reg_bitfields(el), module)
}

/// The fields a parsed register must hold, against its node and module.
pub open spec fn register_rel(reg: Register, el: Node, module: Node) -> bool {
    &&& Some(reg.name@) == find_attr(el.attrs@, "name"@)
    &&& opt_view(reg.description) == find_attr(el.attrs@, "caption"@)
    &&& attr_num_is(el.attrs@, "offset"@, reg.offset)
    &&& attr_num_is(el.attrs@, "size"@, reg.size)
    &&& match find_attr(el.attrs@, "initval"@) {
        None => reg.initial == 0,
        Some(t) => addr_literal(t) == Some(reg.initial as nat),
    }
    &&& match find_attr(el.attrs@, "ocd-rw"@) {
        None => reg.access is None,
        Some(t) => reg.access == access_val(t),
    }
    &&& bitfields_list_rel(reg.bitfields@, reg_bitfields(el), module)
}

/// The error a failing register node produces.
pub open spec fn register_err(el: Node, module: Node, e: Error) -> bool {
    if find_attr(el.attrs@, "name"@) is None {
        miss_attr(e, el.name@, "name"@)
    } else {
        match find_attr(el.attrs@, "offset"@) {
            None => miss_attr(e, el.name@, "offset"@),
            Some(t) => if !attr_num_ok(el.attrs@, "offset"@) {
                invalid_lit(e, t)
            } else {
                match find_attr(el.attrs@, "size"@) {
                    None => miss_attr(e, el.name@, "size"@),
                    Some(t2) => if !attr_num_ok(el.attrs@, "size"@) {
                        invalid_lit(e, t2)
                    } else {
                        let iv = find_attr(el.attrs@, "initval"@);
                        if iv is Some && !attr_num_ok(el.attrs@, "initval"@) {
                            invalid_lit(e, iv->Some_0)
                        } else {
                            let ac = find_attr(el.attrs@, "ocd-rw"@);
                            if ac is Some && access_val(ac->Some_0) is None {
                                invalid_lit(e, ac->Some_0)
                            } else {
                                bitfields_list_err(reg_bitfields(el), module, e)
                            }
                        }
                    },
                }
            },
        }
    }
}

impl Register {
    /// Parses one register from its node, resolving its bitfields'
    /// enumerated values against the peripheral's module.
    pub fn parse(el: &Node, module: &Node) -> (r: Result<Register, Error>)
        ensures
            match r {
                Ok(reg) => register_ok(*el, *module) && register_rel(reg, *el, *module),
                Err(e) => !register_ok(*el, *module) && register_err(*el, *module, e),
            },
    {
        let name = match attr(el, "name") {
            Ok(v) => v.clone(),
            Err(e) => return Err(e),
        };
        let description = attr_opt(el, "caption");
        let ot = match attr(el, "offset") {
            Ok(v) => v,
            Err(e) => return Err(e),
        };
        let offset = match parse_uint(ot.as_str()) {
            Ok(v) => v,
            Err(e) => return Err(e),
        };
        let st = match attr(el, "size") {
            Ok(v) => v,
            Err(e) => return Err(e),
        };
        let size = match parse_uint(st.as_str()) {
            Ok(v) => v,
            Err(e) => return Err(e),
        };
        let initial: u32 = match attr_opt(el, "initval") {
            None => 0,
            Some(t) => match parse_uint(t.as_str()) {
                Ok(v) => v,
                Err(e) => return Err(e),
            },
        };
        let access: Option<Access> = match attr_opt(el, "ocd-rw") {
            None => None,
            Some(t) => match parse_access(t.as_str()) {
                Some(a) => Some(a),
                None => return Err(Error::InvalidLiteral(t)),
            },
        };
        let bitfields = match parse_bitfields(el, module) {
            Ok(v) => v,
            Err(e) => return Err(e),
        };
        Ok(Register { name, description, offset, size, initial, access, bitfields })
    }
}

/// Parses every bitfield child of a register node, failing on the first bad
/// one.
fn parse_bitfields(el: &Node, module: &Node) -> (r: Result<Vec<Bitfield>, Error>)
    ensures
        match r {
            Ok(list) => bitfields_list_ok(reg_bitfields(*el), *module) && bitfields_list_rel(
                list@,
                reg_bitfields(*el),
                *module,
            ),
            Err(e) => !bitfields_list_ok(reg_bitfields(*el), *module) && bitfields_list_err(
                reg_bitfields(*el),
                *module,
                e,
            ),
        },
{
    let n = el.children.len();
    let mut out: Vec<Bitfield> = Vec::new();
    let mut i: usize = 0;
    while i < n
        invariant
            n == el.children@.len(),
            i <= n,
            bitfields_list_ok(el.children@.take(i as int).filter(tag_is("bitfield"@)), *module),
            bitfields_list_rel(
                out@,
                el.children@.take(i as int).filter(tag_is("bitfield"@)),
                *module,
            ),
        decreases n - i,
    {
        proof {
            reveal(Seq::filter);
            assert(el.children@.take(i as int + 1).drop_last() =~= el.children@.take(i as int));
        }
        let c = &el.children[i];
        if str_eq(c.name.as_str(), "bitfield") {
            match Bitfield::parse(c, module) {
                Ok(v) => {
                    out.push(v);
                },
                Err(e) => {
                    proof {
                        lemma_filter_take_step(el.children@, tag_is("bitfield"@), i as int);
                    }
                    return Err(e);
                },
            }
        }
        i += 1;
    }
    proof {
        assert(el.children@.take(n as int) =~= el.children@);
    }
    Ok(out)
}

/// The register children of a node (a register-group), in order.
pub open spec fn node_registers(el: Node) -> Seq<Node> {
    el.children@.filter(tag_is("register"@))
}

/// Every node of `rs` parses as a register against `module`.
pub open spec fn registers_list_ok(rs: Seq<Node>, module: Node) -> bool {
    forall|k: int| 0 <= k < rs.len() ==> register_ok(#[trigger] rs[k], module)
}

/// `list` holds the parse of each node of `rs`, in order.
pub open spec fn registers_list_rel(list: Seq<Register>, rs: Seq<Node>, module: Node) -> bool {
    &&& list.len() == rs.len()
    &&& forall|k: int| 0 <= k < rs.len() ==> register_rel(#[trigger] list[k], rs[k], module)
}

/// `e` is the error of the first node of `rs` failing as a register.
pub open spec fn registers_list_err(rs: Seq<Node>, module: Node, e: Error) -> bool {
    exists|k: int|
        0 <= k < rs.len() && !register_ok(#[trigger] rs[k], module) && register_err(
            rs[k],
            module,
            e,
        ) && (forall|j: int| 0 <= j < k ==> register_ok(#[trigger] rs[j], module))
}

/// Parses every register child of `el`, failing on the first bad one.
pub(crate) fn parse_registers(el: &Node, module: &Node) -> (r: Result<Vec<Register>, Error>)
    ensures
        match r {
            Ok(list) => registers_list_ok(node_registers(*el), *module) && registers_list_rel(
                list@,
                node_registers(*el),
                *module,
            ),
            Err(e) => !registers_list_ok(node_registers(*el), *module) && registers_list_err(
                node_registers(*el),
                *module,
                e,
            ),
        },
{
    let n = el.children.len();
    let mut out: Vec<Register> = Vec::new();
    let mut i: usize = 0;
    while i < n
        invariant
            n == el.children@.len(),
            i <= n,
            registers_list_ok(el.children@.take(i as int).filter(tag_is("register"@)), *module),
            registers_list_rel(
                out@,
                el.children@.take(i as int).filter(tag_is("register"@)),
                *module,
            ),
        decreases n - i,
    {
        proof {
            reveal(Seq::filter);
            assert(el.children@.take(i as int + 1).drop_last() =~= el.children@.take(i as int));
        }
        let c = &el.children[i];
        if str_eq(c.name.as_str(), "register") {
            match Register::parse(c, module) {
                Ok(v) => {
                    out.push(v);
                },
                Err(e) => {
                    proof {
                        lemma_filter_take_step(el.children@, tag_is("register"@), i as int);
                    }
                    return Err(e);
                },
            }
        }
        i += 1;
    }
    proof {
        assert(el.children@.take(n as int) =~= el.children@);
    }
    Ok(out)
}

/// A named register-group of a module: the registers a register-group
/// reference resolves to.
#[derive(Debug, PartialEq)]
pub struct RegisterGroup {
    pub name: String,
    pub description: Option<String>,
    pub registers: Vec<Register>,
}

/// A register-group node of a module parses.
pub open spec fn rgroup_ok(el: Node, module: Node) -> bool {
    &&& find_attr(el.attrs@, "name"@) is Some
    &&& registers_list_ok(node_registers(el), module)
}

/// The fields a parsed register-group must hold.
pub open spec fn rgroup_rel(g: RegisterGroup, el: Node, module: Node) -> bool {
    &&& Some(g.name@) == find_attr(el.attrs@, "name"@)
    &&& opt_view(g.description) == find_attr(el.attrs@, "caption"@)
    &&& registers_list_rel(g.registers@, node_registers(el), module)
}

/// The error a failing register-group node produces.
pub open spec fn rgroup_err(el: Node, module: Node, e: Error) -> bool {
    if find_attr(el.attrs@, "name"@) is None {
        miss_attr(e, el.name@, "name"@)
    } else {
        registers_list_err(node_registers(el), module, e)
    }
}

impl RegisterGroup {
    /// Parses one named register-group of `module` (value groups of the same
    /// module resolve the bitfields' enumerations).
    pub fn parse(el: &Node, module: &Node) -> (r: Result<RegisterGroup, Error>)
        ensures
            match r {
                Ok(g) => rgroup_ok(*el, *module) && rgroup_rel(g, *el, *module),
                Err(e) => !rgroup_ok(*el, *module) && rgroup_err(*el, *module, e),
            },
    {
        let name = match attr(el, "name") {
            Ok(v) => v.clone(),
            Err(e) => return Err(e),
        };
        let description = attr_opt(el, "caption");
        let registers = match parse_registers(el, module) {
            Ok(v) => v,
            Err(e) => return Err(e),
        };
        Ok(RegisterGroup { name, description, registers })
    }
}

/// `list` holds the parse of each node of `vs` as named values, in order.
pub open spec fn value_structs_rel(list: Seq<Value>, vs: Seq<Node>) -> bool {
    &&& list.len() == vs.len()
    &&& forall|k: int|
        0 <= k < vs.len() ==> value_fields_rel(
            (#[trigger] list[k]).name@,
            opt_view(list[k].description),
            list[k].value,
            vs[k],
        )
}

/// A named value-group of a module: enumerated values for bitfields that
/// reference it.
#[derive(Debug, PartialEq)]
pub struct ValueGroup {
    pub name: String,
    pub description: Option<String>,
    pub values: Vec<Value>,
}

/// A value-group node parses.
pub open spec fn vgroup_ok(el: Node) -> bool {
    &&& find_attr(el.attrs@, "name"@) is Some
    &&& values_list_ok(vg_values(el))
}

/// The fields a parsed value-group must hold.
pub open spec fn vgroup_rel(g: ValueGroup, el: Node) -> bool {
    &&& Some(g.name@) == find_attr(el.attrs@, "name"@)
    &&& opt_view(g.description) == find_attr(el.attrs@, "caption"@)
    &&& value_structs_rel(g.values@, vg_values(el))
}

/// The error a failing value-group node produces.
pub open spec fn vgroup_err(el: Node, e: Error) -> bool {
    if find_attr(el.attrs@, "name"@) is None {
        miss_attr(e, el.name@, "name"@)
    } else {
        values_list_err(vg_values(el), e)
    }
}

impl ValueGroup {
    /// Parses one named value-group of a module.
    pub fn parse(el: &Node) -> (r: Result<ValueGroup, Error>)
        ensures
            match r {
                Ok(g) => vgroup_ok(*el) && vgroup_rel(g, *el),
                Err(e) => !vgroup_ok(*el) && vgroup_err(*el, e),
            },
    {
        let name = match attr(el, "name") {
            Ok(v) => v.clone(),
            Err(e) => return Err(e),
        };
        let description = attr_opt(el, "caption");
        let n = el.children.len();
        let mut out: Vec<Value> = Vec::new();
        let mut i: usize = 0;
        while i < n
            invariant
                n == el.children@.len(),
                i <= n,
                find_attr(el.attrs@, "name"@) is Some,
                values_list_ok(el.children@.take(i as int).filter(tag_is("value"@))),
                value_structs_rel(out@, el.children@.take(i as int).filter(tag_is("value"@))),
            decreases n - i,
        {
            proof {
                reveal(Seq::filter);
                assert(el.children@.take(i as int + 1).drop_last() =~= el.children@.take(
                    i as int,
                ));
            }
            let c = &el.children[i];
            if str_eq(c.name.as_str(), "value") {
                match Value::parse(c) {
                    Ok(v) => {
                        out.push(v);
                    },
                    Err(e) => {
                        proof {
                            lemma_filter_take_step(el.children@, tag_is("value"@), i as int);
                            let pre = el.children@.take(i as int).filter(tag_is("value"@));
                            let f = vg_values(*el);
                            assert(f[pre.len() as int] == el.children@[i as int]);
                            assert(!value_ok(f[pre.len() as int]));
                            assert forall|j: int| 0 <= j < pre.len() implies value_ok(
                                #[trigger] f[j],
                            ) by {
                                assert(f[j] == pre[j]);
                            }
                            assert(values_list_err(f, e));
                        }
                        return Err(e);
                    },
                }
            }
            i += 1;
        }
        proof {
            assert(el.children@.take(n as int) =~= el.children@);
        }
        Ok(ValueGroup { name, description, values: out })
    }
}

} // verus!
