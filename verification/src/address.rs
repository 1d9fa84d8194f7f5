//! Address spaces and their memory segments.

use vstd::prelude::*;

use crate::err::Error;
use crate::err::invalid_lit;
use crate::err::miss_attr;
use crate::num::parse_uint;
use crate::register::Access;
use crate::register::access_val;
use crate::register::parse_access;
use crate::tree::Node;
use crate::tree::attr;
use crate::tree::attr_bool;
use crate::tree::attr_opt;
use crate::tree::attr_num_is;
use crate::tree::attr_num_ok;
use crate::tree::bool_attr;
use crate::tree::find_attr;
use crate::tree::lemma_filter_take_step;
use crate::tree::opt_view;
use crate::tree::str_eq;
use crate::tree::tag_is;

verus! {

/// Byte order of an address space.
#[derive(Debug, Clone, Copy, PartialEq, Eq, Structural)]
pub enum Endianness {
    Little,
    Big,
}

/// The endianness an attribute text stands for.
pub open spec fn endian_val(t: Seq<char>) -> Option<Endianness> {
    if t == "little"@ {
        Some(Endianness::Little)
    } else if t == "big"@ {
        Some(Endianness::Big)
    } else {
        None
    }
}

/// Decodes an endianness attribute text under [`endian_val`].
pub fn parse_endianness(v: &str) -> (r: Option<Endianness>)
    ensures
        r == endian_val(v@),
{
    if str_eq(v, "little") {
        Some(Endianness::Little)
    } else if str_eq(v, "big") {
        Some(Endianness::Big)
    } else {
        None
    }
}

/// What a memory segment holds.  Unrecognized kinds are preserved, not
/// rejected.
#[derive(Debug, PartialEq)]
pub enum SegmentKind {
    Flash,
    Signatures,
    Fuses,
    Lockbits,
    Io,
    Ram,
    SysReg,
    /// An unrecognized kind, carrying the original text.
    Other(String),
}

/// The segment kind an attribute text stands for; every text stands for one.
pub open spec fn kind_rel(k: SegmentKind, t: Seq<char>) -> bool {
    if t == "FLASH"@ {
        k == SegmentKind::Flash
    } else if t == "SIGNATURES"@ {
        k == SegmentKind::Signatures
    } else if t == "FUSES"@ {
        k == SegmentKind::Fuses
    } else if t == "LOCKBITS"@ {
        k == SegmentKind::Lockbits
    } else if t == "IO"@ {
        k == SegmentKind::Io
    } else if t == "RAM"@ {
        k == SegmentKind::Ram
    } else if t == "SYSREG"@ {
        k == SegmentKind::SysReg
    } else {
        k matches SegmentKind::Other(s) && s@ == t
    }
}

/// Decodes a segment-kind attribute text under [`kind_rel`].
pub fn parse_kind(v: &String) -> (k: SegmentKind)
    ensures
        kind_rel(k, v@),
{
    if str_eq(v.as_str(), "FLASH") {
        SegmentKind::Flash
    } else if str_eq(v.as_str(), "SIGNATURES") {
        SegmentKind::Signatures
    } else if str_eq(v.as_str(), "FUSES") {
        SegmentKind::Fuses
    } else if str_eq(v.as_str(), "LOCKBITS") {
        SegmentKind::Lockbits
    } else if str_eq(v.as_str(), "IO") {
        SegmentKind::Io
    } else if str_eq(v.as_str(), "RAM") {
        SegmentKind::Ram
    } else if str_eq(v.as_str(), "SYSREG") {
        SegmentKind::SysReg
    } else {
        SegmentKind::Other(v.clone())
    }
}

/// One memory segment of an address space.
#[derive(Debug, PartialEq)]
pub struct MemorySegment {
    pub name: String,
    pub start: u32,
    pub size: u32,
    pub kind: SegmentKind,
    pub access: Access,
    pub executable: bool,
}

/// A memory-segment node parses.
pub open spec fn segment_ok(el: Node) -> bool {
    &&& find_attr(el.attrs@, "name"@) is Some
    &&& attr_num_ok(el.attrs@, "start"@)
    &&& attr_num_ok(el.attrs@, "size"@)
    &&& find_attr(el.attrs@, "type"@) is Some
    &&& match find_attr(el.attrs@, "rw"@) {
        None => true,
        Some(t) => access_val(t) is Some,
    }
    &&& bool_attr(find_attr(el.attrs@, "exec"@)) is Some
}

/// The fields a parsed memory segment must hold, against its node.
pub open spec fn segment_rel(seg: MemorySegment, el: Node) -> bool {
    &&& Some(seg.name@) == find_attr(el.attrs@, "name"@)
    &&& attr_num_is(el.attrs@, "start"@, seg.start)
    &&& attr_num_is(el.attrs@, "size"@, seg.size)
    &&& find_attr(el.attrs@, "type"@) matches Some(t) && kind_rel(seg.kind, t)
    &&& match find_attr(el.attrs@, "rw"@) {
        None => seg.access == Access::ReadWrite,
        Some(t) => Some(seg.access) == access_val(t),
    }
    &&& bool_attr(find_attr(el.attrs@, "exec"@)) == Some(seg.executable)
}

/// The error a failing memory-segment node produces.
pub open spec fn segment_err(el: Node, e: Error) -> bool {
    if find_attr(el.attrs@, "name"@) is None {
        miss_attr(e, el.name@, "name"@)
    } else {
        match find_attr(el.attrs@, "start"@) {
            None => miss_attr(e, el.name@, "start"@),
            Some(t) => if !attr_num_ok(el.attrs@, "start"@) {
                invalid_lit(e, t)
            } else {
                match find_attr(el.attrs@, "size"@) {
                    None => miss_attr(e, el.name@, "size"@),
                    Some(t2) => if !attr_num_ok(el.attrs@, "size"@) {
                        invalid_lit(e, t2)
                    } else if find_attr(el.attrs@, "type"@) is None {
                        miss_attr(e, el.name@, "type"@)
                    } else {
                        let rw = find_attr(el.attrs@, "rw"@);
                        if rw is Some && access_val(rw->Some_0) is None {
                            invalid_lit(e, rw->Some_0)
                        } else {
                            invalid_lit(e, find_attr(el.attrs@, "exec"@)->Some_0)
                        }
                    },
                }
            },
        }
    }
}

impl MemorySegment {
    /// Parses one memory segment from its node.
    pub fn parse(el: &Node) -> (r: Result<MemorySegment, Error>)
        ensures
            match r {
                Ok(seg) => segment_ok(*el) && segment_rel(seg, *el),
                Err(e) => !segment_ok(*el) && segment_err(*el, e),
            },
    {
        let name = match attr(el, "name") {
            Ok(v) => v.clone(),
            Err(e) => return Err(e),
        };
        let st = match attr(el, "start") {
            Ok(v) => v,
            Err(e) => return Err(e),
        };
        let start = match parse_uint(st.as_str()) {
            Ok(v) => v,
            Err(e) => return Err(e),
        };
        let zt = match attr(el, "size") {
            Ok(v) => v,
            Err(e) => return Err(e),
        };
        let size = match parse_uint(zt.as_str()) {
            Ok(v) => v,
            Err(e) => return Err(e),
        };
        let kt = match attr(el, "type") {
            Ok(v) => v,
            Err(e) => return Err(e),
        };
        let kind = parse_kind(kt);
        let access: Access = match attr_opt(el, "rw") {
            None => Access::ReadWrite,
            Some(t) => match parse_access(t.as_str()) {
                Some(a) => a,
                None => return Err(Error::InvalidLiteral(t)),
            },
        };
        let executable = match attr_bool(el, "exec") {
            Ok(b) => b,
            Err(e) => return Err(e),
        };
        Ok(MemorySegment { name, start, size, kind, access, executable })
    }
}

/// The memory-segment children of an address-space node, in order.
pub open spec fn segment_nodes(el: Node) -> Seq<Node> {
    el.children@.filter(tag_is("memory-segment"@))
}

/// Every node of `ss` parses as a memory segment.
pub open spec fn segments_list_ok(ss: Seq<Node>) -> bool {
    forall|k: int| 0 <= k < ss.len() ==> segment_ok(#[trigger] ss[k])
}

/// `list` holds the parse of each node of `ss`, in order.
pub open spec fn segments_list_rel(list: Seq<MemorySegment>, ss: Seq<Node>) -> bool {
    &&& list.len() == ss.len()
    &&& forall|k: int| 0 <= k < ss.len() ==> segment_rel(#[trigger] list[k], ss[k])
}

/// `e` is the error of the first node of `ss` failing as a memory segment.
pub open spec fn segments_list_err(ss: Seq<Node>, e: Error) -> bool {
    exists|k: int|
        0 <= k < ss.len() && !segment_ok(#[trigger] ss[k]) && segment_err(ss[k], e) && (forall|
            j: int,
        |
            0 <= j < k ==> segment_ok(#[trigger] ss[j]))
}

/// One address space of a device: a named byte range with an endianness and
/// its memory segments.
#[derive(Debug, PartialEq)]
pub struct AddressSpace {
    pub name: String,
    pub description: Option<String>,
    pub endianness: Endianness,
    pub start: u32,
    pub size: u32,
    pub segments: Vec<MemorySegment>,
}

/// An address-space node parses.
pub open spec fn aspace_ok(el: Node) -> bool {
    &&& find_attr(el.attrs@, "name"@) is Some
    &&& find_attr(el.attrs@, "endianness"@) matches Some(t) && endian_val(t) is Some
    &&& attr_num_ok(el.attrs@, "start"@)
    &&& attr_num_ok(el.attrs@, "size"@)
    &&& segments_list_ok(segment_nodes(el))
}

/// The fields a parsed address space must hold, against its node.
pub open spec fn aspace_rel(a: AddressSpace, el: Node) -> bool {
    &&& Some(a.name@) == find_attr(el.attrs@, "name"@)
    &&& opt_view(a.description) == find_attr(el.attrs@, "caption"@)
    &&& find_attr(el.attrs@, "endianness"@) matches Some(t) && Some(a.endianness) == endian_val(t)
    &&& attr_num_is(el.attrs@, "start"@, a.start)
    &&& attr_num_is(el.attrs@, "size"@, a.size)
    &&& segments_list_rel(a.segments@, segment_nodes(el))
}

/// The error a failing address-space node produces.
pub open spec fn aspace_err(el: Node, e: Error) -> bool {
    if find_attr(el.attrs@, "name"@) is None {
        miss_attr(e, el.name@, "name"@)
    } else {
        match find_attr(el.attrs@, "endianness"@) {
            None => miss_attr(e, el.name@, "endianness"@),
            Some(t) => if endian_val(t) is None {
                invalid_lit(e, t)
            } else {
                match find_attr(el.attrs@, "start"@) {
                    None => miss_attr(e, el.name@, "start"@),
                    Some(t2) => if !attr_num_ok(el.attrs@, "start"@) {
                        invalid_lit(e, t2)
                    } else {
                        match find_attr(el.attrs@, "size"@) {
                            None => miss_attr(e, el.name@, "size"@),
                            Some(t3) => if !attr_num_ok(el.attrs@, "size"@) {
                                invalid_lit(e, t3)
                            } else {
                                segments_list_err(segment_nodes(el), e)
                            },
                        }
                    },
                }
            },
        }
    }
}

impl AddressSpace {
    /// Parses one address space from its node.
    pub fn parse(el: &Node) -> (r: Result<AddressSpace, Error>)
        ensures
            match r {
                Ok(a) => aspace_ok(*el) && aspace_rel(a, *el),
                Err(e) => !aspace_ok(*el) && aspace_err(*el, e),
            },
    {
        let name = match attr(el, "name") {
            Ok(v) => v.clone(),
            Err(e) => return Err(e),
        };
        let description = attr_opt(el, "caption");
        let et = match attr(el, "endianness") {
            Ok(v) => v,
            Err(e) => return Err(e),
        };
        let endianness = match parse_endianness(et.as_str()) {
            Some(v) => v,
            None => return Err(Error::InvalidLiteral(et.clone())),
        };
        let st = match attr(el, "start") {
            Ok(v) => v,
            Err(e) => return Err(e),
        };
        let start = match parse_uint(st.as_str()) {
            Ok(v) => v,
            Err(e) => return Err(e),
        };
        let zt = match attr(el, "size") {
            Ok(v) => v,
            Err(e) => return Err(e),
        };
        let size = match parse_uint(zt.as_str()) {
            Ok(v) => v,
            Err(e) => return Err(e),
        };
        let n = el.children.len();
        let mut out: Vec<MemorySegment> = Vec::new();
        let mut i: usize = 0;
        while i < n
            invariant
                n == el.children@.len(),
                i <= n,
                segments_list_ok(el.children@.take(i as int).filter(tag_is("memory-segment"@))),
                segments_list_rel(
                    out@,
                    el.children@.take(i as int).filter(tag_is("memory-segment"@)),
                ),
                find_attr(el.attrs@, "name"@) is Some,
                find_attr(el.attrs@, "endianness"@) matches Some(t) && endian_val(t) is Some,
                attr_num_ok(el.attrs@, "start"@),
                attr_num_ok(el.attrs@, "size"@),
            decreases n - i,
        {
            proof {
                reveal(Seq::filter);
                assert(el.children@.take(i as int + 1).drop_last() =~= el.children@.take(
                    i as int,
                ));
            }
            let c = &el.children[i];
            if str_eq(c.name.as_str(), "memory-segment") {
                match MemorySegment::parse(c) {
                    Ok(v) => {
                        out.push(v);
                    },
                    Err(e) => {
                        proof {
                            lemma_filter_take_step(
                                el.children@,
                                tag_is("memory-segment"@),
                                i as int,
                            );
                        }
                        return Err(e);
                    },
                }
            }
            i += 1;
        }
        proof {
            assert(el.children@.take(n as int) =~= el.children@);
        }
        Ok(AddressSpace { name, description, endianness, start, size, segments: out })
    }
}

} // verus!
