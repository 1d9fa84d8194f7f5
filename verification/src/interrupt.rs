//! Interrupt declarations of a device.
//!
//! Index uniqueness is not enforced at this layer; it is left to consumers.

use vstd::prelude::*;

use crate::err::Error;
use crate::err::invalid_lit;
use crate::err::miss_attr;
use crate::num::index_literal;
use crate::num::parse;
use crate::tree::Node;
use crate::tree::attr;
use crate::tree::attr_opt;
use crate::tree::find_attr;
use crate::tree::lemma_filter_take_step;
use crate::tree::opt_view;
use crate::tree::str_eq;
use crate::tree::tag_is;

verus! {

/// One interrupt: a name, an optional description, and a numeric index.
#[derive(Debug, PartialEq)]
pub struct Interrupt {
    pub name: String,
    pub description: Option<String>,
    pub index: u32,
}

/// An interrupt node parses: `name` is present and `index` decodes under the
/// bare-index rule set into 32 bits.
pub open spec fn interrupt_ok(el: Node) -> bool {
    &&& find_attr(el.attrs@, "name"@) is Some
    &&& match find_attr(el.attrs@, "index"@) {
        Some(t) => match index_literal(t) {
            Some(v) => v < 0x1_0000_0000,
            None => false,
        },
        None => false,
    }
}

/// The fields a parsed interrupt must hold, against its node.
pub open spec fn interrupt_rel(it: Interrupt, el: Node) -> bool {
    &&& Some(it.name@) == find_attr(el.attrs@, "name"@)
    &&& opt_view(it.description) == find_attr(el.attrs@, "caption"@)
    &&& match find_attr(el.attrs@, "index"@) {
        Some(t) => index_literal(t) == Some(it.index as nat),
        None => false,
    }
}

/// The error a failing interrupt node produces.
pub open spec fn interrupt_err(el: Node, e: Error) -> bool {
    if find_attr(el.attrs@, "name"@) is None {
        miss_attr(e, el.name@, "name"@)
    } else {
        match find_attr(el.attrs@, "index"@) {
            None => miss_attr(e, el.name@, "index"@),
            Some(t) => invalid_lit(e, t),
        }
    }
}

impl Interrupt {
    /// Parses one interrupt from its node.
    pub fn parse(el: &Node) -> (r: Result<Interrupt, Error>)
        ensures
            match r {
                Ok(it) => interrupt_ok(*el) && interrupt_rel(it, *el),
                Err(e) => !interrupt_ok(*el) && interrupt_err(*el, e),
            },
    {
        let name = match attr(el, "name") {
            Ok(v) => v.clone(),
            Err(e) => return Err(e),
        };
        let description = attr_opt(el, "caption");
        let it = match attr(el, "index") {
            Ok(v) => v,
            Err(e) => return Err(e),
        };
        let index = match parse(it.as_str()) {
            Ok(v) => v,
            Err(e) => return Err(e),
        };
        Ok(Interrupt { name, description, index })
    }
}

/// The interrupt children of a node, in order.
pub open spec fn interrupt_nodes(el: Node) -> Seq<Node> {
    el.children@.filter(tag_is("interrupt"@))
}

/// Every node of `ns` parses as an interrupt.
pub open spec fn interrupts_list_ok(ns: Seq<Node>) -> bool {
    forall|k: int| 0 <= k < ns.len() ==> interrupt_ok(#[trigger] ns[k])
}

/// `list` holds the parse of each node of `ns`, in order.
pub open spec fn interrupts_list_rel(list: Seq<Interrupt>, ns: Seq<Node>) -> bool {
    &&& list.len() == ns.len()
    &&& forall|k: int| 0 <= k < ns.len() ==> interrupt_rel(#[trigger] list[k], ns[k])
}

/// `e` is the error of the first node of `ns` failing as an interrupt.
pub open spec fn interrupts_list_err(ns: Seq<Node>, e: Error) -> bool {
    exists|k: int|
        0 <= k < ns.len() && !interrupt_ok(#[trigger] ns[k]) && interrupt_err(ns[k], e) && (
        forall|j: int| 0 <= j < k ==> interrupt_ok(#[trigger] ns[j]))
}

/// The interrupts of a device.
#[derive(Debug, PartialEq)]
pub struct Interrupts(pub Vec<Interrupt>);

impl Interrupts {
    /// Parses every interrupt child of the given container node, failing on
    /// the first bad one.
    pub fn parse(el: &Node) -> (r: Result<Interrupts, Error>)
        ensures
            match r {
                Ok(list) => interrupts_list_ok(interrupt_nodes(*el)) && interrupts_list_rel(
                    list.0@,
                    interrupt_nodes(*el),
                ),
                Err(e) => !interrupts_list_ok(interrupt_nodes(*el)) && interrupts_list_err(
                    interrupt_nodes(*el),
                    e,
                ),
            },
    {
        let n = el.children.len();
        let mut out: Vec<Interrupt> = Vec::new();
        let mut i: usize = 0;
        while i < n
            invariant
                n == el.children@.len(),
                i <= n,
                interrupts_list_ok(el.children@.take(i as int).filter(tag_is("interrupt"@))),
                interrupts_list_rel(
                    out@,
                    el.children@.take(i as int).filter(tag_is("interrupt"@)),
                ),
            decreases n - i,
        {
            proof {
                reveal(Seq::filter);
                assert(el.children@.take(i as int + 1).drop_last() =~= el.children@.take(
                    i as int,
                ));
            }
            let c = &el.children[i];
            if str_eq(c.name.as_str(), "interrupt") {
                match Interrupt::parse(c) {
                    Ok(v) => {
                        out.push(v);
                    },
                    Err(e) => {
                        proof {
                            lemma_filter_take_step(el.children@, tag_is("interrupt"@), i as int);
                        }
                        return Err(e);
                    },
                }
            }
            i += 1;
        }
        proof {
            assert(el.children@.take(n as int) =~= el.children@);
        }
        Ok(Interrupts(out))
    }
}

} // verus!
