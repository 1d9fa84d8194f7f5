//! The generic labeled tree that a document is handed over as, and the safe
//! lookup primitives over it: required attribute, required child, required
//! named child, and boolean attributes.
//!
//! Tree construction from a character stream is the caller's concern; the
//! engine receives the already-built tree and only ever reads it.

use vstd::prelude::*;

use crate::err::Error;
use crate::num::addr_literal;
use crate::num::radix_opt;

verus! {

/// One node of the labeled document tree: a tag name, an ordered attribute
/// list, and ordered element children.
#[derive(Debug)]
pub struct Node {
    pub name: String,
    pub attrs: Vec<(String, String)>,
    pub children: Vec<Node>,
}

/// The value of the first attribute named `key`, if any.
pub open spec fn find_attr(attrs: Seq<(String, String)>, key: Seq<char>) -> Option<Seq<char>>
    decreases attrs.len(),
{
    if attrs.len() == 0 {
        None
    } else if attrs[0].0@ == key {
        Some(attrs[0].1@)
    } else {
        find_attr(attrs.drop_first(), key)
    }
}

/// The first child tagged `tag`, if any.
pub open spec fn find_child(cs: Seq<Node>, tag: Seq<char>) -> Option<Node>
    decreases cs.len(),
{
    if cs.len() == 0 {
        None
    } else if cs[0].name@ == tag {
        Some(cs[0])
    } else {
        find_child(cs.drop_first(), tag)
    }
}

/// The first child tagged `tag` whose `name` attribute equals `name`, if any.
pub open spec fn find_named_child(cs: Seq<Node>, tag: Seq<char>, name: Seq<char>) -> Option<Node>
    decreases cs.len(),
{
    if cs.len() == 0 {
        None
    } else if cs[0].name@ == tag && find_attr(cs[0].attrs@, "name"@) == Some(name) {
        Some(cs[0])
    } else {
        find_named_child(cs.drop_first(), tag, name)
    }
}

/// The predicate selecting children with a given tag.
pub open spec fn tag_is(tag: Seq<char>) -> spec_fn(Node) -> bool {
    |c: Node| c.name@ == tag
}

/// The view of an optional owned string.
pub open spec fn opt_view(o: Option<String>) -> Option<Seq<char>> {
    match o {
        Some(s) => Some(s@),
        None => None,
    }
}

/// The attribute `key` is present and decodes under the address rule set to
/// a value that fits in 32 bits.
pub open spec fn attr_num_ok(attrs: Seq<(String, String)>, key: Seq<char>) -> bool {
    match find_attr(attrs, key) {
        Some(t) => match addr_literal(t) {
            Some(v) => v < 0x1_0000_0000,
            None => false,
        },
        None => false,
    }
}

/// The attribute `key` is present and decodes under the address rule set to
/// exactly `v`.
pub open spec fn attr_num_is(attrs: Seq<(String, String)>, key: Seq<char>, v: u32) -> bool {
    match find_attr(attrs, key) {
        Some(t) => addr_literal(t) == Some(v as nat),
        None => false,
    }
}

/// A filtered prefix is a prefix of the filtered whole.
pub proof fn lemma_filter_take<A>(s: Seq<A>, pred: spec_fn(A) -> bool, i: int)
    requires
        0 <= i <= s.len(),
    ensures
        s.take(i).filter(pred).len() <= s.filter(pred).len(),
        s.take(i).filter(pred) == s.filter(pred).take(s.take(i).filter(pred).len() as int),
    decreases s.len() - i,
{
    reveal(Seq::filter);
    if i == s.len() {
        assert(s.take(i) =~= s);
        assert(s.filter(pred).take(s.filter(pred).len() as int) =~= s.filter(pred));
    } else {
        lemma_filter_take(s, pred, i + 1);
        assert(s.take(i + 1).drop_last() =~= s.take(i));
        let p = s.take(i).filter(pred);
        let p1 = s.take(i + 1).filter(pred);
        let f = s.filter(pred);
        if pred(s.take(i + 1).last()) {
            assert(p1 == p.push(s[i]));
            assert(p =~= f.take(p1.len() as int).drop_last());
            assert(f.take(p1.len() as int).drop_last() =~= f.take(p.len() as int));
        } else {
            assert(p1 == p);
        }
    }
}

/// Stepping past a kept element: the filtered prefix names exactly the next
/// slot of the filtered whole.
pub proof fn lemma_filter_take_step<A>(s: Seq<A>, pred: spec_fn(A) -> bool, i: int)
    requires
        0 <= i < s.len(),
        pred(s[i]),
    ensures
        ({
            let pre = s.take(i).filter(pred);
            let f = s.filter(pred);
            &&& pre.len() < f.len()
            &&& f[pre.len() as int] == s[i]
            &&& forall|j: int| 0 <= j < pre.len() ==> (#[trigger] f[j]) == pre[j]
        }),
{
    reveal(Seq::filter);
    lemma_filter_take(s, pred, i);
    lemma_filter_take(s, pred, i + 1);
    assert(s.take(i + 1).drop_last() =~= s.take(i));
    let pre = s.take(i).filter(pred);
    let p1 = s.take(i + 1).filter(pred);
    let f = s.filter(pred);
    assert(s.take(i + 1).last() == s[i]);
    assert(p1 == pre.push(s[i]));
    assert(p1 == f.take(p1.len() as int));
    assert(p1[pre.len() as int] == s[i]);
    assert(f.take(p1.len() as int)[pre.len() as int] == f[pre.len() as int]);
    assert forall|j: int| 0 <= j < pre.len() implies (#[trigger] f[j]) == pre[j] by {
        assert(pre == f.take(pre.len() as int));
        assert(pre[j] == f.take(pre.len() as int)[j]);
        assert(f.take(pre.len() as int)[j] == f[j]);
    }
}

/// Character-for-character string comparison.
pub fn str_eq(a: &str, b: &str) -> (r: bool)
    ensures
        r == (a@ == b@),
{
    let n = a.unicode_len();
    let m = b.unicode_len();
    if n != m {
        return false;
    }
    let mut i: usize = 0;
    while i < n
        invariant
            n == a@.len(),
            m == b@.len(),
            n == m,
            i <= n,
            forall|j: int| 0 <= j < i ==> a@[j] == b@[j],
        decreases n - i,
    {
        if a.get_char(i) != b.get_char(i) {
            return false;
        }
        i += 1;
    }
    proof {
        assert(a@ =~= b@);
    }
    true
}

/// The required attribute `s` of `el`; absence is a
/// [`Error::MissingAttribute`] naming the node's tag and the attribute.
pub fn attr<'a>(el: &'a Node, s: &str) -> (r: Result<&'a String, Error>)
    ensures
        match r {
            Ok(v) => find_attr(el.attrs@, s@) == Some(v@),
            Err(e) => {
                &&& find_attr(el.attrs@, s@) is None
                &&& e matches Error::MissingAttribute(t, a) && t@ == el.name@ && a@ == s@
            },
        },
{
    let n = el.attrs.len();
    proof {
        assert(el.attrs@.subrange(0, n as int) =~= el.attrs@);
    }
    let mut i: usize = 0;
    while i < n
        invariant
            n == el.attrs@.len(),
            i <= n,
            find_attr(el.attrs@, s@) == find_attr(
                el.attrs@.subrange(i as int, n as int),
                s@,
            ),
        decreases n - i,
    {
        let p = &el.attrs[i];
        proof {
            assert(el.attrs@.subrange(i as int, n as int)[0] == el.attrs@[i as int]);
            assert(el.attrs@.subrange(i as int, n as int).drop_first() =~= el.attrs@.subrange(
                i + 1,
                n as int,
            ));
        }
        if str_eq(p.0.as_str(), s) {
            return Ok(&el.attrs[i].1);
        }
        i += 1;
    }
    Err(Error::MissingAttribute(el.name.clone(), s.to_owned()))
}

/// The optional attribute `s` of `el`, cloned.
pub fn attr_opt(el: &Node, s: &str) -> (r: Option<String>)
    ensures
        match r {
            Some(v) => find_attr(el.attrs@, s@) == Some(v@),
            None => find_attr(el.attrs@, s@) is None,
        },
{
    match attr(el, s) {
        Ok(v) => Some(v.clone()),
        Err(_) => None,
    }
}

/// The required first child of `el` tagged `s`; absence is a
/// [`Error::MissingChild`] naming the parent's tag and the expected one.
pub fn child<'a>(el: &'a Node, s: &str) -> (r: Result<&'a Node, Error>)
    ensures
        match r {
            Ok(c) => find_child(el.children@, s@) == Some(*c),
            Err(e) => {
                &&& find_child(el.children@, s@) is None
                &&& e matches Error::MissingChild(t, c) && t@ == el.name@ && c@ == s@
            },
        },
{
    let n = el.children.len();
    proof {
        assert(el.children@.subrange(0, n as int) =~= el.children@);
    }
    let mut i: usize = 0;
    while i < n
        invariant
            n == el.children@.len(),
            i <= n,
            find_child(el.children@, s@) == find_child(
                el.children@.subrange(i as int, n as int),
                s@,
            ),
        decreases n - i,
    {
        proof {
            assert(el.children@.subrange(i as int, n as int)[0] == el.children@[i as int]);
            assert(el.children@.subrange(i as int, n as int).drop_first() =~= el.children@.subrange(
                i + 1,
                n as int,
            ));
        }
        if str_eq(el.children[i].name.as_str(), s) {
            return Ok(&el.children[i]);
        }
        i += 1;
    }
    Err(Error::MissingChild(el.name.clone(), s.to_owned()))
}

/// The required first child of `el` tagged `s` whose `name` attribute equals
/// `name`; absence is a [`Error::MissingNamedChild`] carrying the parent's
/// tag, the child tag, and the requested name.
pub fn named_child<'a>(el: &'a Node, s: &str, name: &str) -> (r: Result<&'a Node, Error>)
    ensures
        match r {
            Ok(c) => find_named_child(el.children@, s@, name@) == Some(*c),
            Err(e) => {
                &&& find_named_child(el.children@, s@, name@) is None
                &&& e matches Error::MissingNamedChild(t, c, nm) && t@ == el.name@ && c@ == s@
                    && nm@ == name@
            },
        },
{
    let n = el.children.len();
    proof {
        assert(el.children@.subrange(0, n as int) =~= el.children@);
    }
    let mut i: usize = 0;
    while i < n
        invariant
            n == el.children@.len(),
            i <= n,
            find_named_child(el.children@, s@, name@) == find_named_child(
                el.children@.subrange(i as int, n as int),
                s@,
                name@,
            ),
        decreases n - i,
    {
        proof {
            assert(el.children@.subrange(i as int, n as int)[0] == el.children@[i as int]);
            assert(el.children@.subrange(i as int, n as int).drop_first() =~= el.children@.subrange(
                i + 1,
                n as int,
            ));
        }
        let c = &el.children[i];
        if str_eq(c.name.as_str(), s) {
            let matched: bool = match attr(c, "name") {
                Ok(v) => str_eq(v.as_str(), name),
                Err(_) => false,
            };
            if matched {
                return Ok(&el.children[i]);
            }
        }
        i += 1;
    }
    Err(Error::MissingNamedChild(el.name.clone(), s.to_owned(), name.to_owned()))
}

/// The meaning of an optional boolean attribute: absent is `false`, empty is
/// `true`, the words `true`/`false` stand for themselves, and a decimal
/// literal equal to 0 or 1 is accepted; anything else is undecodable.
pub open spec fn bool_attr(v: Option<Seq<char>>) -> Option<bool> {
    match v {
        None => Some(false),
        Some(t) => if t.len() == 0 {
            Some(true)
        } else if t == "true"@ {
            Some(true)
        } else if t == "false"@ {
            Some(false)
        } else {
            match radix_opt(t, 10) {
                Some(d) => if d == 0 {
                    Some(false)
                } else if d == 1 {
                    Some(true)
                } else {
                    None
                },
                None => None,
            }
        },
    }
}

/// Decodes the optional boolean attribute `s` of `el` under [`bool_attr`];
/// an undecodable value is an [`Error::InvalidLiteral`] carrying the text.
pub fn attr_bool(el: &Node, s: &str) -> (r: Result<bool, Error>)
    ensures
        match r {
            Ok(b) => bool_attr(find_attr(el.attrs@, s@)) == Some(b),
            Err(e) => {
                &&& bool_attr(find_attr(el.attrs@, s@)) is None
                &&& e matches Error::InvalidLiteral(l) && Some(l@) == find_attr(el.attrs@, s@)
            },
        },
{
    let v = match attr(el, s) {
        Err(_) => {
            return Ok(false);
        },
        Ok(v) => v,
    };
    if v.as_str().unicode_len() == 0 {
        return Ok(true);
    }
    if str_eq(v.as_str(), "true") {
        return Ok(true);
    }
    if str_eq(v.as_str(), "false") {
        return Ok(false);
    }
    let r = crate::num::parse_decimal(v.as_str());
    match r {
        Ok(0) => Ok(false),
        Ok(1) => Ok(true),
        _ => Err(Error::InvalidLiteral(v.clone())),
    }
}

} // verus!
