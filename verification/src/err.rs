//! Structured errors for document resolution.
//!
//! Every parser returns one of these on failure, carrying enough context
//! (tag names, attribute names, requested lookup names) to locate the defect
//! in the source document.

use vstd::prelude::*;

verus! {

/// An error encountered while resolving a hardware-description document.
#[derive(Debug, PartialEq)]
pub enum Error {
    /// A required attribute was absent: (node tag, attribute name).
    MissingAttribute(String, String),
    /// A required unnamed child was absent: (parent tag, expected child tag).
    MissingChild(String, String),
    /// A required named lookup failed: (parent tag, child tag, requested name).
    MissingNamedChild(String, String, String),
    /// A numeric or enumerated literal could not be decoded; carries the text.
    InvalidLiteral(String),
}

/// `e` is a missing-attribute error for attribute `a` of a node tagged `tag`.
pub open spec fn miss_attr(e: Error, tag: Seq<char>, a: Seq<char>) -> bool {
    e matches Error::MissingAttribute(t, x) && t@ == tag && x@ == a
}

/// `e` is a missing-child error for child tag `c` under a node tagged `tag`.
pub open spec fn miss_child(e: Error, tag: Seq<char>, c: Seq<char>) -> bool {
    e matches Error::MissingChild(t, x) && t@ == tag && x@ == c
}

/// `e` is a failed named lookup of a child tagged `c` named `n` under `tag`.
pub open spec fn miss_named(e: Error, tag: Seq<char>, c: Seq<char>, n: Seq<char>) -> bool {
    e matches Error::MissingNamedChild(t, x, m) && t@ == tag && x@ == c && m@ == n
}

/// `e` is an undecodable-literal error carrying the text `t`.
pub open spec fn invalid_lit(e: Error, t: Seq<char>) -> bool {
    e matches Error::InvalidLiteral(l) && l@ == t
}

} // verus!
