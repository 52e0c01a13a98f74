//! The match configuration a scan runs under.

use vstd::prelude::*;

verus! {

/// Configuration of one scan: the query pattern, case sensitivity, whether
/// the query is a per-page template, and the optional namespace filter.
pub struct GrepConfig {
    /// The regular expression, or, when `pagename` is set, a template in
    /// which every occurrence of `<<PAGENAME>>` stands for the page title.
    pub query: String,
    /// When set, the pattern matches without regard to case.
    pub case_insensitive: bool,
    /// When set, `query` is recompiled once per page with the page title
    /// substituted for the placeholder.
    pub pagename: bool,
    /// Namespace identifiers the filter refers to. A present set activates
    /// the filter; `None` lets every namespace pass.
    pub namespaces: Option<Vec<u32>>,
    /// Filter polarity, meaningful only when `namespaces` is present:
    /// `Some(true)` excludes the listed namespaces, anything else keeps
    /// them.
    pub invert_namespaces: Option<bool>,
}

} // verus!
