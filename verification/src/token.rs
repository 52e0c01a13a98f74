//! The token alphabet of the scanner: structural XML events, already decoded
//! to plain values, plus an end-of-stream marker and a tokenizer failure.

use vstd::prelude::*;

verus! {

/// One structural event of the XML document, as the scanner consumes it.
pub enum Token {
    /// An element-open event, with the element name.
    Open(String),
    /// An element-close event, with the element name.
    Close(String),
    /// Text content, possibly one fragment of a longer logical value.
    Text(String),
    /// A named entity reference in text content, with the name between `&`
    /// and `;`; the scanner resolves the predefined XML entities.
    Ref(String),
    /// Any other event (comment, declaration, self-closing element, ...).
    Skip,
    /// End of the document.
    Eof,
    /// The tokenizer could not parse further input; the scan must abort.
    Malformed(String),
}

/// Which page field the most recently opened recognized element selects.
#[derive(Clone, Copy, Debug)]
pub enum Cursor {
    /// No recognized leaf element is open.
    Idle,
    /// Text accumulates into the page title.
    InTitle,
    /// Text accumulates into the page body.
    InBody,
    /// Text is parsed as the page's namespace identifier.
    InNamespace,
}

/// Name of the element whose close completes one page record.
pub open spec fn page_tag() -> Seq<char> {
    "page"@
}

/// Name of the element holding the page body.
pub open spec fn text_tag() -> Seq<char> {
    "text"@
}

/// Name of the element holding the namespace identifier.
pub open spec fn ns_tag() -> Seq<char> {
    "ns"@
}

/// Name of the element holding the page title.
pub open spec fn title_tag() -> Seq<char> {
    "title"@
}

/// The text a predefined XML entity reference stands for, or `None` for a
/// name that is not one of the five predefined entities.
pub open spec fn named_ref(name: Seq<char>) -> Option<Seq<char>> {
    if name == "amp"@ {
        Some("&"@)
    } else if name == "lt"@ {
        Some("<"@)
    } else if name == "gt"@ {
        Some(">"@)
    } else if name == "apos"@ {
        Some("'"@)
    } else if name == "quot"@ {
        Some("\""@)
    } else {
        None
    }
}

} // verus!
