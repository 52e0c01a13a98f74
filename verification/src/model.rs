//! The mathematical model of one scan: a state machine folded over the
//! token stream. Every executable scanning function is proved to agree with
//! `run`, so all of the scan's behaviour is pinned down here.

use vstd::prelude::*;
use crate::config::GrepConfig;
use crate::numparse::parse_u32_spec;
use crate::pattern::{regex_compiles, regex_find};
use crate::sink::MatchRec;
use crate::strutil::substitute;
use crate::token::{Cursor, Token, named_ref, ns_tag, page_tag, text_tag, title_tag};

verus! {

/// Why a scan aborted.
#[derive(Debug)]
pub enum ScanError {
    /// The query (or, in template mode, a substituted query) is not a valid
    /// pattern.
    BadPattern,
    /// A namespace field held the given text, which is not a `u32`.
    BadNamespace(String),
    /// The tokenizer could not parse the input further; the message is the
    /// tokenizer's.
    MalformedXml(String),
    /// The running match counter cannot go past `u32::MAX`.
    TooManyMatches,
}

/// The whole state of a scan after some prefix of the token stream.
pub ghost struct ScanState {
    /// Which field text currently accumulates into.
    pub cursor: Cursor,
    /// The title accumulated for the current page.
    pub title: Seq<char>,
    /// The body accumulated for the current page.
    pub body: Seq<char>,
    /// The namespace most recently parsed; kept across page boundaries.
    pub ns: u32,
    /// Every match reported so far, in document order.
    pub emitted: Seq<MatchRec>,
    /// The fatal error, if the scan has aborted.
    pub err: Option<ScanError>,
}

/// The pattern that applies to a page with the given title.
pub open spec fn page_pattern(cfg: GrepConfig, title: Seq<char>) -> Seq<char> {
    if cfg.pagename {
        substitute(cfg.query@, title)
    } else {
        cfg.query@
    }
}

/// Is a page with namespace `ns` skipped (no match attempt)? The filter is
/// active whenever a namespace set is present; an absent set lets every
/// namespace pass. Normal polarity keeps pages whose namespace is in the
/// set; inversion, requested with `Some(true)`, keeps pages whose namespace
/// is not.
pub open spec fn ns_skipped(cfg: GrepConfig, ns: u32) -> bool {
    match cfg.namespaces {
        Some(set) => (cfg.invert_namespaces == Some(true)) == set@.contains(ns),
        None => false,
    }
}

/// The state with the page accumulation buffers cleared and the cursor
/// reset, ready for the next page.
pub open spec fn cleared(st: ScanState) -> ScanState {
    ScanState { cursor: Cursor::Idle, title: Seq::empty(), body: Seq::empty(), ..st }
}

/// Page completion: build the page's pattern (template mode recompiles and
/// may abort), apply the namespace filter, then record the first match of
/// the pattern in the body, if any.
pub open spec fn complete_page(cfg: GrepConfig, st: ScanState) -> ScanState {
    let pat = page_pattern(cfg, st.title);
    if cfg.pagename && !regex_compiles(pat, cfg.case_insensitive) {
        ScanState { err: Some(ScanError::BadPattern), ..st }
    } else if ns_skipped(cfg, st.ns) {
        cleared(st)
    } else {
        match regex_find(pat, cfg.case_insensitive, st.body) {
            Some(rng) => {
                if st.emitted.len() >= u32::MAX {
                    ScanState { err: Some(ScanError::TooManyMatches), ..st }
                } else {
                    cleared(
                        ScanState {
                            emitted: st.emitted.push(
                                MatchRec {
                                    title: st.title,
                                    start: rng.0,
                                    end: rng.1,
                                    count: st.emitted.len() as int + 1,
                                },
                            ),
                            ..st
                        },
                    )
                }
            },
            None => cleared(st),
        }
    }
}

/// One step of the scan on one token.
pub open spec fn step(cfg: GrepConfig, st: ScanState, t: Token) -> ScanState {
    match t {
        Token::Open(name) => {
            if name@ == text_tag() {
                ScanState { cursor: Cursor::InBody, ..st }
            } else if name@ == ns_tag() {
                ScanState { cursor: Cursor::InNamespace, ..st }
            } else if name@ == title_tag() {
                ScanState { cursor: Cursor::InTitle, ..st }
            } else {
                st
            }
        },
        Token::Close(name) => {
            if name@ == page_tag() {
                complete_page(cfg, st)
            } else {
                ScanState { cursor: Cursor::Idle, ..st }
            }
        },
        Token::Text(s) => {
            match st.cursor {
                Cursor::InTitle => ScanState { title: st.title + s@, ..st },
                Cursor::InBody => ScanState { body: st.body + s@, ..st },
                Cursor::InNamespace => {
                    match parse_u32_spec(s@) {
                        Some(v) => ScanState { ns: v, ..st },
                        None => ScanState { err: Some(ScanError::BadNamespace(s)), ..st },
                    }
                },
                Cursor::Idle => st,
            }
        },
        Token::Ref(name) => {
            match (named_ref(name@), st.cursor) {
                (Some(content), Cursor::InTitle) => ScanState { title: st.title + content, ..st },
                (Some(content), Cursor::InBody) => ScanState { body: st.body + content, ..st },
                (Some(_), Cursor::InNamespace) => ScanState {
                    err: Some(ScanError::BadNamespace(name)),
                    ..st
                },
                (Some(_), Cursor::Idle) => st,
                (None, _) => ScanState { err: Some(ScanError::MalformedXml(name)), ..st },
            }
        },
        Token::Skip => st,
        Token::Eof => st,
        Token::Malformed(m) => ScanState { err: Some(ScanError::MalformedXml(m)), ..st },
    }
}

/// Every recorded range is sane: its start is no later than its end, and
/// neither is negative.
pub open spec fn ranges_ok(recs: Seq<MatchRec>) -> bool {
    forall|i: int| 0 <= i < recs.len() ==> 0 <= #[trigger] recs[i].start <= recs[i].end
}

/// The state before any token: empty buffers, namespace zero, and, in
/// fixed-pattern mode, an immediate abort when the query does not compile.
pub open spec fn init_state(cfg: GrepConfig) -> ScanState {
    ScanState {
        cursor: Cursor::Idle,
        title: Seq::empty(),
        body: Seq::empty(),
        ns: 0,
        emitted: Seq::empty(),
        err: if !cfg.pagename && !regex_compiles(cfg.query@, cfg.case_insensitive) {
            Some(ScanError::BadPattern)
        } else {
            None
        },
    }
}

/// The scan state after consuming `toks`. A fatal error is sticky: once
/// set, later tokens change nothing.
pub open spec fn run(cfg: GrepConfig, toks: Seq<Token>) -> ScanState
    decreases toks.len(),
{
    if toks.len() == 0 {
        init_state(cfg)
    } else {
        let prev = run(cfg, toks.drop_last());
        if prev.err is Some {
            prev
        } else {
            step(cfg, prev, toks.last())
        }
    }
}

/// Unfolds `run` one token forward.
pub proof fn lemma_run_push(cfg: GrepConfig, toks: Seq<Token>, t: Token)
    ensures
        run(cfg, toks.push(t)) == (if run(cfg, toks).err is Some {
            run(cfg, toks)
        } else {
            step(cfg, run(cfg, toks), t)
        }),
{
    assert(toks.push(t).drop_last() =~= toks);
    assert(toks.push(t).last() == t);
}

} // verus!
