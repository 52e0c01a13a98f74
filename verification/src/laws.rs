//! General properties of the scan, stated and proved against the model.

use vstd::prelude::*;
use crate::config::GrepConfig;
use crate::model::{ScanError, ScanState, complete_page, ns_skipped, page_pattern, run, step};
use crate::numparse::parse_u32_spec;
use crate::pattern::{regex_compiles, regex_find};
use crate::sink::MatchRec;
use crate::strutil::{lemma_substitute_identity, placeholder};
use crate::token::Token;

verus! {

/// Law: the running counts are exactly 1, 2, 3, ... in emission order: the
/// n-th reported match carries n as its running count.
pub proof fn lemma_running_counts(cfg: GrepConfig, toks: Seq<Token>)
    ensures
        forall|i: int|
            0 <= i < run(cfg, toks).emitted.len() ==> (#[trigger] run(cfg, toks).emitted[i]).count
                == i + 1,
    decreases toks.len(),
{
    if toks.len() > 0 {
        lemma_running_counts(cfg, toks.drop_last());
        let prev = run(cfg, toks.drop_last());
        let cur = run(cfg, toks);
        if prev.err is None {
            assert(cur == step(cfg, prev, toks.last()));
            assert(cur.emitted == prev.emitted || (cur.emitted.len() == prev.emitted.len() + 1
                && cur.emitted.take(prev.emitted.len() as int) =~= prev.emitted
                && cur.emitted.last().count == prev.emitted.len() + 1));
        }
    }
}

/// Law: the scan is a function of the configuration and the token stream
/// alone, so scanning the same stream twice with the same configuration
/// yields identical results, matches and errors included.
pub proof fn lemma_scan_deterministic(
    cfg_first: GrepConfig,
    cfg_second: GrepConfig,
    toks_first: Seq<Token>,
    toks_second: Seq<Token>,
)
    requires
        cfg_first == cfg_second,
        toks_first == toks_second,
    ensures
        run(cfg_first, toks_first) == run(cfg_second, toks_second),
{
}

/// Law: a page whose namespace the filter skips never contributes a match,
/// whatever its title and body; only the accumulation buffers are cleared.
pub proof fn lemma_namespace_skip(cfg: GrepConfig, st: ScanState)
    requires
        ns_skipped(cfg, st.ns),
        cfg.pagename ==> regex_compiles(page_pattern(cfg, st.title), cfg.case_insensitive),
    ensures
        complete_page(cfg, st).emitted == st.emitted,
        complete_page(cfg, st).err == st.err,
{
}

/// Law: a page whose namespace the filter keeps (in particular, any page
/// under an inverted filter whose namespace is outside the set) is matched:
/// it contributes a match exactly when the pattern finds one in its body.
pub proof fn lemma_namespace_keep(cfg: GrepConfig, st: ScanState)
    requires
        !ns_skipped(cfg, st.ns),
        cfg.pagename ==> regex_compiles(page_pattern(cfg, st.title), cfg.case_insensitive),
        st.emitted.len() < u32::MAX,
    ensures
        complete_page(cfg, st).emitted.len() == st.emitted.len() + (
        if regex_find(page_pattern(cfg, st.title), cfg.case_insensitive, st.body) is Some {
            1int
        } else {
            0int
        }),
        complete_page(cfg, st).err == st.err,
{
}

/// Law: with the query consisting of the bare placeholder, the pattern a
/// page is matched against is exactly that page's own title: each page gets
/// its own pattern, and no other page's pattern.
pub proof fn lemma_pagename_substitution(cfg: GrepConfig, title: Seq<char>)
    requires
        cfg.pagename,
        cfg.query@ == placeholder(),
    ensures
        page_pattern(cfg, title) == title,
{
    lemma_substitute_identity(title);
}

/// Law: a page the filter keeps emits, when the engine finds a range,
/// exactly one record carrying that range, the page's own title and the
/// next running count — and no record otherwise. In particular, since the
/// match wrapper's contract states that an empty pattern always finds the
/// range 0..0, every kept page under an empty fixed query is reported once
/// at offset 0..0 with the incremented count. The bound on the running
/// count is a machine limit: at `u32::MAX` recorded matches the scan
/// aborts instead of emitting.
pub proof fn lemma_match_emits_record(cfg: GrepConfig, st: ScanState)
    requires
        !ns_skipped(cfg, st.ns),
        cfg.pagename ==> regex_compiles(page_pattern(cfg, st.title), cfg.case_insensitive),
        st.emitted.len() < u32::MAX,
    ensures
        (match regex_find(page_pattern(cfg, st.title), cfg.case_insensitive, st.body) {
            Some(rng) => complete_page(cfg, st).emitted == st.emitted.push(
                MatchRec {
                    title: st.title,
                    start: rng.0,
                    end: rng.1,
                    count: st.emitted.len() as int + 1,
                },
            ),
            None => complete_page(cfg, st).emitted == st.emitted,
        }),
        complete_page(cfg, st).err == st.err,
{
}

/// Law: namespace text that does not parse as a `u32` aborts the scan with
/// the offending text, emitting nothing and never falling back to a default
/// namespace value.
pub proof fn lemma_malformed_namespace_aborts(cfg: GrepConfig, st: ScanState, s: String)
    requires
        st.cursor is InNamespace,
        parse_u32_spec(s@) is None,
    ensures
        step(cfg, st, Token::Text(s)).err == Some(ScanError::BadNamespace(s)),
        step(cfg, st, Token::Text(s)).emitted == st.emitted,
        step(cfg, st, Token::Text(s)).ns == st.ns,
{
}

/// A fatal error is sticky: after it, the rest of the stream changes
/// nothing.
pub proof fn lemma_error_sticky(cfg: GrepConfig, toks: Seq<Token>, i: int)
    requires
        0 <= i <= toks.len(),
        run(cfg, toks.take(i)).err is Some,
    ensures
        run(cfg, toks) == run(cfg, toks.take(i)),
    decreases toks.len() - i,
{
    if i < toks.len() {
        assert(toks.take(i + 1).drop_last() =~= toks.take(i));
        assert(run(cfg, toks.take(i + 1)) == run(cfg, toks.take(i)));
        lemma_error_sticky(cfg, toks, i + 1);
    } else {
        assert(toks.take(i) =~= toks);
    }
}

/// Law: matches are emitted in document order: the matches after any prefix
/// of the stream are a prefix of the matches after the whole stream,
/// provided the scan does not abort within the prefix.
pub proof fn lemma_document_order(cfg: GrepConfig, toks: Seq<Token>, i: int)
    requires
        0 <= i <= toks.len(),
    ensures
        run(cfg, toks.take(i)).err is None ==> {
            let early = run(cfg, toks.take(i)).emitted;
            let late = run(cfg, toks).emitted;
            early.len() <= late.len() && late.take(early.len() as int) == early
        },
    decreases toks.len() - i,
{
    if i < toks.len() {
        let a = run(cfg, toks.take(i));
        let b = run(cfg, toks.take(i + 1));
        let c = run(cfg, toks);
        assert(toks.take(i + 1).drop_last() =~= toks.take(i));
        assert(toks.take(i + 1).last() == toks[i]);
        if a.err is None {
            assert(b == step(cfg, a, toks[i]));
            assert(a.emitted.len() <= b.emitted.len() && b.emitted.take(a.emitted.len() as int)
                =~= a.emitted);
            if b.err is None {
                lemma_document_order(cfg, toks, i + 1);
                assert(c.emitted.take(a.emitted.len() as int) =~= a.emitted);
            } else {
                lemma_error_sticky(cfg, toks, i + 1);
                assert(c == b);
                assert(b.emitted =~= a.emitted);
                assert(c.emitted.take(a.emitted.len() as int) =~= a.emitted);
            }
        }
    } else {
        assert(toks.take(i) =~= toks);
    }
}

} // verus!
