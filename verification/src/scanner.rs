//! The stream scanner: assembles page records from tokens, filters them by
//! namespace, matches the pattern against each completed body, and reports
//! every match in document order. `Scanner` consumes one token at a time so
//! that a caller can drive it from any token source; `grep` drives it from
//! an XML tokenizer.

use vstd::prelude::*;
use vstd::string::*;
use crate::config::GrepConfig;
use crate::model::{ScanError, complete_page, init_state, lemma_run_push, ranges_ok, run, step};
use crate::numparse::parse_u32;
use crate::pattern::{Pattern, compile_pattern, find_first};
use crate::sink::{MatchRec, MatchSink, Progress};
use crate::strutil::{replace_template, str_eq};
use crate::token::{Cursor, Token};
use crate::xml::Tokenizer;

verus! {

/// The page-assembly state machine of one scan.
pub struct Scanner<'a> {
    /// The configuration this scan runs under.
    pub cfg: &'a GrepConfig,
    /// In fixed-pattern mode, the pattern compiled once at start.
    pub fixed: Option<Pattern>,
    /// Which field text currently accumulates into.
    pub cursor: Cursor,
    /// The title accumulated for the current page.
    pub title: String,
    /// The body accumulated for the current page.
    pub body: String,
    /// The namespace most recently parsed.
    pub ns: u32,
    /// How many matches have been reported.
    pub count: u32,
    /// Every token pushed into this scanner, in order.
    pub toks: Ghost<Seq<Token>>,
}

/// Does `v` contain `x`?
fn contains_u32(v: &Vec<u32>, x: u32) -> (b: bool)
    ensures
        b == v@.contains(x),
{
    let mut i: usize = 0;
    while i < v.len()
        invariant
            i <= v.len(),
            forall|j: int| 0 <= j < i ==> v@[j] != x,
        decreases v.len() - i,
    {
        if v[i] == x {
            return true;
        }
        i = i + 1;
    }
    false
}

impl<'a> Scanner<'a> {
    /// The scanner agrees, field for field, with the model state after the
    /// tokens pushed so far, the scan has not aborted, and the compiled
    /// pattern cache matches the mode.
    pub closed spec fn wf(self) -> bool {
        let st = run(*self.cfg, self.toks@);
        &&& st.err is None
        &&& self.cursor == st.cursor
        &&& self.title@ == st.title
        &&& self.body@ == st.body
        &&& self.ns == st.ns
        &&& self.count as nat == st.emitted.len()
        &&& st.emitted.len() <= u32::MAX
        &&& (match self.fixed {
            Some(p) => !self.cfg.pagename && p.pat@ == self.cfg.query@ && p.ci@
                == self.cfg.case_insensitive,
            None => self.cfg.pagename,
        })
    }

    /// A scanner before any token. In fixed-pattern mode the query is
    /// compiled here, and an invalid query aborts the scan at once.
    pub fn new(cfg: &'a GrepConfig) -> (r: Result<Scanner<'a>, ScanError>)
        ensures
            (match r {
                Ok(sc) => sc.cfg == cfg && sc.toks@ == Seq::<Token>::empty() && sc.wf()
                    && init_state(*cfg).err is None,
                Err(e) => init_state(*cfg).err == Some(e),
            }),
    {
        let fixed: Option<Pattern> = if !cfg.pagename {
            match compile_pattern(cfg.query.as_str(), cfg.case_insensitive) {
                Some(p) => Some(p),
                None => {
                    return Err(ScanError::BadPattern);
                },
            }
        } else {
            None
        };
        Ok(
            Scanner {
                cfg,
                fixed,
                cursor: Cursor::Idle,
                title: String::new(),
                body: String::new(),
                ns: 0,
                count: 0,
                toks: Ghost(Seq::empty()),
            },
        )
    }

    /// Consumes one token. On `Ok` the scanner still agrees with the model
    /// and the sink received exactly the matches the model emits for this
    /// token; on `Err` the model aborts with the same error and the sink
    /// received nothing.
    pub fn push_token<P: Progress, S: MatchSink>(
        &mut self,
        t: Token,
        progress: &mut P,
        sink: &mut S,
    ) -> (r: Result<(), ScanError>)
        requires
            old(self).wf(),
        ensures
            final(self).cfg == old(self).cfg,
            final(self).toks@ == old(self).toks@.push(t),
            ({
                let prev = run(*old(self).cfg, old(self).toks@);
                let st = run(*old(self).cfg, old(self).toks@.push(t));
                match r {
                    Ok(()) => {
                        &&& final(self).wf()
                        &&& st.err is None
                        &&& prev.emitted.len() <= st.emitted.len()
                        &&& st.emitted.take(prev.emitted.len() as int) == prev.emitted
                        &&& ranges_ok(st.emitted.skip(prev.emitted.len() as int))
                        &&& final(sink).emitted() == old(sink).emitted() + st.emitted.skip(prev.emitted.len() as int)
                    },
                    Err(e) => {
                        &&& st.err == Some(e)
                        &&& st.emitted == prev.emitted
                        &&& final(sink).emitted() == old(sink).emitted()
                    },
                }
            }),
    {
        let ghost tg = t;
        let ghost prev = run(*self.cfg, self.toks@);
        let ghost newtoks = self.toks@.push(tg);
        proof {
            lemma_run_push(*self.cfg, self.toks@, tg);
        }
        let r: Result<(), ScanError> = match t {
            Token::Open(name) => {
                if str_eq(name.as_str(), "text") {
                    self.cursor = Cursor::InBody;
                } else if str_eq(name.as_str(), "ns") {
                    self.cursor = Cursor::InNamespace;
                } else if str_eq(name.as_str(), "title") {
                    self.cursor = Cursor::InTitle;
                }
                Ok(())
            },
            Token::Close(name) => {
                if str_eq(name.as_str(), "page") {
                    self.finish_page(progress, sink)
                } else {
                    self.cursor = Cursor::Idle;
                    Ok(())
                }
            },
            Token::Text(s) => {
                match self.cursor {
                    Cursor::InTitle => {
                        self.title.append(s.as_str());
                        Ok(())
                    },
                    Cursor::InBody => {
                        self.body.append(s.as_str());
                        Ok(())
                    },
                    Cursor::InNamespace => {
                        match parse_u32(s.as_str()) {
                            Some(v) => {
                                self.ns = v;
                                Ok(())
                            },
                            None => Err(ScanError::BadNamespace(s)),
                        }
                    },
                    Cursor::Idle => Ok(()),
                }
            },
            Token::Ref(name) => {
                let content: Option<&str> = if str_eq(name.as_str(), "amp") {
                    Some("&")
                } else if str_eq(name.as_str(), "lt") {
                    Some("<")
                } else if str_eq(name.as_str(), "gt") {
                    Some(">")
                } else if str_eq(name.as_str(), "apos") {
                    Some("'")
                } else if str_eq(name.as_str(), "quot") {
                    Some("\"")
                } else {
                    None
                };
                match content {
                    Some(c) => {
                        match self.cursor {
                            Cursor::InTitle => {
                                self.title.append(c);
                                Ok(())
                            },
                            Cursor::InBody => {
                                self.body.append(c);
                                Ok(())
                            },
                            Cursor::InNamespace => Err(ScanError::BadNamespace(name)),
                            Cursor::Idle => Ok(()),
                        }
                    },
                    None => Err(ScanError::MalformedXml(name)),
                }
            },
            Token::Skip => Ok(()),
            Token::Eof => Ok(()),
            Token::Malformed(m) => Err(ScanError::MalformedXml(m)),
        };
        self.toks = Ghost(newtoks);
        proof {
            let st = run(*self.cfg, newtoks);
            assert(st == step(*self.cfg, prev, tg));
            if r is Ok {
                assert(st.emitted.take(prev.emitted.len() as int) =~= prev.emitted);
                assert(ranges_ok(st.emitted.skip(prev.emitted.len() as int)));
                assert(sink.emitted() =~= old(sink).emitted() + st.emitted.skip(
                    prev.emitted.len() as int,
                ));
            }
        }
        r
    }

    /// Page completion: recompile in template mode, filter by namespace,
    /// match, report, and clear the buffers.
    fn finish_page<P: Progress, S: MatchSink>(&mut self, progress: &mut P, sink: &mut S) -> (r:
        Result<(), ScanError>)
        requires
            old(self).wf(),
        ensures
            final(self).cfg == old(self).cfg,
            final(self).toks@ == old(self).toks@,
            final(self).fixed == old(self).fixed,
            ({
                let prev = run(*old(self).cfg, old(self).toks@);
                let st = complete_page(*old(self).cfg, prev);
                match r {
                    Ok(()) => {
                        &&& st.err is None
                        &&& final(self).cursor == st.cursor
                        &&& final(self).title@ == st.title
                        &&& final(self).body@ == st.body
                        &&& final(self).ns == st.ns
                        &&& final(self).count as nat == st.emitted.len()
                        &&& st.emitted.len() <= u32::MAX
                        &&& prev.emitted.len() <= st.emitted.len()
                        &&& st.emitted.take(prev.emitted.len() as int) == prev.emitted
                        &&& ranges_ok(st.emitted.skip(prev.emitted.len() as int))
                        &&& final(sink).emitted() == old(sink).emitted() + st.emitted.skip(prev.emitted.len() as int)
                    },
                    Err(e) => {
                        &&& st.err == Some(e)
                        &&& st.emitted == prev.emitted
                        &&& final(sink).emitted() == old(sink).emitted()
                    },
                }
            }),
    {
        let ghost prev = run(*self.cfg, self.toks@);
        let ghost st = complete_page(*self.cfg, prev);
        progress.inc_pages();
        let compiled: Option<Pattern> = if self.cfg.pagename {
            let pstr = replace_template(self.cfg.query.as_str(), self.title.as_str());
            match compile_pattern(pstr.as_str(), self.cfg.case_insensitive) {
                Some(p) => Some(p),
                None => {
                    return Err(ScanError::BadPattern);
                },
            }
        } else {
            None
        };
        let skip_page: bool = match &self.cfg.namespaces {
            Some(set) => {
                let inv: bool = matches!(self.cfg.invert_namespaces, Some(true));
                inv == contains_u32(set, self.ns)
            },
            None => false,
        };
        if skip_page {
            self.title = String::new();
            self.body = String::new();
            self.cursor = Cursor::Idle;
            proof {
                assert(st.emitted.take(prev.emitted.len() as int) =~= prev.emitted);
                assert(st.emitted.skip(prev.emitted.len() as int) =~= Seq::<MatchRec>::empty());
                assert(ranges_ok(st.emitted.skip(prev.emitted.len() as int)));
                assert(sink.emitted() =~= old(sink).emitted() + st.emitted.skip(
                    prev.emitted.len() as int,
                ));
            }
            return Ok(());
        }
        let pat: &Pattern = match (&compiled, &self.fixed) {
            (Some(p), _) => p,
            (None, Some(p)) => p,
            (None, None) => vstd::pervasive::unreached(),
        };
        match find_first(pat, self.body.as_str()) {
            Some((s, e)) => {
                if self.count == u32::MAX {
                    return Err(ScanError::TooManyMatches);
                }
                self.count = self.count + 1;
                sink.on_match(self.title.as_str(), s, e, self.count);
                progress.set_match_count(self.count);
                self.title = String::new();
                self.body = String::new();
                self.cursor = Cursor::Idle;
                proof {
                    assert(st.emitted.take(prev.emitted.len() as int) =~= prev.emitted);
                    assert(st.emitted.skip(prev.emitted.len() as int) =~= seq![
                        st.emitted[prev.emitted.len() as int],
                    ]);
                    assert(st.emitted[prev.emitted.len() as int].start == s as int);
                    assert(st.emitted[prev.emitted.len() as int].end == e as int);
                    assert(ranges_ok(st.emitted.skip(prev.emitted.len() as int)));
                    assert(sink.emitted() =~= old(sink).emitted() + st.emitted.skip(
                        prev.emitted.len() as int,
                    ));
                }
                Ok(())
            },
            None => {
                self.title = String::new();
                self.body = String::new();
                self.cursor = Cursor::Idle;
                proof {
                    assert(st.emitted.take(prev.emitted.len() as int) =~= prev.emitted);
                    assert(st.emitted.skip(prev.emitted.len() as int) =~= Seq::<MatchRec>::empty());
                    assert(ranges_ok(st.emitted.skip(prev.emitted.len() as int)));
                    assert(sink.emitted() =~= old(sink).emitted() + st.emitted.skip(
                        prev.emitted.len() as int,
                    ));
                }
                Ok(())
            },
        }
    }
}

/// Scans the whole token stream of `tokens`, reporting each matching page
/// to `sink` in document order, and returns how many pages matched. The
/// result, the reported matches and any error are exactly what the model
/// `run` yields on the tokens the tokenizer produced.
pub fn grep<P: Progress, S: MatchSink>(
    config: &GrepConfig,
    progress: &mut P,
    sink: &mut S,
    tokens: &mut Tokenizer,
) -> (r: Result<u32, ScanError>)
    ensures
        final(tokens).tokens@.len() >= old(tokens).tokens@.len(),
        final(tokens).tokens@.subrange(0, old(tokens).tokens@.len() as int) == old(
            tokens,
        ).tokens@,
        r is Ok ==> final(tokens).tokens@.len() > old(tokens).tokens@.len()
            && final(tokens).tokens@.last() is Eof,
        ({
            let st = run(*config, final(tokens).tokens@.skip(old(tokens).tokens@.len() as int));
            match r {
                Ok(n) => st.err is None && n as nat == st.emitted.len() && ranges_ok(st.emitted)
                    && final(sink).emitted() == old(sink).emitted() + st.emitted,
                Err(e) => st.err == Some(e) && ranges_ok(st.emitted) && final(sink).emitted()
                    == old(sink).emitted() + st.emitted,
            }
        }),
{
    let ghost base = tokens.tokens@;
    let ghost sink0 = sink.emitted();
    let mut sc = match Scanner::new(config) {
        Ok(sc) => sc,
        Err(e) => {
            proof {
                assert(tokens.tokens@.skip(base.len() as int) =~= Seq::<Token>::empty());
                assert(tokens.tokens@.subrange(0, base.len() as int) =~= base);
                assert(ranges_ok(Seq::<MatchRec>::empty()));
                assert(sink.emitted() =~= sink0 + Seq::<MatchRec>::empty());
            }
            return Err(e);
        },
    };
    proof {
        assert(tokens.tokens@.skip(base.len() as int) =~= Seq::<Token>::empty());
        assert(tokens.tokens@.subrange(0, base.len() as int) =~= base);
        assert(run(*config, Seq::<Token>::empty()).emitted =~= Seq::<MatchRec>::empty());
        assert(sink.emitted() =~= sink0 + run(*config, sc.toks@).emitted);
    }
    loop
        invariant
            sc.wf(),
            sc.cfg == config,
            base == old(tokens).tokens@,
            sink0 == old(sink).emitted(),
            tokens.tokens@.len() >= base.len(),
            tokens.tokens@.subrange(0, base.len() as int) == base,
            sc.toks@ == tokens.tokens@.skip(base.len() as int),
            sink.emitted() == sink0 + run(*config, sc.toks@).emitted,
            ranges_ok(run(*config, sc.toks@).emitted),
        ensures
            sc.wf(),
            sc.cfg == config,
            tokens.tokens@.len() > base.len(),
            tokens.tokens@.subrange(0, base.len() as int) == base,
            sc.toks@ == tokens.tokens@.skip(base.len() as int),
            sink.emitted() == sink0 + run(*config, sc.toks@).emitted,
            ranges_ok(run(*config, sc.toks@).emitted),
            tokens.tokens@.last() is Eof,
        decreases tokens.fuel@,
    {
        let t = tokens.next();
        let stop: bool = matches!(t, Token::Eof);
        let failed: bool = matches!(t, Token::Malformed(_));
        let ghost tg = t;
        let ghost prev_toks = sc.toks@;
        proof {
            assert(tokens.tokens@.subrange(0, base.len() as int) =~= base);
            assert(tokens.tokens@.skip(base.len() as int) =~= sc.toks@.push(t));
        }
        let ghost prev_emitted = run(*config, sc.toks@).emitted;
        match sc.push_token(t, progress, sink) {
            Ok(()) => {
                proof {
                    let st = run(*config, sc.toks@);
                    assert(sc.toks@ == prev_toks.push(tg));
                    assert(st.emitted.take(prev_emitted.len() as int) == prev_emitted);
                    assert(prev_emitted.len() <= st.emitted.len());
                    assert(st.emitted =~= st.emitted.take(prev_emitted.len() as int)
                        + st.emitted.skip(prev_emitted.len() as int));
                    assert(sink.emitted() =~= sink0 + st.emitted);
                    assert forall|i: int| 0 <= i < st.emitted.len() implies 0 <= (
                    #[trigger] st.emitted[i]).start <= st.emitted[i].end by {
                        if i < prev_emitted.len() {
                            assert(st.emitted[i] == st.emitted.take(prev_emitted.len() as int)[i]);
                        } else {
                            assert(st.emitted[i] == st.emitted.skip(prev_emitted.len() as int)[i
                                - prev_emitted.len()]);
                        }
                    }
                    assert(ranges_ok(st.emitted));
                    if stop {
                        assert(sc.toks@.last() == tg);
                        assert(tokens.tokens@.last() == tg);
                    }
                    if failed {
                        lemma_run_push(*config, prev_toks, tg);
                        assert(run(*config, sc.toks@).err is Some);
                    }
                }
            },
            Err(e) => {
                proof {
                    let st = run(*config, tokens.tokens@.skip(base.len() as int));
                    assert(sink.emitted() =~= sink0 + st.emitted);
                }
                return Err(e);
            },
        }
        if stop {
            break;
        }
    }
    Ok(sc.count)
}

} // verus!
