//! Where matches go: the per-match callback abstraction and the progress
//! observer, with an in-memory sink for callers that want a list.

use vstd::prelude::*;
use vstd::string::*;

verus! {

/// One reported match: the page title, the byte range of the first match in
/// the page body, and the running count of matches so far.
pub ghost struct MatchRec {
    /// The title of the matching page.
    pub title: Seq<char>,
    /// Byte offset where the match starts in the page body.
    pub start: int,
    /// Byte offset just past the end of the match.
    pub end: int,
    /// The running match count this invocation reported.
    pub count: int,
}

/// A caller-supplied receiver of matches. The scanner invokes `on_match`
/// once per matching page, in document order.
pub trait MatchSink {
    /// Everything this sink has received, in order.
    spec fn emitted(&self) -> Seq<MatchRec>;

    /// Receives one match.
    fn on_match(&mut self, title: &str, start: usize, end: usize, count: u32)
        ensures
            final(self).emitted() == old(self).emitted().push(
                MatchRec {
                    title: title@,
                    start: start as int,
                    end: end as int,
                    count: count as int,
                },
            ),
    ;
}

/// A sink that stores every reported match in a vector.
pub struct CollectedMatches {
    /// The received matches as `(title, start, end, count)` rows.
    pub items: Vec<(String, usize, usize, u32)>,
}

impl CollectedMatches {
    /// An empty sink.
    pub fn new() -> (c: CollectedMatches)
        ensures
            c.emitted() =~= Seq::<MatchRec>::empty(),
    {
        CollectedMatches { items: Vec::new() }
    }
}

impl MatchSink for CollectedMatches {
    open spec fn emitted(&self) -> Seq<MatchRec> {
        self.items@.map(
            |i: int, it: (String, usize, usize, u32)|
                MatchRec { title: it.0@, start: it.1 as int, end: it.2 as int, count: it.3 as int },
        )
    }

    fn on_match(&mut self, title: &str, start: usize, end: usize, count: u32) {
        self.items.push((title.to_owned(), start, end, count));
        proof {
            assert(self.emitted() =~= old(self).emitted().push(
                MatchRec {
                    title: title@,
                    start: start as int,
                    end: end as int,
                    count: count as int,
                },
            ));
        }
    }
}

/// A best-effort progress observer; its calls never affect the scan's
/// outcome, and a no-op implementation is always acceptable.
pub trait Progress {
    /// One page boundary has been processed, matching or not.
    fn inc_pages(&mut self);

    /// The running match count changed; may be displayed.
    fn set_match_count(&mut self, n: u32);
}

/// The progress observer that does nothing.
pub struct NoProgress {}

impl Progress for NoProgress {
    fn inc_pages(&mut self) {
    }

    fn set_match_count(&mut self, _n: u32) {
    }
}

} // verus!
