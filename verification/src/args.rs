//! Plain command-line argument records and the conversion from search
//! arguments to a scan configuration.

use vstd::prelude::*;
use crate::config::GrepConfig;
use vstd::string::*;

verus! {

/// Arguments of a search invocation.
pub struct SearchArgs {
    /// The query pattern, or a template when `pagename` is set.
    pub query: String,
    /// Print a final count of matching pages.
    pub count: bool,
    /// Match without regard to case.
    pub case_insensitive: bool,
    /// Disable the progress display.
    pub disable_progress: bool,
    /// The dump file to read from.
    pub file: String,
    /// Flush output once per this many matches.
    pub flush_rate: u32,
    /// Output line template, with `$1` for the title and `$2` for the range.
    pub format: String,
    /// Exclude the listed namespaces instead of including them.
    pub invert_namespaces: bool,
    /// Namespaces to include (or, inverted, to exclude).
    pub namespaces: Option<Vec<u32>>,
    /// Output file; standard output when absent.
    pub output: Option<String>,
    /// Treat the query as a per-page template.
    pub pagename: bool,
}

/// Arguments of a dump download invocation.
pub struct FetchArgs {
    /// Database name of the dump.
    pub database: String,
    /// Disable the progress display.
    pub disable_progress: bool,
    /// Root URL to download from, without the scheme.
    pub root: String,
    /// Target dump flavour.
    pub target: String,
}

/// The two commands the tool offers.
pub enum Commands {
    /// Search a dump.
    Search(SearchArgs),
    /// Download and decompress a dump.
    Fetch(FetchArgs),
}

/// Copies a vector of namespace identifiers.
fn copy_namespaces(v: &Vec<u32>) -> (r: Vec<u32>)
    ensures
        r@ == v@,
{
    let mut r: Vec<u32> = Vec::new();
    let mut i: usize = 0;
    while i < v.len()
        invariant
            i <= v.len(),
            r@ == v@.take(i as int),
        decreases v.len() - i,
    {
        r.push(v[i]);
        i = i + 1;
        proof {
            assert(v@.take(i as int) =~= v@.take(i as int - 1).push(v@[i - 1]));
        }
    }
    proof {
        assert(v@.take(v@.len() as int) =~= v@);
    }
    r
}

impl SearchArgs {
    /// The scan configuration these arguments select: the filter polarity
    /// is present exactly when inversion was requested on the command line;
    /// a namespace set given without it filters with include polarity.
    pub fn grep_config(&self) -> (c: GrepConfig)
        ensures
            c.query == self.query,
            c.case_insensitive == self.case_insensitive,
            c.pagename == self.pagename,
            (match (self.namespaces, c.namespaces) {
                (Some(v), Some(w)) => v@ == w@,
                (None, None) => true,
                _ => false,
            }),
            c.invert_namespaces == (if self.invert_namespaces {
                Some(true)
            } else {
                None::<bool>
            }),
    {
        GrepConfig {
            query: self.query.clone(),
            case_insensitive: self.case_insensitive,
            pagename: self.pagename,
            namespaces: match &self.namespaces {
                Some(v) => Some(copy_namespaces(v)),
                None => None,
            },
            invert_namespaces: if self.invert_namespaces {
                Some(true)
            } else {
                None
            },
        }
    }
}

} // verus!
