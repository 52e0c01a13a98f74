//! Verified string helpers: character-wise equality and the per-page
//! placeholder substitution that templated queries use.

use vstd::prelude::*;
use vstd::string::*;

verus! {

/// Character-wise equality of two string slices.
pub fn str_eq(a: &str, b: &str) -> (r: bool)
    ensures
        r == (a@ == b@),
{
    let la = a.unicode_len();
    let lb = b.unicode_len();
    if la != lb {
        return false;
    }
    let mut i: usize = 0;
    while i < la
        invariant
            i <= la,
            la == a@.len(),
            lb == b@.len(),
            la == lb,
            forall|j: int| 0 <= j < i ==> a@[j] == b@[j],
        decreases la - i,
    {
        if a.get_char(i) != b.get_char(i) {
            return false;
        }
        i = i + 1;
    }
    proof {
        assert(a@ =~= b@);
    }
    true
}

/// The placeholder that a templated query replaces with the page title.
pub open spec fn placeholder() -> Seq<char> {
    seq!['<', '<', 'P', 'A', 'G', 'E', 'N', 'A', 'M', 'E', '>', '>']
}

/// The `k`-th character of the placeholder.
fn placeholder_char(k: usize) -> (c: char)
    requires
        k < 12,
    ensures
        c == placeholder()[k as int],
{
    if k == 0 {
        '<'
    } else if k == 1 {
        '<'
    } else if k == 2 {
        'P'
    } else if k == 3 {
        'A'
    } else if k == 4 {
        'G'
    } else if k == 5 {
        'E'
    } else if k == 6 {
        'N'
    } else if k == 7 {
        'A'
    } else if k == 8 {
        'M'
    } else if k == 9 {
        'E'
    } else if k == 10 {
        '>'
    } else {
        '>'
    }
}

/// Does the placeholder occur in `q` starting at character index `i`?
fn placeholder_at(q: &str, i: usize) -> (b: bool)
    requires
        i + 12 <= q@.len(),
        q@.len() <= usize::MAX,
    ensures
        b == (q@.subrange(i as int, i as int + 12) == placeholder()),
{
    let mut k: usize = 0;
    while k < 12
        invariant
            k <= 12,
            i + 12 <= q@.len(),
            q@.len() <= usize::MAX,
            forall|j: int| 0 <= j < k ==> q@[i + j] == placeholder()[j],
        decreases 12 - k,
    {
        if q.get_char(i + k) != placeholder_char(k) {
            proof {
                assert(q@.subrange(i as int, i as int + 12)[k as int] == q@[i + k]);
            }
            return false;
        }
        k = k + 1;
    }
    proof {
        assert(q@.subrange(i as int, i as int + 12) =~= placeholder());
    }
    true
}

/// The query text with every occurrence of the placeholder replaced by
/// `title`, scanning left to right over non-overlapping occurrences.
pub open spec fn substitute(q: Seq<char>, title: Seq<char>) -> Seq<char>
    decreases q.len(),
{
    if q.len() >= 12 && q.take(12) == placeholder() {
        title + substitute(q.skip(12), title)
    } else if q.len() == 0 {
        Seq::empty()
    } else {
        seq![q[0]] + substitute(q.skip(1), title)
    }
}

/// Substituting into the bare placeholder yields the title itself.
pub proof fn lemma_substitute_identity(title: Seq<char>)
    ensures
        substitute(placeholder(), title) == title,
{
    assert(placeholder().len() == 12);
    assert(placeholder().take(12) =~= placeholder());
    assert(placeholder().skip(12) =~= Seq::<char>::empty());
    assert(substitute(Seq::<char>::empty(), title) =~= Seq::<char>::empty());
    assert(title + Seq::<char>::empty() =~= title);
}

/// Builds the per-page pattern from the query template and the page title.
pub fn replace_template(q: &str, title: &str) -> (r: String)
    ensures
        r@ == substitute(q@, title@),
{
    let len = q.unicode_len();
    let mut out = String::new();
    let mut i: usize = 0;
    proof {
        assert(q@.skip(0) =~= q@);
        assert(Seq::<char>::empty() + substitute(q@, title@) =~= substitute(q@, title@));
    }
    while i < len
        invariant
            i <= len,
            len == q@.len(),
            out@ + substitute(q@.skip(i as int), title@) == substitute(q@, title@),
        decreases len - i,
    {
        if len - i >= 12 && placeholder_at(q, i) {
            out.append(title);
            proof {
                assert(q@.skip(i as int).take(12) =~= q@.subrange(i as int, i as int + 12));
                assert(q@.skip(i as int).skip(12) =~= q@.skip(i as int + 12));
            }
            i = i + 12;
        } else {
            let c = q.substring_char(i, i + 1);
            out.append(c);
            proof {
                if q@.skip(i as int).len() >= 12 {
                    assert(q@.skip(i as int).take(12) =~= q@.subrange(i as int, i as int + 12));
                }
                assert(seq![q@.skip(i as int)[0]] =~= q@.subrange(i as int, i as int + 1));
                assert(q@.skip(i as int).skip(1) =~= q@.skip(i as int + 1));
            }
            i = i + 1;
        }
    }
    proof {
        assert(q@.skip(len as int) =~= Seq::<char>::empty());
        assert(out@ + Seq::<char>::empty() =~= out@);
    }
    out
}

} // verus!
