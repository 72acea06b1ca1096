//! Text primitives shared by the identity encodings: searching for a
//! separator, cutting a string at every occurrence of it, and comparing.

use vstd::prelude::*;

verus! {

/// `pat` stands in `s` at index `i`.
pub open spec fn occurs_at(s: Seq<char>, pat: Seq<char>, i: int) -> bool {
    &&& 0 <= i
    &&& i + pat.len() <= s.len()
    &&& s.subrange(i, i + pat.len()) == pat
}

/// `pat` stands somewhere in `s`.
pub open spec fn contains(s: Seq<char>, pat: Seq<char>) -> bool {
    exists|i: int| occurs_at(s, pat, i)
}

/// The least index at or after `from` at which `pat` stands in `s`.
pub open spec fn first_match_from(s: Seq<char>, pat: Seq<char>, from: int) -> Option<int>
    decreases s.len() - from + 1,
{
    if from < 0 || from + pat.len() > s.len() {
        None
    } else if occurs_at(s, pat, from) {
        Some(from)
    } else {
        first_match_from(s, pat, from + 1)
    }
}

/// The least index at which `pat` stands in `s`.
pub open spec fn first_match(s: Seq<char>, pat: Seq<char>) -> Option<int> {
    first_match_from(s, pat, 0)
}

/// What `first_match_from` finds is the leftmost occurrence not before `from`.
pub proof fn lemma_first_match_from(s: Seq<char>, pat: Seq<char>, from: int)
    requires
        0 <= from,
    ensures
        match first_match_from(s, pat, from) {
            Some(i) => from <= i && occurs_at(s, pat, i) && forall|j: int|
                from <= j < i ==> !occurs_at(s, pat, j),
            None => forall|j: int| from <= j ==> !occurs_at(s, pat, j),
        },
    decreases s.len() - from + 1,
{
    if from + pat.len() > s.len() {
    } else if occurs_at(s, pat, from) {
    } else {
        lemma_first_match_from(s, pat, from + 1);
    }
}

/// `first_match` is the leftmost occurrence, and `None` exactly when there is none.
pub proof fn lemma_first_match(s: Seq<char>, pat: Seq<char>)
    ensures
        match first_match(s, pat) {
            Some(i) => occurs_at(s, pat, i) && forall|j: int| j < i ==> !occurs_at(s, pat, j),
            None => !contains(s, pat),
        },
{
    lemma_first_match_from(s, pat, 0);
}

/// The pieces of `s` between the non-overlapping occurrences of `sep`, taken
/// from the left. There is always at least one piece, and with an empty
/// separator there is only the one.
pub open spec fn split(s: Seq<char>, sep: Seq<char>) -> Seq<Seq<char>>
    decreases s.len(),
{
    if sep.len() == 0 {
        seq![s]
    } else {
        match first_match(s, sep) {
            None => seq![s],
            Some(i) => if 0 <= i && i + sep.len() <= s.len() {
                seq![s.subrange(0, i)] + split(s.subrange(i + sep.len(), s.len() as int), sep)
            } else {
                seq![s]
            },
        }
    }
}

/// The views of the elements of a sequence, in order.
pub open spec fn views<T: View>(v: Seq<T>) -> Seq<T::V> {
    v.map_values(|x: T| x@)
}

/// The view of a result: that of its value, or that of its error.
pub open spec fn result_view<T: View, E: View>(r: Result<T, E>) -> Result<T::V, E::V> {
    match r {
        Ok(x) => Ok(x@),
        Err(e) => Err(e@),
    }
}

/// Does `pat` stand in `s` at index `i`?
pub fn matches_at(s: &str, pat: &str, i: usize) -> (r: bool)
    ensures
        r == occurs_at(s@, pat@, i as int),
{
    let n = s.unicode_len();
    let m = pat.unicode_len();
    if i > n || m > n - i {
        return false;
    }
    let mut k: usize = 0;
    while k < m
        invariant
            k <= m,
            m == pat@.len(),
            n == s@.len(),
            i + m <= n,
            forall|j: int| 0 <= j < k ==> s@[i + j] == pat@[j],
        decreases m - k,
    {
        if s.get_char(i + k) != pat.get_char(k) {
            proof {
                assert(s@.subrange(i as int, i + m)[k as int] == s@[i + k]);
            }
            return false;
        }
        k += 1;
    }
    proof {
        assert(s@.subrange(i as int, i + m) =~= pat@);
    }
    true
}

/// The leftmost index at or after `from` at which `pat` stands in `s`.
pub fn find_from(s: &str, pat: &str, from: usize) -> (r: Option<usize>)
    ensures
        match r {
            Some(i) => first_match_from(s@, pat@, from as int) == Some(i as int),
            None => first_match_from(s@, pat@, from as int) is None,
        },
{
    let n = s.unicode_len();
    let m = pat.unicode_len();
    let mut i: usize = from;
    while i <= n && m <= n - i
        invariant
            from <= i,
            n == s@.len(),
            m == pat@.len(),
            first_match_from(s@, pat@, from as int) == first_match_from(s@, pat@, i as int),
        decreases n + 1 - i,
    {
        if matches_at(s, pat, i) {
            return Some(i);
        }
        if i >= n {
            assert(first_match_from(s@, pat@, i + 1) is None);
            return None;
        }
        i += 1;
    }
    None
}

/// Cuts `s` at every occurrence of `sep`, from the left. An empty
/// separator cuts nowhere.
pub fn split_on(s: &str, sep: &str) -> (r: Vec<String>)
    ensures
        views(r@) == split(s@, sep@),
{
    let n = s.unicode_len();
    let m = sep.unicode_len();
    let mut out: Vec<String> = Vec::new();
    if m == 0 {
        out.push(s.to_owned());
        assert(views(out@) =~= seq![s@]);
        return out;
    }
    let mut start: usize = 0;
    proof {
        assert(s@.subrange(0, n as int) =~= s@);
        assert(views(out@) + split(s@, sep@) =~= split(s@, sep@));
    }
    loop
        invariant
            start <= n,
            n == s@.len(),
            m == sep@.len(),
            m > 0,
            views(out@) + split(s@.subrange(start as int, n as int), sep@) == split(s@, sep@),
        decreases n - start,
    {
        let rest = s.substring_char(start, n);
        match find_from(rest, sep, 0) {
            None => {
                let ghost before = views(out@);
                out.push(rest.to_owned());
                proof {
                    assert(views(out@) =~= before + seq![rest@]);
                }
                return out;
            },
            Some(i) => {
                proof {
                    lemma_first_match(rest@, sep@);
                }
                let piece = rest.substring_char(0, i);
                let ghost before = views(out@);
                out.push(piece.to_owned());
                proof {
                    assert(views(out@) =~= before + seq![piece@]);
                    assert(rest@.subrange(i + m, rest@.len() as int) =~= s@.subrange(
                        start + i + m,
                        n as int,
                    ));
                    assert(before + (seq![piece@] + split(
                        s@.subrange(start + i + m, n as int),
                        sep@,
                    )) =~= (before + seq![piece@]) + split(
                        s@.subrange(start + i + m, n as int),
                        sep@,
                    ));
                }
                start = start + i + m;
            },
        }
    }
}

/// A text in which the separator does not stand is one piece.
pub proof fn lemma_split_whole(s: Seq<char>, sep: Seq<char>)
    requires
        !contains(s, sep),
    ensures
        split(s, sep) == seq![s],
{
    lemma_first_match(s, sep);
    if first_match(s, sep) is Some {
        assert(occurs_at(s, sep, first_match(s, sep).unwrap()));
    }
}

/// Where the separator does not stand before the end of `head`, the text
/// `head + sep + rest` falls into `head` and the pieces of `rest`.
pub proof fn lemma_split_head(head: Seq<char>, sep: Seq<char>, rest: Seq<char>)
    requires
        sep.len() > 0,
        forall|j: int| 0 <= j < head.len() ==> !occurs_at(head + sep + rest, sep, j),
    ensures
        split(head + sep + rest, sep) == seq![head] + split(rest, sep),
{
    let s = head + sep + rest;
    let at = head.len() as int;
    lemma_first_match(s, sep);
    assert(s.subrange(at, at + sep.len()) =~= sep);
    assert(occurs_at(s, sep, at));
    assert(first_match(s, sep) == Some(at));
    assert(s.subrange(0, at) =~= head);
    assert(s.subrange(at + sep.len(), s.len() as int) =~= rest);
}

/// Are the two texts the same, character by character?
pub fn same_text(a: &str, b: &str) -> (r: bool)
    ensures
        r == (a@ == b@),
{
    if a.unicode_len() != b.unicode_len() {
        false
    } else {
        let r = matches_at(a, b, 0);
        assert(a@.subrange(0, a@.len() as int) =~= a@);
        r
    }
}

} // verus!
