//! Three-part versions: their text `major.minor.patch`, their order, and the
//! latest of a set.

use crate::decimal::all_digits;
use crate::decimal::digits_of;
use crate::decimal::render;
use crate::decimal::is_digit;
use crate::decimal::lemma_digits_of;
use crate::decimal::lemma_parse_numeral;
use crate::decimal::numeral;
use crate::decimal::parse;
use crate::decimal::parse_spec;
use crate::exceptions::RunnerError;
use crate::exceptions::RunnerErrorView;
use crate::text::lemma_split_head;
use crate::text::lemma_split_whole;
use crate::text::occurs_at;
use crate::text::split;
use crate::text::split_on;
use crate::text::views;
use std::cmp::Ordering;
use vstd::prelude::*;
use vstd::std_specs::cmp::PartialOrdSpecImpl;

verus! {

/// The separator between the parts of a version, as characters.
pub open spec fn dot() -> Seq<char> {
    seq!['.']
}

/// A version `major.minor.patch`.
#[derive(Debug, Copy, Clone, PartialEq, Eq, Structural, Ord, Hash)]
pub struct Version {
    pub major: i32,
    pub minor: i32,
    pub patch: i32,
}

impl Version {
    /// The text of the version: the three numerals with dots between.
    pub open spec fn text(self) -> Seq<char> {
        numeral(self.major as int) + dot() + numeral(self.minor as int) + dot() + numeral(
            self.patch as int,
        )
    }

    /// The version that a text writes: the text must fall into exactly
    /// three pieces at the dots, each the numeral of a 32-bit integer.
    pub open spec fn parsed(s: Seq<char>) -> Option<Version> {
        let pieces = split(s, dot());
        if pieces.len() == 3 && parse_spec(pieces[0]) is Some && parse_spec(pieces[1]) is Some
            && parse_spec(pieces[2]) is Some {
            Some(
                Version {
                    major: parse_spec(pieces[0]).unwrap(),
                    minor: parse_spec(pieces[1]).unwrap(),
                    patch: parse_spec(pieces[2]).unwrap(),
                },
            )
        } else {
            None
        }
    }

    /// Reading a text: the version it writes, or the failure that carries
    /// the text.
    pub open spec fn parse(s: Seq<char>) -> Result<Version, RunnerErrorView> {
        match Version::parsed(s) {
            Some(v) => Ok(v),
            None => Err(RunnerErrorView::VersionParseFail(s)),
        }
    }

    /// `self` comes strictly before `other`: by major, then minor, then patch.
    pub open spec fn precedes(self, other: Version) -> bool {
        self.major < other.major || (self.major == other.major && (self.minor < other.minor || (
        self.minor == other.minor && self.patch < other.patch)))
    }

    /// `self` comes before `other` or is `other`.
    pub open spec fn at_most(self, other: Version) -> bool {
        self == other || self.precedes(other)
    }

    /// Where `self` stands relative to `other`.
    pub open spec fn order(self, other: Version) -> Ordering {
        if self.precedes(other) {
            Ordering::Less
        } else if other.precedes(self) {
            Ordering::Greater
        } else {
            Ordering::Equal
        }
    }

    /// The version with the given parts.
    pub fn new(major: i32, minor: i32, patch: i32) -> (r: Version)
        ensures
            r == (Version { major, minor, patch }),
    {
        Version { major, minor, patch }
    }

    /// Reads a version from its text `major.minor.patch`.
    pub fn from_str(s: &str) -> (r: Result<Version, RunnerError>)
        ensures
            match r {
                Ok(v) => Version::parse(s@) == Ok::<Version, RunnerErrorView>(v),
                Err(e) => Version::parse(s@) == Err::<Version, RunnerErrorView>(e@),
            },
    {
        proof {
            reveal_strlit(".");
            assert("."@ =~= dot());
        }
        let pieces = split_on(s, ".");
        assert(views(pieces@).len() == pieces@.len());
        if pieces.len() != 3 {
            return Err(RunnerError::VersionParseFail(s.to_owned()));
        }
        let ghost all = views(pieces@);
        assert(all[0] == pieces@[0]@);
        assert(all[1] == pieces@[1]@);
        assert(all[2] == pieces@[2]@);
        match (parse(pieces[0].as_str()), parse(pieces[1].as_str()), parse(pieces[2].as_str())) {
            (Some(major), Some(minor), Some(patch)) => Ok(Version { major, minor, patch }),
            _ => Err(RunnerError::VersionParseFail(s.to_owned())),
        }
    }

    /// Writes the version as `major.minor.patch`.
    pub fn to_string(&self) -> (r: String)
        ensures
            r@ == self.text(),
    {
        proof {
            reveal_strlit(".");
            assert("."@ =~= dot());
        }
        let mut out = render(self.major);
        out.append(".");
        out.append(render(self.minor).as_str());
        out.append(".");
        out.append(render(self.patch).as_str());
        out
    }

    /// Compares two versions part by part.
    pub fn compare(&self, other: &Version) -> (r: Ordering)
        ensures
            r == self.order(*other),
    {
        if self.major < other.major {
            Ordering::Less
        } else if self.major > other.major {
            Ordering::Greater
        } else if self.minor < other.minor {
            Ordering::Less
        } else if self.minor > other.minor {
            Ordering::Greater
        } else if self.patch < other.patch {
            Ordering::Less
        } else if self.patch > other.patch {
            Ordering::Greater
        } else {
            Ordering::Equal
        }
    }
}

impl PartialOrd for Version {
    fn partial_cmp(&self, other: &Version) -> (r: Option<Ordering>) {
        Some(self.compare(other))
    }
}

impl PartialOrdSpecImpl for Version {
    open spec fn obeys_partial_cmp_spec() -> bool {
        true
    }

    open spec fn partial_cmp_spec(&self, other: &Version) -> Option<Ordering> {
        Some(self.order(*other))
    }
}

/// The latest of the versions, or `None` where there is none.
pub fn latest(versions: &Vec<Version>) -> (r: Option<Version>)
    ensures
        match r {
            None => versions@.len() == 0,
            Some(v) => versions@.contains(v) && forall|i: int|
                0 <= i < versions@.len() ==> (#[trigger] versions@[i]).at_most(v),
        },
{
    if versions.len() == 0 {
        return None;
    }
    let mut best = versions[0];
    let mut i: usize = 1;
    while i < versions.len()
        invariant
            1 <= i <= versions@.len(),
            versions@.contains(best),
            forall|j: int| 0 <= j < i ==> (#[trigger] versions@[j]).at_most(best),
        decreases versions@.len() - i,
    {
        if best < versions[i] {
            best = versions[i];
        }
        i += 1;
    }
    Some(best)
}

/// The order of versions is a strict total order: nothing precedes itself,
/// of two different versions exactly one precedes the other, and precedence
/// carries over.
pub proof fn lemma_version_order(a: Version, b: Version, c: Version)
    ensures
        !a.precedes(a),
        a == b || a.precedes(b) || b.precedes(a),
        !(a.precedes(b) && b.precedes(a)),
        a.precedes(b) && b.precedes(c) ==> a.precedes(c),
{
}

/// A numeral holds no dot.
pub proof fn lemma_numeral_has_no_dot(v: int)
    ensures
        forall|i: int| 0 <= i < numeral(v).len() ==> #[trigger] numeral(v)[i] != '.',
{
    if v < 0 {
        lemma_digits_of((-v) as nat);
        let d = digits_of((-v) as nat);
        assert forall|i: int| 0 <= i < numeral(v).len() implies #[trigger] numeral(v)[i]
            != '.' by {
            if i > 0 {
                assert(numeral(v)[i] == d[i - 1]);
                assert(is_digit(d[i - 1]));
            }
        }
    } else {
        lemma_digits_of(v as nat);
        let d = digits_of(v as nat);
        assert forall|i: int| 0 <= i < numeral(v).len() implies #[trigger] numeral(v)[i]
            != '.' by {
            assert(is_digit(d[i]));
        }
    }
}

/// Reading back the text of a version gives that version.
pub proof fn lemma_version_round_trip(v: Version)
    ensures
        Version::parsed(v.text()) == Some(v),
{
    let a = numeral(v.major as int);
    let b = numeral(v.minor as int);
    let c = numeral(v.patch as int);
    lemma_numeral_has_no_dot(v.major as int);
    lemma_numeral_has_no_dot(v.minor as int);
    lemma_numeral_has_no_dot(v.patch as int);
    let tail = b + dot() + c;
    assert(v.text() =~= a + dot() + tail);
    assert forall|j: int| 0 <= j < a.len() implies !occurs_at(a + dot() + tail, dot(), j) by {
        if occurs_at(a + dot() + tail, dot(), j) {
            assert((a + dot() + tail).subrange(j, j + 1)[0] == a[j]);
        }
    }
    lemma_split_head(a, dot(), tail);
    assert forall|j: int| 0 <= j < b.len() implies !occurs_at(b + dot() + c, dot(), j) by {
        if occurs_at(b + dot() + c, dot(), j) {
            assert((b + dot() + c).subrange(j, j + 1)[0] == b[j]);
        }
    }
    lemma_split_head(b, dot(), c);
    assert forall|j: int| !occurs_at(c, dot(), j) by {
        if occurs_at(c, dot(), j) {
            assert(c.subrange(j, j + 1)[0] == c[j]);
        }
    }
    lemma_split_whole(c, dot());
    assert(split(v.text(), dot()) =~= seq![a, b, c]);
    lemma_parse_numeral(v.major);
    lemma_parse_numeral(v.minor);
    lemma_parse_numeral(v.patch);
}

} // verus!
