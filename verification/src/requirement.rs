//! Version requirements: exact pins, caret (compatible) ranges and the
//! wildcard, with the standard matching semantics.
//!
//! A pre-release version only satisfies a requirement that names the
//! same `major.minor.patch` triple and itself carries a pre-release
//! tag; in particular the wildcard never selects a pre-release.

use crate::version::{pre_lt, pre_tag_eq, pre_tag_lt, Version, VersionView};
use vstd::prelude::*;

verus! {

/// The mathematical value of a requirement.
pub ghost enum RequirementView {
    Exact(VersionView),
    Caret(VersionView),
    Wildcard,
}

/// Gate for pre-release versions: a pre-release may only match a
/// requirement pinned to the same numeric triple that itself has a
/// pre-release tag.
pub open spec fn pre_compatible(c: VersionView, v: VersionView) -> bool {
    c.major == v.major && c.minor == v.minor && c.patch == v.patch && c.pre.len() > 0
}

/// Caret (compatible-range) matching: the leading non-zero component
/// of the requirement must be equal, and the remaining components must
/// be at least the required ones.
pub open spec fn caret_matches(c: VersionView, v: VersionView) -> bool {
    &&& v.major == c.major
    &&& if c.major > 0 {
        ||| v.minor > c.minor
        ||| (v.minor == c.minor && (v.patch > c.patch || (v.patch == c.patch && !pre_lt(
            v.pre,
            c.pre,
        ))))
    } else if c.minor > 0 {
        v.minor == c.minor && (v.patch > c.patch || (v.patch == c.patch && !pre_lt(v.pre, c.pre)))
    } else {
        v.minor == c.minor && v.patch == c.patch && !pre_lt(v.pre, c.pre)
    }
}

impl RequirementView {
    /// Whether version `v` satisfies this requirement.
    pub open spec fn matches(self, v: VersionView) -> bool {
        match self {
            RequirementView::Wildcard => v.pre.len() == 0,
            RequirementView::Exact(c) => {
                c.major == v.major && c.minor == v.minor && c.patch == v.patch && c.pre == v.pre
            },
            RequirementView::Caret(c) => {
                caret_matches(c, v) && (v.pre.len() == 0 || pre_compatible(c, v))
            },
        }
    }

    /// Whether this requirement is an exact pin of version `v`; only
    /// then may a yanked record still be resolved.
    pub open spec fn is_exact_pin(self, v: VersionView) -> bool {
        match self {
            RequirementView::Exact(c) => c.same_version(v),
            _ => false,
        }
    }
}

/// A version requirement: an exact pin (`=1.2.3`), a caret range
/// (`^1.2.3`, the default), or the wildcard (`*`, also written as the
/// empty requirement).
#[derive(Debug)]
pub enum Requirement {
    Exact(Version),
    Caret(Version),
    Wildcard,
}

impl View for Requirement {
    type V = RequirementView;

    open spec fn view(&self) -> RequirementView {
        match self {
            Requirement::Exact(v) => RequirementView::Exact(v@),
            Requirement::Caret(v) => RequirementView::Caret(v@),
            Requirement::Wildcard => RequirementView::Wildcard,
        }
    }
}

impl DeepView for Requirement {
    type V = RequirementView;

    open spec fn deep_view(&self) -> RequirementView {
        self.view()
    }
}

impl Requirement {
    /// Whether version `v` satisfies this requirement.
    pub fn matches(&self, v: &Version) -> (r: bool)
        ensures
            r == self@.matches(v@),
    {
        match self {
            Requirement::Wildcard => v.pre.len() == 0,
            Requirement::Exact(c) => {
                c.major == v.major && c.minor == v.minor && c.patch == v.patch && pre_tag_eq(
                    &c.pre,
                    &v.pre,
                )
            },
            Requirement::Caret(c) => {
                if v.major != c.major {
                    return false;
                }
                let range_ok: bool = if c.major > 0 {
                    v.minor > c.minor || (v.minor == c.minor && (v.patch > c.patch || (v.patch
                        == c.patch && !pre_tag_lt(&v.pre, &c.pre))))
                } else if c.minor > 0 {
                    v.minor == c.minor && (v.patch > c.patch || (v.patch == c.patch && !pre_tag_lt(
                        &v.pre,
                        &c.pre,
                    )))
                } else {
                    v.minor == c.minor && v.patch == c.patch && !pre_tag_lt(&v.pre, &c.pre)
                };
                let pre_ok: bool = v.pre.len() == 0 || (c.major == v.major && c.minor == v.minor
                    && c.patch == v.patch && c.pre.len() > 0);
                range_ok && pre_ok
            },
        }
    }

    /// Whether this requirement is an exact pin of version `v`.
    pub fn is_exact_pin(&self, v: &Version) -> (r: bool)
        ensures
            r == self@.is_exact_pin(v@),
    {
        match self {
            Requirement::Exact(c) => c.same_version(v),
            _ => false,
        }
    }

    /// The caret requirement derived from a version, as used to decide
    /// whether a compatible-or-newer version already exists.
    pub fn caret_of(v: &Version) -> (r: Requirement)
        ensures
            r@ == RequirementView::Caret(v@),
    {
        Requirement::Caret(v.duplicate())
    }
}

} // verus!
