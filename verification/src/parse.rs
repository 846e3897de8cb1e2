//! Parsing of version texts and requirement texts, the grammar of the
//! index query surface: a version is `major.minor.patch[-pre][+build]`
//! with no leading zeros in numeric parts; a requirement is exact
//! (`=1.2.3`), caret (`^1.2.3`, also the bare default), or the
//! wildcard (`*` or the empty text).
//!
//! The contract of each parser is a specification-level parser of the
//! same grammar; the executable code is proved to agree with it on
//! every input.

use crate::requirement::{Requirement, RequirementView};
use crate::version::{ident_wf, is_digit, is_ident_byte, Version, VersionView};
use vstd::prelude::*;

verus! {

/// The length of the run of decimal digits starting at `i`.
pub open spec fn digit_run(s: Seq<u8>, i: int) -> int
    recommends
        0 <= i <= s.len(),
    decreases s.len() - i,
{
    if i < s.len() && is_digit(s[i]) {
        1 + digit_run(s, i + 1)
    } else {
        0
    }
}

/// The length of the run of identifier bytes starting at `i`.
pub open spec fn ident_run(s: Seq<u8>, i: int) -> int
    recommends
        0 <= i <= s.len(),
    decreases s.len() - i,
{
    if i < s.len() && is_ident_byte(s[i]) {
        1 + ident_run(s, i + 1)
    } else {
        0
    }
}

/// The number a sequence of decimal digits denotes.
pub open spec fn dec_value(ds: Seq<u8>) -> int
    decreases ds.len(),
{
    if ds.len() == 0 {
        0
    } else {
        dec_value(ds.drop_last()) * 10 + (ds.last() - 0x30)
    }
}

/// A canonical number: non-empty digits, no leading zero, and small
/// enough for a machine word.
pub open spec fn num_ok(ds: Seq<u8>) -> bool {
    &&& ds.len() > 0
    &&& (ds.len() == 1 || ds[0] != 0x30)
    &&& dec_value(ds) <= u64::MAX
}

/// Parses the dot-separated pre-release identifiers starting at `i`,
/// up to the end or a `+`; yields the identifiers and the position
/// after them.
pub open spec fn spec_parse_pre(s: Seq<u8>, i: int) -> Option<(Seq<Seq<u8>>, int)>
    recommends
        0 <= i <= s.len(),
    decreases s.len() - i,
{
    let l = ident_run(s, i);
    let id = s.subrange(i, i + l);
    if l <= 0 || !ident_wf(id) {
        None
    } else if i + l < s.len() && s[i + l] == 0x2E {
        match spec_parse_pre(s, i + l + 1) {
            Some((ids, j)) => Some((seq![id] + ids, j)),
            None => None,
        }
    } else {
        Some((seq![id], i + l))
    }
}

/// Whether the bytes from `i` on form non-empty build metadata.
pub open spec fn build_ok(s: Seq<u8>, i: int) -> bool {
    i < s.len() && forall|j: int| i <= j < s.len() ==> is_ident_byte(#[trigger] s[j]) || s[j]
        == 0x2E
}

/// The version tail — pre-release tag and build metadata — starting
/// at `i`, after the numeric triple.
pub open spec fn spec_parse_tail(s: Seq<u8>, i: int) -> Option<(Seq<Seq<u8>>, Seq<u8>)>
    recommends
        0 <= i <= s.len(),
{
    if i == s.len() {
        Some((Seq::empty(), Seq::empty()))
    } else if s[i] == 0x2D {
        match spec_parse_pre(s, i + 1) {
            None => None,
            Some((ids, j)) => {
                if j == s.len() {
                    Some((ids, Seq::empty()))
                } else if s[j] == 0x2B && build_ok(s, j + 1) {
                    Some((ids, s.subrange(j + 1, s.len() as int)))
                } else {
                    None
                }
            },
        }
    } else if s[i] == 0x2B && build_ok(s, i + 1) {
        Some((Seq::empty(), s.subrange(i + 1, s.len() as int)))
    } else {
        None
    }
}

/// The specification-level version parser.
pub open spec fn spec_parse_version(s: Seq<u8>) -> Option<VersionView> {
    let l1 = digit_run(s, 0);
    let d1 = s.subrange(0, l1);
    if !num_ok(d1) || l1 >= s.len() || s[l1] != 0x2E {
        None
    } else {
        let i2 = l1 + 1;
        let l2 = digit_run(s, i2);
        let d2 = s.subrange(i2, i2 + l2);
        if !num_ok(d2) || i2 + l2 >= s.len() || s[i2 + l2] != 0x2E {
            None
        } else {
            let i3 = i2 + l2 + 1;
            let l3 = digit_run(s, i3);
            let d3 = s.subrange(i3, i3 + l3);
            if !num_ok(d3) {
                None
            } else {
                match spec_parse_tail(s, i3 + l3) {
                    None => None,
                    Some((pre, build)) => Some(
                        VersionView {
                            major: dec_value(d1) as u64,
                            minor: dec_value(d2) as u64,
                            patch: dec_value(d3) as u64,
                            pre,
                            build,
                        },
                    ),
                }
            }
        }
    }
}

/// The specification-level requirement parser.
pub open spec fn spec_parse_requirement(s: Seq<u8>) -> Option<RequirementView> {
    if s.len() == 0 || s == seq![0x2Au8] {
        Some(RequirementView::Wildcard)
    } else if s[0] == 0x3D {
        match spec_parse_version(s.skip(1)) {
            Some(v) => Some(RequirementView::Exact(v)),
            None => None,
        }
    } else if s[0] == 0x5E {
        match spec_parse_version(s.skip(1)) {
            Some(v) => Some(RequirementView::Caret(v)),
            None => None,
        }
    } else {
        match spec_parse_version(s) {
            Some(v) => Some(RequirementView::Caret(v)),
            None => None,
        }
    }
}

/// The digit run at `i`, measured.
fn digit_run_exec(s: &[u8], i: usize) -> (r: usize)
    requires
        i <= s@.len(),
    ensures
        r == digit_run(s@, i as int),
        i + r <= s@.len(),
    decreases s@.len() - i,
{
    if i < s.len() {
        let b = *vstd::slice::slice_index_get(s, i);
        if 0x30 <= b && b <= 0x39 {
            let rest = digit_run_exec(s, i + 1);
            return 1 + rest;
        }
    }
    0
}

/// The identifier run at `i`, measured.
fn ident_run_exec(s: &[u8], i: usize) -> (r: usize)
    requires
        i <= s@.len(),
    ensures
        r == ident_run(s@, i as int),
        i + r <= s@.len(),
    decreases s@.len() - i,
{
    if i < s.len() {
        let b = *vstd::slice::slice_index_get(s, i);
        if (0x30 <= b && b <= 0x39) || (0x41 <= b && b <= 0x5A) || (0x61 <= b && b <= 0x7A) || b
            == 0x2D {
            let rest = ident_run_exec(s, i + 1);
            return 1 + rest;
        }
    }
    0
}

/// Every byte of a digit run is a digit.
proof fn lemma_digit_run_digits(s: Seq<u8>, i: int)
    requires
        0 <= i <= s.len(),
    ensures
        i + digit_run(s, i) <= s.len(),
        forall|j: int| i <= j < i + digit_run(s, i) ==> is_digit(#[trigger] s[j]),
    decreases s.len() - i,
{
    if i < s.len() && is_digit(s[i]) {
        lemma_digit_run_digits(s, i + 1);
    }
}

/// The denoted number never shrinks as more digits are read.
proof fn lemma_dec_value_grows(ds: Seq<u8>, k: int)
    requires
        0 <= k <= ds.len(),
        forall|j: int| 0 <= j < ds.len() ==> is_digit(#[trigger] ds[j]),
    ensures
        0 <= dec_value(ds.take(k)) <= dec_value(ds),
    decreases ds.len(),
{
    if ds.len() == 0 {
        assert(ds.take(k) =~= ds);
    } else if k == ds.len() {
        assert(ds.take(k) =~= ds);
        assert forall|j: int| 0 <= j < ds.drop_last().len() implies is_digit(
            #[trigger] ds.drop_last()[j],
        ) by {
            assert(ds.drop_last()[j] == ds[j]);
        }
        lemma_dec_value_grows(ds.drop_last(), ds.len() - 1);
    } else {
        assert forall|j: int| 0 <= j < ds.drop_last().len() implies is_digit(
            #[trigger] ds.drop_last()[j],
        ) by {
            assert(ds.drop_last()[j] == ds[j]);
        }
        assert(ds.take(k) =~= ds.drop_last().take(k));
        lemma_dec_value_grows(ds.drop_last(), k);
        assert(dec_value(ds) == dec_value(ds.drop_last()) * 10 + (ds.last() - 0x30));
        assert(ds.last() - 0x30 >= 0);
        assert(dec_value(ds.drop_last()) * 10 >= dec_value(ds.drop_last()));
    }
}

/// Reads the number written by the digits in `[from, to)`; `None`
/// exactly when it does not fit a machine word.
fn parse_num(s: &[u8], from: usize, to: usize) -> (r: Option<u64>)
    requires
        from <= to <= s@.len(),
        forall|j: int| from <= j < to ==> is_digit(#[trigger] s@[j]),
    ensures
        ({
            let ds = s@.subrange(from as int, to as int);
            match r {
                Some(x) => x == dec_value(ds) && dec_value(ds) <= u64::MAX,
                None => dec_value(ds) > u64::MAX,
            }
        }),
{
    let ghost ds = s@.subrange(from as int, to as int);
    proof {
        assert forall|j: int| 0 <= j < ds.len() implies is_digit(#[trigger] ds[j]) by {
            assert(ds[j] == s@[from + j]);
        }
    }
    let mut x: u64 = 0;
    let mut k: usize = from;
    while k < to
        invariant
            from <= k <= to <= s@.len(),
            ds == s@.subrange(from as int, to as int),
            forall|j: int| 0 <= j < ds.len() ==> is_digit(#[trigger] ds[j]),
            x == dec_value(ds.take(k - from)),
        decreases to - k,
    {
        let d = *vstd::slice::slice_index_get(s, k);
        proof {
            assert(ds[k - from] == s@[k as int]);
            assert(is_digit(ds[k - from]));
        }
        let digit: u64 = (d - 0x30) as u64;
        if x > 1844674407370955161 || (x == 1844674407370955161 && digit > 5) {
            proof {
                assert(ds.take(k - from + 1).drop_last() =~= ds.take(k - from));
                assert(ds.take(k - from + 1).last() == ds[k - from]);
                assert(dec_value(ds.take(k - from + 1)) == x * 10 + digit);
                assert(dec_value(ds.take(k - from + 1)) > u64::MAX);
                lemma_dec_value_grows(ds, k - from + 1);
            }
            return None;
        }
        proof {
            assert(ds.take(k - from + 1).drop_last() =~= ds.take(k - from));
            assert(ds.take(k - from + 1).last() == ds[k - from]);
        }
        x = x * 10 + digit;
        k += 1;
    }
    proof {
        assert(ds.take(to - from) =~= ds);
    }
    Some(x)
}

/// Copies the bytes in `[from, to)`.
fn bytes_of(s: &[u8], from: usize, to: usize) -> (r: Vec<u8>)
    requires
        from <= to <= s@.len(),
    ensures
        r@ == s@.subrange(from as int, to as int),
{
    vstd::slice::slice_to_vec(vstd::slice::slice_subrange(s, from, to))
}

/// Parses the pre-release identifiers at `i`, as the specification
/// parser reads them.
fn parse_pre_exec(s: &[u8], i: usize) -> (r: Option<(Vec<Vec<u8>>, usize)>)
    requires
        i <= s@.len(),
    ensures
        match r {
            Some(p) => p.1 <= s@.len() && spec_parse_pre(s@, i as int) == Some(
                (p.0.deep_view(), p.1 as int),
            ),
            None => spec_parse_pre(s@, i as int) is None,
        },
    decreases s@.len() - i,
{
    let total = s.len();
    let l = ident_run_exec(s, i);
    proof {
        assert(i + l <= total);
    }
    let id = bytes_of(s, i, i + l);
    // well-formedness of the identifier: non-empty, and no leading
    // zero when numeric
    if l == 0 {
        proof {
            assert(!ident_wf(s@.subrange(i as int, i as int)));
        }
        return None;
    }
    proof {
        lemma_ident_run_bytes(s@, i as int);
    }
    let mut numeric: bool = true;
    let mut t: usize = 0;
    while t < l
        invariant
            t <= l,
            id@ == s@.subrange(i as int, i + l),
            l == ident_run(s@, i as int),
            i + l <= s@.len(),
            numeric == forall|j: int| 0 <= j < t ==> is_digit(#[trigger] id@[j]),
        decreases l - t,
    {
        let b = id[t];
        let still = numeric && 0x30 <= b && b <= 0x39;
        proof {
            if still {
                assert forall|j: int| 0 <= j < t + 1 implies is_digit(#[trigger] id@[j]) by {}
            } else {
                assert(!(forall|j: int| 0 <= j < t + 1 ==> is_digit(#[trigger] id@[j]))) by {
                    if numeric {
                        assert(!is_digit(id@[t as int]));
                    } else {
                        let w = choose|j: int| 0 <= j < t && !is_digit(#[trigger] id@[j]);
                        assert(!is_digit(id@[w]));
                    }
                }
            }
        }
        numeric = still;
        t += 1;
    }
    proof {
        if numeric {
            assert(crate::version::ident_is_numeric(id@));
        } else {
            let w = choose|j: int| 0 <= j < l && !is_digit(#[trigger] id@[j]);
            assert(!is_digit(id@[w]));
            assert(!crate::version::ident_is_numeric(id@));
        }
    }
    if numeric && l > 1 && id[0] == 0x30 {
        proof {
            assert(!ident_wf(id@));
        }
        return None;
    }
    proof {
        assert(ident_wf(id@));
    }
    if i + l < s.len() {
        let b = *vstd::slice::slice_index_get(s, i + l);
        if b == 0x2E {
            match parse_pre_exec(s, i + l + 1) {
                None => {
                    return None;
                },
                Some(p) => {
                    let (rest, j) = p;
                    let mut ids: Vec<Vec<u8>> = Vec::new();
                    let ghost empty_ids = ids.deep_view();
                    ids.push(id);
                    proof {
                        assert(ids.deep_view() =~= empty_ids.push(id.deep_view()));
                        assert(id.deep_view() =~= id@);
                        assert(ids.deep_view() =~= seq![s@.subrange(i as int, i + l)]);
                    }
                    let ghost first = ids.deep_view();
                    let rest_vec = rest;
                    let mut m: usize = 0;
                    let ghost restv = rest_vec.deep_view();
                    let n = rest_vec.len();
                    while m < n
                        invariant
                            restv == rest_vec.deep_view(),
                            n == rest_vec.len(),
                            m <= n,
                            ids.deep_view() =~= first + restv.take(m as int),
                        decreases n - m,
                    {
                        let ghost prev = ids.deep_view();
                        let moved = copy_ident(&rest_vec[m]);
                        ids.push(moved);
                        proof {
                            assert(ids.deep_view() =~= prev.push(moved.deep_view()));
                            assert(moved.deep_view() =~= moved@);
                            assert(restv[m as int] =~= rest_vec@[m as int]@);
                            assert(ids.deep_view() =~= first + restv.take(m + 1));
                        }
                        m += 1;
                    }
                    proof {
                        assert(restv.take(n as int) =~= restv);
                        assert(ids.deep_view() =~= seq![s@.subrange(i as int, i + l)] + restv);
                    }
                    return Some((ids, j));
                },
            }
        }
    }
    let mut ids: Vec<Vec<u8>> = Vec::new();
    let ghost empty_ids = ids.deep_view();
    ids.push(id);
    proof {
        assert(ids.deep_view() =~= empty_ids.push(id.deep_view()));
        assert(id.deep_view() =~= id@);
        assert(ids.deep_view() =~= seq![s@.subrange(i as int, i + l)]);
    }
    Some((ids, i + l))
}

/// A copy of one identifier.
fn copy_ident(v: &Vec<u8>) -> (r: Vec<u8>)
    ensures
        r@ == v@,
{
    crate::version::copy_bytes(v)
}

/// Every byte of an identifier run is an identifier byte.
proof fn lemma_ident_run_bytes(s: Seq<u8>, i: int)
    requires
        0 <= i <= s.len(),
    ensures
        i + ident_run(s, i) <= s.len(),
        forall|j: int| i <= j < i + ident_run(s, i) ==> is_ident_byte(#[trigger] s[j]),
    decreases s.len() - i,
{
    if i < s.len() && is_ident_byte(s[i]) {
        lemma_ident_run_bytes(s, i + 1);
    }
}

/// Parses a version text; agrees with the specification parser on
/// every input.
pub fn parse_version(s: &[u8]) -> (r: Option<Version>)
    ensures
        (r is Some) == (spec_parse_version(s@) is Some),
        r matches Some(v) ==> spec_parse_version(s@) == Some(v@),
{
    let l1 = digit_run_exec(s, 0);
    proof {
        lemma_digit_run_digits(s@, 0);
        assert forall|j: int| 0 <= j < l1 implies is_digit(#[trigger] s@[j]) by {}
    }
    if l1 == 0 {
        return None;
    }
    if l1 > 1 && *vstd::slice::slice_index_get(s, 0) == 0x30 {
        proof {
            assert(s@.subrange(0, l1 as int)[0] == s@[0]);
        }
        return None;
    }
    let major = match parse_num(s, 0, l1) {
        Some(x) => x,
        None => {
            return None;
        },
    };
    if l1 >= s.len() || *vstd::slice::slice_index_get(s, l1) != 0x2E {
        return None;
    }
    let i2 = l1 + 1;
    let l2 = digit_run_exec(s, i2);
    proof {
        lemma_digit_run_digits(s@, i2 as int);
    }
    if l2 == 0 {
        return None;
    }
    if l2 > 1 && *vstd::slice::slice_index_get(s, i2) == 0x30 {
        proof {
            assert(s@.subrange(i2 as int, i2 + l2)[0] == s@[i2 as int]);
        }
        return None;
    }
    let minor = match parse_num(s, i2, i2 + l2) {
        Some(x) => x,
        None => {
            return None;
        },
    };
    if i2 + l2 >= s.len() || *vstd::slice::slice_index_get(s, i2 + l2) != 0x2E {
        return None;
    }
    let i3 = i2 + l2 + 1;
    let l3 = digit_run_exec(s, i3);
    proof {
        lemma_digit_run_digits(s@, i3 as int);
    }
    if l3 == 0 {
        return None;
    }
    if l3 > 1 && *vstd::slice::slice_index_get(s, i3) == 0x30 {
        proof {
            assert(s@.subrange(i3 as int, i3 + l3)[0] == s@[i3 as int]);
        }
        return None;
    }
    let patch = match parse_num(s, i3, i3 + l3) {
        Some(x) => x,
        None => {
            return None;
        },
    };
    let i4 = i3 + l3;
    proof {
        assert(num_ok(s@.subrange(0, l1 as int)));
        assert(num_ok(s@.subrange(i2 as int, i2 + l2)));
        assert(num_ok(s@.subrange(i3 as int, i3 + l3)));
    }
    // the tail: pre-release tag and build metadata
    if i4 == s.len() {
        let v = Version { major, minor, patch, pre: Vec::new(), build: Vec::new() };
        proof {
            assert(v@.pre =~= Seq::<Seq<u8>>::empty());
            assert(v@.build =~= Seq::<u8>::empty());
        }
        return Some(v);
    }
    let marker = *vstd::slice::slice_index_get(s, i4);
    if marker == 0x2D {
        match parse_pre_exec(s, i4 + 1) {
            None => {
                return None;
            },
            Some(p) => {
                let (ids, j) = p;
                if j == s.len() {
                    let v = Version { major, minor, patch, pre: ids, build: Vec::new() };
                    proof {
                        assert(v@.build =~= Seq::<u8>::empty());
                    }
                    return Some(v);
                }
                let after = *vstd::slice::slice_index_get(s, j);
                if after == 0x2B && check_build(s, j + 1) {
                    let build = bytes_of(s, j + 1, s.len());
                    let v = Version { major, minor, patch, pre: ids, build };
                    return Some(v);
                }
                return None;
            },
        }
    }
    if marker == 0x2B && check_build(s, i4 + 1) {
        let build = bytes_of(s, i4 + 1, s.len());
        let v = Version { major, minor, patch, pre: Vec::new(), build };
        proof {
            assert(v@.pre =~= Seq::<Seq<u8>>::empty());
        }
        return Some(v);
    }
    None
}

/// Whether the bytes from `i` on are acceptable non-empty build
/// metadata.
fn check_build(s: &[u8], i: usize) -> (r: bool)
    requires
        i <= s@.len(),
    ensures
        r == build_ok(s@, i as int),
{
    if i >= s.len() {
        return false;
    }
    let mut k: usize = i;
    while k < s.len()
        invariant
            i <= k <= s@.len(),
            forall|j: int| i <= j < k ==> is_ident_byte(#[trigger] s@[j]) || s@[j] == 0x2E,
        decreases s@.len() - k,
    {
        let b = *vstd::slice::slice_index_get(s, k);
        let good = (0x30 <= b && b <= 0x39) || (0x41 <= b && b <= 0x5A) || (0x61 <= b && b
            <= 0x7A) || b == 0x2D || b == 0x2E;
        if !good {
            return false;
        }
        k += 1;
    }
    true
}

/// Parses a requirement text of the query surface; agrees with the
/// specification parser on every input.
pub fn parse_requirement(s: &[u8]) -> (r: Option<Requirement>)
    ensures
        (r is Some) == (spec_parse_requirement(s@) is Some),
        r matches Some(q) ==> spec_parse_requirement(s@) == Some(q@),
{
    if s.len() == 0 {
        return Some(Requirement::Wildcard);
    }
    let first = *vstd::slice::slice_index_get(s, 0);
    if s.len() == 1 && first == 0x2A {
        proof {
            assert(s@ =~= seq![0x2Au8]);
        }
        return Some(Requirement::Wildcard);
    }
    proof {
        if s@ == seq![0x2Au8] {
            assert(s@.len() == 1);
        }
    }
    if first == 0x3D || first == 0x5E {
        let rest = vstd::slice::slice_subrange(s, 1, s.len());
        let parsed = parse_version(rest);
        match parsed {
            Some(v) => {
                if first == 0x3D {
                    return Some(Requirement::Exact(v));
                }
                return Some(Requirement::Caret(v));
            },
            None => {
                return None;
            },
        }
    }
    match parse_version(s) {
        Some(v) => Some(Requirement::Caret(v)),
        None => None,
    }
}

} // verus!
