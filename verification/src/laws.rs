//! Global laws of the store and the resolver, stated over their
//! mathematical models.

use crate::record::RecordView;
use crate::requirement::RequirementView;
use crate::resolver::{has_compatible_version, is_best_match, is_candidate};
use crate::store::{
    append_model, has_name, has_record, lemma_append_effect, lemma_rewrite_effect, package_wf,
    records_of, rewrite_model, store_wf, yank_in, PackageView,
};
use crate::version::VersionView;
use vstd::prelude::*;

verus! {

/// Law: an accepted append keeps `(name, version)` unique across the
/// whole store — no record is ever stored twice.
pub proof fn lemma_append_preserves_uniqueness(s: Seq<PackageView>, r: RecordView)
    requires
        store_wf(s),
        !has_record(s, r.name, r.version),
    ensures
        store_wf(append_model(s, r)),
        forall|j: int|
            0 <= j < append_model(s, r).len() ==> ((#[trigger] append_model(s, r)[j]).name
                == r.name || has_name(s, append_model(s, r)[j].name)),
    decreases s.len(),
{
    let t = append_model(s, r);
    if s.len() == 0 {
        assert(t.len() == 1);
        assert(t[0].records =~= seq![r]);
        assert(package_wf(t[0]));
    } else if s[0].name == r.name {
        assert(t.skip(1) =~= s.skip(1));
        let e = t[0];
        assert(e.records =~= s[0].records.push(r));
        assert(!crate::store::has_version(s[0].records, r.version));
        assert forall|k: int, l: int| 0 <= k < l < e.records.len() implies !(
        #[trigger] e.records[k]).version.same_version((#[trigger] e.records[l]).version) by {
            if l == e.records.len() - 1 {
                if e.records[k].version.same_version(r.version) {
                    assert(crate::store::has_version(s[0].records, r.version));
                }
            }
        }
        assert(package_wf(e));
        assert forall|j: int| 0 <= j < t.len() implies t[j].name == r.name || has_name(
            s,
            t[j].name,
        ) by {
            if j > 0 {
                assert(t[j] == s[j]);
            }
        }
    } else {
        assert(records_of(s, r.name) == records_of(s.skip(1), r.name));
        assert forall|i: int, j: int| 0 <= i < j < s.skip(1).len() implies (
        #[trigger] s.skip(1)[i]).name != (#[trigger] s.skip(1)[j]).name by {
            assert(s.skip(1)[i] == s[i + 1]);
            assert(s.skip(1)[j] == s[j + 1]);
        }
        assert forall|i: int| 0 <= i < s.skip(1).len() implies package_wf(
            #[trigger] s.skip(1)[i],
        ) by {
            assert(s.skip(1)[i] == s[i + 1]);
        }
        lemma_append_preserves_uniqueness(s.skip(1), r);
        let u = append_model(s.skip(1), r);
        assert(t.skip(1) =~= u);
        assert(t[0] == s[0]);
        assert forall|j: int| 0 <= j < t.len() implies t[j].name == r.name || has_name(
            s,
            t[j].name,
        ) by {
            if j > 0 {
                assert(t[j] == u[j - 1]);
                if u[j - 1].name != r.name {
                    let w = choose|i: int|
                        0 <= i < s.skip(1).len() && (#[trigger] s.skip(1)[i]).name == u[j
                            - 1].name;
                    assert(s[w + 1].name == u[j - 1].name);
                }
            }
        }
        assert forall|i: int, j: int| 0 <= i < j < t.len() implies (#[trigger] t[i]).name != (
        #[trigger] t[j]).name by {
            if i == 0 {
                assert(t[j] == u[j - 1]);
                if u[j - 1].name == s[0].name {
                    assert(u[j - 1].name != r.name);
                    let w = choose|x: int|
                        0 <= x < s.skip(1).len() && (#[trigger] s.skip(1)[x]).name == u[j
                            - 1].name;
                    assert(s[w + 1].name == s[0].name);
                }
            } else {
                assert(t[i] == u[i - 1]);
                assert(t[j] == u[j - 1]);
            }
        }
        assert forall|i: int| 0 <= i < t.len() implies package_wf(#[trigger] t[i]) by {
            if i > 0 {
                assert(t[i] == u[i - 1]);
            }
        }
    }
}

/// Law: a yank or un-yank keeps the store well formed: it renames and
/// removes nothing and never introduces a duplicate version.
pub proof fn lemma_rewrite_preserves_uniqueness(
    s: Seq<PackageView>,
    name: Seq<char>,
    v: VersionView,
    b: bool,
)
    requires
        store_wf(s),
    ensures
        store_wf(rewrite_model(s, name, v, b)),
        rewrite_model(s, name, v, b).len() == s.len(),
        forall|j: int|
            0 <= j < s.len() ==> (#[trigger] rewrite_model(s, name, v, b)[j]).name == s[j].name,
    decreases s.len(),
{
    let t = rewrite_model(s, name, v, b);
    if s.len() == 0 {
    } else if s[0].name == name {
        assert(t.skip(1) =~= s.skip(1));
        let e = t[0];
        assert forall|k: int| 0 <= k < e.records.len() implies (#[trigger] e.records[k]).name
            == e.name by {
            assert(e.records[k] == yank_in(s[0].records, v, b)[k]);
        }
        assert forall|k: int, l: int| 0 <= k < l < e.records.len() implies !(
        #[trigger] e.records[k]).version.same_version((#[trigger] e.records[l]).version) by {
            assert(e.records[k] == yank_in(s[0].records, v, b)[k]);
            assert(e.records[l] == yank_in(s[0].records, v, b)[l]);
        }
        assert(package_wf(e));
        assert forall|j: int| 0 <= j < s.len() implies (#[trigger] t[j]).name == s[j].name by {
            if j > 0 {
                assert(t[j] == s[j]);
            }
        }
    } else {
        assert forall|i: int, j: int| 0 <= i < j < s.skip(1).len() implies (
        #[trigger] s.skip(1)[i]).name != (#[trigger] s.skip(1)[j]).name by {
            assert(s.skip(1)[i] == s[i + 1]);
            assert(s.skip(1)[j] == s[j + 1]);
        }
        assert forall|i: int| 0 <= i < s.skip(1).len() implies package_wf(
            #[trigger] s.skip(1)[i],
        ) by {
            assert(s.skip(1)[i] == s[i + 1]);
        }
        lemma_rewrite_preserves_uniqueness(s.skip(1), name, v, b);
        let u = rewrite_model(s.skip(1), name, v, b);
        assert(t.skip(1) =~= u);
        assert(t[0] == s[0]);
        assert forall|j: int| 0 <= j < s.len() implies (#[trigger] t[j]).name == s[j].name by {
            if j > 0 {
                assert(t[j] == u[j - 1]);
                assert(s.skip(1)[j - 1] == s[j]);
            }
        }
        assert forall|i: int, j: int| 0 <= i < j < t.len() implies (#[trigger] t[i]).name != (
        #[trigger] t[j]).name by {}
        assert forall|i: int| 0 <= i < t.len() implies package_wf(#[trigger] t[i]) by {
            if i > 0 {
                assert(t[i] == u[i - 1]);
            }
        }
    }
}

/// Law: a yank or un-yank touches only the yank flag — the name,
/// version, dependencies, checksum, features and links of every
/// record read back unchanged.
pub proof fn lemma_alter_keeps_immutable_fields(rs: Seq<RecordView>, v: VersionView, b: bool)
    ensures
        yank_in(rs, v, b).len() == rs.len(),
        forall|k: int|
            0 <= k < rs.len() ==> {
                let after = #[trigger] yank_in(rs, v, b)[k];
                after.name == rs[k].name && after.version == rs[k].version && after.dependencies
                    == rs[k].dependencies && after.checksum == rs[k].checksum && after.features
                    == rs[k].features && after.links == rs[k].links
            },
{
}

/// Law: setting the yank flag twice leaves the store exactly as
/// setting it once does — yank and un-yank are idempotent.
pub proof fn lemma_yank_idempotent(s: Seq<PackageView>, name: Seq<char>, v: VersionView, b: bool)
    ensures
        rewrite_model(rewrite_model(s, name, v, b), name, v, b) == rewrite_model(s, name, v, b),
    decreases s.len(),
{
    if s.len() == 0 {
    } else if s[0].name == name {
        let t = rewrite_model(s, name, v, b);
        assert(t.skip(1) =~= s.skip(1));
        assert forall|j: int| 0 <= j < s[0].records.len() implies yank_in(
            yank_in(s[0].records, v, b),
            v,
            b,
        )[j] == yank_in(s[0].records, v, b)[j] by {}
        assert(yank_in(yank_in(s[0].records, v, b), v, b) =~= yank_in(s[0].records, v, b));
        assert(rewrite_model(t, name, v, b) =~= t);
    } else {
        lemma_yank_idempotent(s.skip(1), name, v, b);
        let t = rewrite_model(s, name, v, b);
        assert(t.skip(1) =~= rewrite_model(s.skip(1), name, v, b));
        assert(rewrite_model(t, name, v, b) =~= seq![t[0]] + rewrite_model(
            t.skip(1),
            name,
            v,
            b,
        ));
        assert(rewrite_model(t, name, v, b) =~= t);
    }
}

/// Law: a record that is appended is read back unchanged, every field
/// included, at the end of its package's collection.
pub proof fn lemma_append_round_trip(s: Seq<PackageView>, r: RecordView)
    ensures
        records_of(append_model(s, r), r.name) is Some,
        ({
            let rs = records_of(append_model(s, r), r.name)->0;
            rs.len() > 0 && rs.last() == r
        }),
{
    lemma_append_effect(s, r, r.name);
}

/// Law: appends for two different package names commute into both
/// collections: each record lands at the end of its own package's
/// collection, the other package's collection reads exactly as if the
/// other append had not happened, and every unrelated package is
/// untouched.
pub proof fn lemma_append_isolation(
    s: Seq<PackageView>,
    r1: RecordView,
    r2: RecordView,
    other: Seq<char>,
)
    requires
        r1.name != r2.name,
    ensures
        records_of(append_model(append_model(s, r1), r2), r1.name) == records_of(
            append_model(s, r1),
            r1.name,
        ),
        records_of(append_model(append_model(s, r1), r2), r2.name) == Some(
            match records_of(s, r2.name) {
                Some(rs) => rs.push(r2),
                None => seq![r2],
            },
        ),
        other != r1.name && other != r2.name ==> records_of(
            append_model(append_model(s, r1), r2),
            other,
        ) == records_of(s, other),
{
    lemma_append_effect(s, r1, r2.name);
    lemma_append_effect(append_model(s, r1), r2, r1.name);
    lemma_append_effect(s, r1, other);
    lemma_append_effect(append_model(s, r1), r2, other);
}

/// Law: a rewrite never touches another package's collection.
pub proof fn lemma_rewrite_isolation(
    s: Seq<PackageView>,
    name: Seq<char>,
    v: VersionView,
    b: bool,
    other: Seq<char>,
)
    requires
        other != name,
    ensures
        records_of(rewrite_model(s, name, v, b), other) == records_of(s, other),
{
    lemma_rewrite_effect(s, name, v, b, other);
}

/// Law: for release versions (no pre-release tag) in one non-zero
/// major line, the caret range of a candidate captures exactly the
/// versions that are not strictly below it.
pub proof fn lemma_caret_release_same_major(c: VersionView, w: VersionView)
    requires
        c.pre.len() == 0,
        w.pre.len() == 0,
        c.major == w.major,
        c.major > 0,
    ensures
        RequirementView::Caret(c).matches(w) <==> !w.precedence_lt(c),
{
}

/// Law behind the publish admission: within one non-zero major line
/// of release versions, a candidate passes `would_accept_publish`
/// exactly when it is strictly newer than every existing version —
/// yanked or not.
pub proof fn lemma_admission_strictly_newer(rs: Seq<RecordView>, c: VersionView)
    requires
        c.pre.len() == 0,
        c.major > 0,
        forall|i: int|
            0 <= i < rs.len() ==> (#[trigger] rs[i]).version.pre.len() == 0 && rs[i].version.major
                == c.major,
    ensures
        !has_compatible_version(rs, c) <==> forall|i: int|
            0 <= i < rs.len() ==> (#[trigger] rs[i]).version.precedence_lt(c),
{
    assert forall|i: int| 0 <= i < rs.len() implies (RequirementView::Caret(c).matches(
        (#[trigger] rs[i]).version,
    ) <==> !rs[i].version.precedence_lt(c)) by {
        lemma_caret_release_same_major(c, rs[i].version);
    }
}

/// Law: resolution never returns a yanked record unless the
/// requirement is an exact pin of that record's version.
pub proof fn lemma_match_respects_yank(rs: Seq<RecordView>, q: RequirementView, r: RecordView)
    requires
        is_best_match(rs, q, r),
        r.yanked,
    ensures
        q.is_exact_pin(r.version),
{
    assert(is_candidate(q, r));
}

} // verus!
