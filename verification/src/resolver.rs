//! Version resolution over an in-memory list of records: latest-ever
//! lookup, requirement matching with yank exclusion, and the
//! compatible-version admission check for publishes.

use crate::errors::{ApiError2, IndexError};
use crate::record::{CrateVersion, RecordView};
use crate::requirement::{Requirement, RequirementView};
use crate::version::{lemma_precedence_strict_order, Version};
use vstd::prelude::*;

verus! {

/// `r` is one of the records and no record has a higher version,
/// regardless of yank state.
pub open spec fn is_latest(rs: Seq<RecordView>, r: RecordView) -> bool {
    &&& exists|i: int| 0 <= i < rs.len() && rs[i] == r
    &&& forall|i: int|
        0 <= i < rs.len() ==> !r.version.precedence_lt(#[trigger] rs[i].version)
}

/// Whether `r` may be returned for requirement `q`: it satisfies the
/// requirement and is not yanked — unless the requirement is an exact
/// pin of its version, which must keep resolving so that existing
/// lockfiles keep working.
pub open spec fn is_candidate(q: RequirementView, r: RecordView) -> bool {
    q.matches(r.version) && (!r.yanked || q.is_exact_pin(r.version))
}

/// Some record qualifies for requirement `q`.
pub open spec fn has_candidate(rs: Seq<RecordView>, q: RequirementView) -> bool {
    exists|i: int| 0 <= i < rs.len() && is_candidate(q, #[trigger] rs[i])
}

/// `r` qualifies for `q` and no qualifying record has a higher version.
pub open spec fn is_best_match(rs: Seq<RecordView>, q: RequirementView, r: RecordView) -> bool {
    &&& exists|i: int| 0 <= i < rs.len() && rs[i] == r
    &&& is_candidate(q, r)
    &&& forall|i: int|
        0 <= i < rs.len() && is_candidate(q, #[trigger] rs[i]) ==> !r.version.precedence_lt(
            rs[i].version,
        )
}

/// Some record's version satisfies the caret range derived from `v`,
/// i.e. a compatible-or-newer version already exists (yanked or not).
pub open spec fn has_compatible_version(
    rs: Seq<RecordView>,
    v: crate::version::VersionView,
) -> bool {
    exists|i: int|
        0 <= i < rs.len() && RequirementView::Caret(v).matches(#[trigger] rs[i].version)
}

/// Returns the record with the highest version among all records,
/// yanked or not — the latest ever published, as used for display.
/// Fails only on an empty list.
pub fn latest(records: &Vec<CrateVersion>) -> (r: Result<CrateVersion, IndexError>)
    ensures
        records.len() == 0 <==> r matches Err(IndexError::NotFound),
        records.len() > 0 ==> r is Ok,
        r matches Ok(rec) ==> is_latest(records.deep_view(), rec@),
{
    if records.len() == 0 {
        return Err(IndexError::NotFound);
    }
    proof {
        lemma_precedence_strict_order(
            records.deep_view()[0].version,
            records.deep_view()[0].version,
            records.deep_view()[0].version,
        );
    }
    let mut best: usize = 0;
    let mut i: usize = 1;
    while i < records.len()
        invariant
            0 < records.len(),
            best < i <= records.len(),
            forall|j: int|
                0 <= j < i ==> !records.deep_view()[best as int].version.precedence_lt(
                    #[trigger] records.deep_view()[j].version,
                ),
        decreases records.len() - i,
    {
        let ghost dv = records.deep_view();
        if records[best].version.precedes(&records[i].version) {
            proof {
                assert forall|j: int| 0 <= j < i + 1 implies !dv[i as int].version.precedence_lt(
                    #[trigger] dv[j].version,
                ) by {
                    lemma_precedence_strict_order(
                        dv[i as int].version,
                        dv[i as int].version,
                        dv[i as int].version,
                    );
                    lemma_precedence_strict_order(
                        dv[best as int].version,
                        dv[i as int].version,
                        dv[j].version,
                    );
                }
            }
            best = i;
        }
        i += 1;
    }
    Ok(records[best].duplicate())
}

/// Returns the record with the highest version that satisfies `req`
/// and is not excluded by its yank state; fails with `NotFound` when
/// no record qualifies.
pub fn match_req(records: &Vec<CrateVersion>, req: &Requirement) -> (r: Result<
    CrateVersion,
    IndexError,
>)
    ensures
        r matches Ok(rec) ==> is_best_match(records.deep_view(), req@, rec@),
        r matches Err(e) ==> e == IndexError::NotFound && !has_candidate(
            records.deep_view(),
            req@,
        ),
{
    let mut best: usize = 0;
    let mut found: bool = false;
    let mut i: usize = 0;
    while i < records.len()
        invariant
            i <= records.len(),
            found ==> best < i && is_candidate(req@, records.deep_view()[best as int]),
            found ==> forall|j: int|
                0 <= j < i && is_candidate(req@, #[trigger] records.deep_view()[j])
                    ==> !records.deep_view()[best as int].version.precedence_lt(
                    records.deep_view()[j].version,
                ),
            !found ==> forall|j: int|
                0 <= j < i ==> !is_candidate(req@, #[trigger] records.deep_view()[j]),
        decreases records.len() - i,
    {
        let ghost dv = records.deep_view();
        let rec = &records[i];
        let ok = req.matches(&rec.version) && (!rec.yanked || req.is_exact_pin(&rec.version));
        if ok {
            if !found {
                proof {
                    lemma_precedence_strict_order(
                        dv[i as int].version,
                        dv[i as int].version,
                        dv[i as int].version,
                    );
                }
                best = i;
                found = true;
            } else if records[best].version.precedes(&rec.version) {
                proof {
                    assert forall|j: int|
                        0 <= j < i + 1 && is_candidate(req@, #[trigger] dv[j]) implies !dv[
                        i as int].version.precedence_lt(dv[j].version) by {
                        lemma_precedence_strict_order(
                            dv[i as int].version,
                            dv[i as int].version,
                            dv[i as int].version,
                        );
                        lemma_precedence_strict_order(
                            dv[best as int].version,
                            dv[i as int].version,
                            dv[j].version,
                        );
                    }
                }
                best = i;
            }
        }
        i += 1;
    }
    if found {
        Ok(records[best].duplicate())
    } else {
        Err(IndexError::NotFound)
    }
}

/// Admission check for a publish: rejects the candidate version when
/// any existing record — yanked or not — already satisfies the caret
/// range derived from it, i.e. when a compatible-or-newer version
/// exists. The error carries the highest such version.
pub fn would_accept_publish(records: &Vec<CrateVersion>, candidate: &Version) -> (r: Result<
    (),
    ApiError2,
>)
    ensures
        r matches Ok(()) <==> !has_compatible_version(records.deep_view(), candidate@),
        r matches Err(e) ==> ({
            &&& e matches ApiError2::VersionTooLow { available, provided }
            &&& provided@ == candidate@
            &&& exists|i: int|
                0 <= i < records.deep_view().len() && records.deep_view()[i].version == available@
                    && RequirementView::Caret(candidate@).matches(available@)
            &&& forall|i: int|
                0 <= i < records.deep_view().len() && RequirementView::Caret(candidate@).matches(
                    #[trigger] records.deep_view()[i].version,
                ) ==> !available@.precedence_lt(records.deep_view()[i].version)
        }),
{
    let req = Requirement::caret_of(candidate);
    let mut best: usize = 0;
    let mut found: bool = false;
    let mut i: usize = 0;
    while i < records.len()
        invariant
            i <= records.len(),
            req@ == RequirementView::Caret(candidate@),
            found ==> best < i && RequirementView::Caret(candidate@).matches(
                records.deep_view()[best as int].version,
            ),
            found ==> forall|j: int|
                0 <= j < i && RequirementView::Caret(candidate@).matches(
                    #[trigger] records.deep_view()[j].version,
                ) ==> !records.deep_view()[best as int].version.precedence_lt(
                    records.deep_view()[j].version,
                ),
            !found ==> forall|j: int|
                0 <= j < i ==> !RequirementView::Caret(candidate@).matches(
                    #[trigger] records.deep_view()[j].version,
                ),
        decreases records.len() - i,
    {
        let ghost dv = records.deep_view();
        if req.matches(&records[i].version) {
            if !found {
                proof {
                    lemma_precedence_strict_order(
                        dv[i as int].version,
                        dv[i as int].version,
                        dv[i as int].version,
                    );
                }
                best = i;
                found = true;
            } else if records[best].version.precedes(&records[i].version) {
                proof {
                    assert forall|j: int|
                        0 <= j < i + 1 && RequirementView::Caret(candidate@).matches(
                            #[trigger] dv[j].version,
                        ) implies !dv[i as int].version.precedence_lt(dv[j].version) by {
                        lemma_precedence_strict_order(
                            dv[i as int].version,
                            dv[i as int].version,
                            dv[i as int].version,
                        );
                        lemma_precedence_strict_order(
                            dv[best as int].version,
                            dv[i as int].version,
                            dv[j].version,
                        );
                    }
                }
                best = i;
            }
        }
        i += 1;
    }
    if found {
        Err(
            ApiError2::VersionTooLow {
                available: records[best].version.duplicate(),
                provided: candidate.duplicate(),
            },
        )
    } else {
        Ok(())
    }
}

} // verus!
