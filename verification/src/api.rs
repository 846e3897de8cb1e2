//! The mutating API surface around the index: yank, un-yank and the
//! owner-management rules, with the response shapes the endpoints
//! serialize.

use crate::errors::{ApiError2, IndexError};
use crate::index::Index;
use crate::scope::{Scope, Token, CHANGE_OWNERS_BITS, YANK_BITS};
use crate::store::{has_version, records_of, rewrite_model};
use crate::version::Version;
use vstd::prelude::*;

verus! {

/// The answer to a yank request.
#[derive(Debug, Clone, Copy, PartialEq, Eq, Structural)]
pub struct YankReponse {
    pub ok: bool,
}

/// The answer to an un-yank request.
#[derive(Debug, Clone, Copy, PartialEq, Eq, Structural)]
pub struct UnyankResponse {
    pub ok: bool,
}

/// The owners of a crate, as listed to a client.
#[derive(Debug)]
pub struct OwnersListResponse {
    pub users: Vec<OwnerEntry>,
}

/// One owner in the listing.
#[derive(Debug)]
pub struct OwnerEntry {
    pub id: u32,
    pub email: String,
    pub name: String,
}

/// The request body that adds owners, by email.
#[derive(Debug)]
pub struct OwnerAddBody {
    pub users: Vec<String>,
}

/// The answer to an owner addition.
#[derive(Debug)]
pub struct OwnerAddResponse {
    pub ok: bool,
    pub msg: String,
}

/// The request body that removes owners, by email.
#[derive(Debug)]
pub struct OwnerDeleteBody {
    pub users: Vec<String>,
}

/// The answer to an owner removal.
#[derive(Debug)]
pub struct OwnerDeleteResponse {
    pub ok: bool,
    pub msg: String,
}

/// A serialized error answer.
#[derive(Debug)]
pub struct ErrorResponse {
    pub error: String,
}

/// Checks that the token may yank and un-yank.
pub fn authorize_yank(token: &Token) -> (r: Result<(), ApiError2>)
    ensures
        r is Ok <==> token.scope.bits & YANK_BITS == YANK_BITS,
        r matches Err(e) ==> e matches ApiError2::MissingTokenScope(sc) && sc.bits == YANK_BITS,
{
    if token.scope.contains(Scope::yank()) {
        Ok(())
    } else {
        Err(ApiError2::MissingTokenScope(Scope::yank()))
    }
}

/// Checks that the token may change owners.
pub fn authorize_owner_change(token: &Token) -> (r: Result<(), ApiError2>)
    ensures
        r is Ok <==> token.scope.bits & CHANGE_OWNERS_BITS == CHANGE_OWNERS_BITS,
        r matches Err(e) ==> e matches ApiError2::MissingTokenScope(sc) && sc.bits
            == CHANGE_OWNERS_BITS,
{
    if token.scope.contains(Scope::change_owners()) {
        Ok(())
    } else {
        Err(ApiError2::MissingTokenScope(Scope::change_owners()))
    }
}

/// Yanks one version: requires the yank scope, then flags the record
/// in the index. Yanking an already-yanked version succeeds and
/// changes nothing.
pub fn yank(index: &mut Index, token: &Token, name: &String, version: &Version) -> (r: Result<
    YankReponse,
    ApiError2,
>)
    ensures
        token.scope.bits & YANK_BITS != YANK_BITS ==> (r matches Err(e) && (e
            matches ApiError2::MissingTokenScope(sc) && sc.bits == YANK_BITS) && final(index).packages() == old(index).packages()),
        token.scope.bits & YANK_BITS == YANK_BITS ==> match records_of(
            old(index).packages(),
            name@,
        ) {
            None => (r matches Err(e) && (e matches ApiError2::Index(ie) && ie
                == IndexError::PackageNotFound)) && final(index).packages() == old(index).packages(),
            Some(rs) => {
                if has_version(rs, version@) {
                    (r matches Ok(y) && y.ok) && final(index).packages() == rewrite_model(
                        old(index).packages(),
                        name@,
                        version@,
                        true,
                    )
                } else {
                    (r matches Err(e) && (e matches ApiError2::Index(ie) && ie
                        == IndexError::VersionNotFound)) && final(index).packages() == old(index).packages()
                }
            },
        },
{
    match authorize_yank(token) {
        Ok(()) => (),
        Err(e) => {
            return Err(e);
        },
    }
    match index.yank_record(name, version) {
        Ok(()) => Ok(YankReponse { ok: true }),
        Err(e) => Err(ApiError2::Index(e)),
    }
}

/// Un-yanks one version: requires the yank scope, then clears the
/// flag in the index. Un-yanking a version that is not yanked
/// succeeds and changes nothing.
pub fn unyank(index: &mut Index, token: &Token, name: &String, version: &Version) -> (r: Result<
    UnyankResponse,
    ApiError2,
>)
    ensures
        token.scope.bits & YANK_BITS != YANK_BITS ==> (r matches Err(e) && (e
            matches ApiError2::MissingTokenScope(sc) && sc.bits == YANK_BITS) && final(index).packages() == old(index).packages()),
        token.scope.bits & YANK_BITS == YANK_BITS ==> match records_of(
            old(index).packages(),
            name@,
        ) {
            None => (r matches Err(e) && (e matches ApiError2::Index(ie) && ie
                == IndexError::PackageNotFound)) && final(index).packages() == old(index).packages(),
            Some(rs) => {
                if has_version(rs, version@) {
                    (r matches Ok(y) && y.ok) && final(index).packages() == rewrite_model(
                        old(index).packages(),
                        name@,
                        version@,
                        false,
                    )
                } else {
                    (r matches Err(e) && (e matches ApiError2::Index(ie) && ie
                        == IndexError::VersionNotFound)) && final(index).packages() == old(index).packages()
                }
            },
        },
{
    match authorize_yank(token) {
        Ok(()) => (),
        Err(e) => {
            return Err(e);
        },
    }
    match index.unyank_record(name, version) {
        Ok(()) => Ok(UnyankResponse { ok: true }),
        Err(e) => Err(ApiError2::Index(e)),
    }
}

/// Resolves a requirement text against one package: parses the text,
/// then returns the highest qualifying version record.
pub fn match_version(index: &Index, name: &String, requirement: &[u8]) -> (r: Result<
    crate::record::CrateVersion,
    ApiError2,
>)
    ensures
        match crate::parse::spec_parse_requirement(requirement@) {
            None => r matches Err(e) && e matches ApiError2::VersionSyntax,
            Some(q) => match records_of(index.packages(), name@) {
                Some(rs) => {
                    &&& r matches Ok(rec) ==> crate::resolver::is_best_match(rs, q, rec@)
                    &&& r matches Err(e) ==> (e matches ApiError2::Index(ie) && ie
                        == IndexError::NotFound) && !crate::resolver::has_candidate(rs, q)
                },
                None => r matches Err(e) && (e matches ApiError2::Index(ie) && ie
                    == IndexError::PackageNotFound),
            },
        },
{
    let req = match crate::parse::parse_requirement(requirement) {
        Some(q) => q,
        None => {
            return Err(ApiError2::VersionSyntax);
        },
    };
    match index.match_record(name, &req) {
        Ok(rec) => Ok(rec),
        Err(e) => Err(ApiError2::Index(e)),
    }
}

/// Yanks one version given as text: parses the version, then yanks
/// exactly as [`yank`] does.
pub fn yank_text(index: &mut Index, token: &Token, name: &String, version_text: &[u8]) -> (r:
    Result<YankReponse, ApiError2>)
    ensures
        match crate::parse::spec_parse_version(version_text@) {
            None => (r matches Err(e) && e matches ApiError2::VersionSyntax) && final(index).packages() == old(index).packages(),
            Some(v) => {
                &&& token.scope.bits & YANK_BITS != YANK_BITS ==> (r matches Err(e) && (e
                    matches ApiError2::MissingTokenScope(sc) && sc.bits == YANK_BITS) && final(index).packages() == old(index).packages())
                &&& token.scope.bits & YANK_BITS == YANK_BITS ==> match records_of(
                    old(index).packages(),
                    name@,
                ) {
                    None => (r matches Err(e) && (e matches ApiError2::Index(ie) && ie
                        == IndexError::PackageNotFound)) && final(index).packages() == old(
                        index,
                    ).packages(),
                    Some(rs) => {
                        if has_version(rs, v) {
                            (r matches Ok(y) && y.ok) && final(index).packages() == rewrite_model(
                                old(index).packages(),
                                name@,
                                v,
                                true,
                            )
                        } else {
                            (r matches Err(e) && (e matches ApiError2::Index(ie) && ie
                                == IndexError::VersionNotFound)) && final(index).packages() == old(
                                index,
                            ).packages()
                        }
                    },
                }
            },
        },
{
    let version = match crate::parse::parse_version(version_text) {
        Some(v) => v,
        None => {
            return Err(ApiError2::VersionSyntax);
        },
    };
    yank(index, token, name, &version)
}

/// Un-yanks one version given as text: parses the version, then
/// un-yanks exactly as [`unyank`] does.
pub fn unyank_text(index: &mut Index, token: &Token, name: &String, version_text: &[u8]) -> (r:
    Result<UnyankResponse, ApiError2>)
    ensures
        match crate::parse::spec_parse_version(version_text@) {
            None => (r matches Err(e) && e matches ApiError2::VersionSyntax) && final(index).packages() == old(index).packages(),
            Some(v) => {
                &&& token.scope.bits & YANK_BITS != YANK_BITS ==> (r matches Err(e) && (e
                    matches ApiError2::MissingTokenScope(sc) && sc.bits == YANK_BITS) && final(index).packages() == old(index).packages())
                &&& token.scope.bits & YANK_BITS == YANK_BITS ==> match records_of(
                    old(index).packages(),
                    name@,
                ) {
                    None => (r matches Err(e) && (e matches ApiError2::Index(ie) && ie
                        == IndexError::PackageNotFound)) && final(index).packages() == old(
                        index,
                    ).packages(),
                    Some(rs) => {
                        if has_version(rs, v) {
                            (r matches Ok(y) && y.ok) && final(index).packages() == rewrite_model(
                                old(index).packages(),
                                name@,
                                v,
                                false,
                            )
                        } else {
                            (r matches Err(e) && (e matches ApiError2::Index(ie) && ie
                                == IndexError::VersionNotFound)) && final(index).packages() == old(
                                index,
                            ).packages()
                        }
                    },
                }
            },
        },
{
    let version = match crate::parse::parse_version(version_text) {
        Some(v) => v,
        None => {
            return Err(ApiError2::VersionSyntax);
        },
    };
    unyank(index, token, name, &version)
}

/// Ownership gate for mutations on an existing package: the caller
/// must be among the package's current owners.
pub fn check_owner_membership(owners: &Vec<i64>, user_id: i64) -> (r: Result<(), ApiError2>)
    ensures
        r is Ok <==> owners@.contains(user_id),
        r matches Err(e) ==> e matches ApiError2::CrateNotOwned,
{
    let mut i: usize = 0;
    while i < owners.len()
        invariant
            i <= owners.len(),
            forall|j: int| 0 <= j < i ==> owners@[j] != user_id,
        decreases owners.len() - i,
    {
        if owners[i] == user_id {
            return Ok(());
        }
        i += 1;
    }
    Err(ApiError2::CrateNotOwned)
}

/// The candidate owner ids that are not yet owners, in request order.
pub open spec fn additions(existing: Seq<i64>, candidates: Seq<i64>) -> Seq<i64>
    decreases candidates.len(),
{
    if candidates.len() == 0 {
        Seq::empty()
    } else {
        additions(existing, candidates.drop_last()) + (if existing.contains(candidates.last()) {
            Seq::<i64>::empty()
        } else {
            seq![candidates.last()]
        })
    }
}

/// Filters the requested new owners down to those not already owners,
/// keeping the request order.
pub fn plan_owner_additions(existing: &Vec<i64>, candidates: &Vec<i64>) -> (r: Vec<i64>)
    ensures
        r@ == additions(existing@, candidates@),
{
    let mut r: Vec<i64> = Vec::new();
    let mut i: usize = 0;
    while i < candidates.len()
        invariant
            i <= candidates.len(),
            r@ =~= additions(existing@, candidates@.take(i as int)),
        decreases candidates.len() - i,
    {
        let mut seen: bool = false;
        let mut j: usize = 0;
        while j < existing.len()
            invariant
                j <= existing.len(),
                i < candidates.len(),
                seen ==> existing@.contains(candidates@[i as int]),
                !seen ==> forall|k: int| 0 <= k < j ==> existing@[k] != candidates@[i as int],
            decreases existing.len() - j,
        {
            if existing[j] == candidates[i] {
                seen = true;
            }
            j += 1;
        }
        proof {
            assert(candidates@.take(i + 1).drop_last() =~= candidates@.take(i as int));
            assert(candidates@.take(i + 1).last() == candidates@[i as int]);
        }
        if !seen {
            proof {
                assert(!existing@.contains(candidates@[i as int]));
            }
            r.push(candidates[i]);
        }
        proof {
            assert(r@ =~= additions(existing@, candidates@.take(i + 1)));
        }
        i += 1;
    }
    proof {
        assert(candidates@.take(candidates@.len() as int) =~= candidates@);
    }
    r
}

/// Admission rule for owner removal: every crate must keep at least
/// one owner, so a removal from a crate with a single owner is
/// rejected before anything is touched.
pub fn check_owner_removal(current_owner_count: usize) -> (r: Result<(), ApiError2>)
    ensures
        r is Ok <==> current_owner_count != 1,
        r matches Err(e) ==> e matches ApiError2::CannotRemoveOnlyOwner,
{
    if current_owner_count == 1 {
        Err(ApiError2::CannotRemoveOnlyOwner)
    } else {
        Ok(())
    }
}

} // verus!
