//! The publish workflow: wire-payload framing, and the coordinator
//! that runs one publish request across archive storage, the index
//! and the relational catalog.
//!
//! The side effects of a publish happen in a fixed order: archive
//! bytes first, then the index record, then the catalog rows. Archive
//! and index are what package-manager clients consume; the catalog
//! only backs the web views and is cheap to rebuild, so it is the
//! last store to become consistent and a late catalog failure never
//! turns an already-visible publish into a reported failure.

use crate::errors::ApiError2;
use crate::index::Index;
use crate::record::{
    copy_opt_string, copy_string, record_from_metadata, CrateMetadata, RecordView,
};
use crate::resolver::{has_compatible_version, would_accept_publish};
use crate::scope::{Scope, Token, PUBLISH_BITS, PUBLISH_NEW_BITS, PUBLISH_UPDATE_BITS};
use crate::storage::{put_model, Storage};
use crate::store::{append_model, has_record, records_of, PackageView};
use crate::version::Version;
use vstd::prelude::*;

verus! {

/// The answer to a successful publish request.
#[derive(Debug, Clone, Copy, PartialEq, Eq, Structural)]
pub struct PublishResponse {}

/// The value of a 4-byte little-endian length prefix.
pub open spec fn le32(s: Seq<u8>) -> int
    recommends
        s.len() == 4,
{
    s[0] + 256 * (s[1] + 256 * (s[2] + 256 * s[3]))
}

/// Whether the byte stream is well framed: a 4-byte little-endian
/// length, that many metadata bytes, a second 4-byte length, and at
/// least that many archive bytes.
pub open spec fn framed_ok(b: Seq<u8>) -> bool {
    &&& b.len() >= 4
    &&& b.len() - 4 >= le32(b.subrange(0, 4))
    &&& b.len() - 4 - le32(b.subrange(0, 4)) >= 4
    &&& {
        let o = 4 + le32(b.subrange(0, 4));
        b.len() - o - 4 >= le32(b.subrange(o, o + 4))
    }
}

/// The metadata bytes of a well-framed stream.
pub open spec fn meta_part(b: Seq<u8>) -> Seq<u8>
    recommends
        framed_ok(b),
{
    b.subrange(4, 4 + le32(b.subrange(0, 4)))
}

/// The archive bytes of a well-framed stream.
pub open spec fn archive_part(b: Seq<u8>) -> Seq<u8>
    recommends
        framed_ok(b),
{
    let o = 4 + le32(b.subrange(0, 4));
    b.subrange(o + 4, o + 4 + le32(b.subrange(o, o + 4)))
}

/// A split publish payload: the still-encoded metadata and the raw
/// archive bytes.
#[derive(Debug)]
pub struct WirePayload {
    pub metadata: Vec<u8>,
    pub archive: Vec<u8>,
}

/// Reads one 4-byte little-endian length at `at`.
fn read_le32(bytes: &[u8], at: usize) -> (r: u32)
    requires
        at + 4 <= bytes@.len(),
    ensures
        r == le32(bytes@.subrange(at as int, at as int + 4)),
{
    let total = bytes.len();
    proof {
        assert(at + 4 <= total);
    }
    let b0 = *vstd::slice::slice_index_get(bytes, at);
    let b1 = *vstd::slice::slice_index_get(bytes, at + 1);
    let b2 = *vstd::slice::slice_index_get(bytes, at + 2);
    let b3 = *vstd::slice::slice_index_get(bytes, at + 3);
    let r = (b0 as u32) + 256 * (b1 as u32) + 65536 * (b2 as u32) + 16777216 * (b3 as u32);
    proof {
        let s = bytes@.subrange(at as int, at as int + 4);
        assert(s[0] == b0 && s[1] == b1 && s[2] == b2 && s[3] == b3);
    }
    r
}

/// Splits a publish payload into its metadata and archive parts.
/// Fails — with no other effect — whenever a length prefix is missing
/// or declares more bytes than the stream still holds; bytes after
/// the archive part are ignored.
pub fn split_payload(bytes: &[u8]) -> (r: Result<WirePayload, ApiError2>)
    ensures
        r is Ok <==> framed_ok(bytes@),
        r matches Ok(p) ==> p.metadata@ == meta_part(bytes@) && p.archive@ == archive_part(
            bytes@,
        ),
        r matches Err(e) ==> e matches ApiError2::MalformedPayload,
{
    let len = bytes.len();
    if len < 4 {
        return Err(ApiError2::MalformedPayload);
    }
    let n1 = read_le32(bytes, 0);
    if (n1 as u64) > (len - 4) as u64 {
        return Err(ApiError2::MalformedPayload);
    }
    let n1s: usize = n1 as usize;
    let o: usize = 4 + n1s;
    if len - o < 4 {
        return Err(ApiError2::MalformedPayload);
    }
    let n2 = read_le32(bytes, o);
    if (n2 as u64) > (len - o - 4) as u64 {
        return Err(ApiError2::MalformedPayload);
    }
    let n2s: usize = n2 as usize;
    let metadata = vstd::slice::slice_to_vec(vstd::slice::slice_subrange(bytes, 4, 4 + n1s));
    let archive = vstd::slice::slice_to_vec(
        vstd::slice::slice_subrange(bytes, o + 4, o + 4 + n2s),
    );
    Ok(WirePayload { metadata, archive })
}

/// What the SHA-256 digest of a byte sequence reads as lowercase hex.
pub uninterp spec fn sha256_hex_of(bytes: Seq<u8>) -> Seq<char>;

/// Relies on sha256::digest: the hex encoding of the SHA-256 digest
/// of the bytes — 64 hex digits, a function of the bytes alone.
#[verifier::external_body]
pub fn checksum_hex(bytes: &Vec<u8>) -> (r: String)
    ensures
        r@ == sha256_hex_of(bytes@),
        r@.len() == 64,
{
    sha256::digest(bytes)
}

/// The mathematical value of one catalog operation.
pub ghost enum CatalogOpView {
    InsertPackage {
        name: Seq<char>,
        description: Option<Seq<char>>,
        documentation: Option<Seq<char>>,
        repository: Option<Seq<char>>,
    },
    InsertOwner { user_id: i64 },
    InsertVersion { name: Seq<char>, version: crate::version::VersionView },
}

/// One row-insert the caller still has to run against the relational
/// catalog, inside one transaction, in order.
#[derive(Debug)]
pub enum CatalogOp {
    /// Create the package row.
    InsertPackage {
        name: String,
        description: Option<String>,
        documentation: Option<String>,
        repository: Option<String>,
    },
    /// Make the publishing user an owner of the new package.
    InsertOwner { user_id: i64 },
    /// Record the published version.
    InsertVersion { name: String, version: Version },
}

impl View for CatalogOp {
    type V = CatalogOpView;

    open spec fn view(&self) -> CatalogOpView {
        match self {
            CatalogOp::InsertPackage { name, description, documentation, repository } => {
                CatalogOpView::InsertPackage {
                    name: name@,
                    description: description.deep_view(),
                    documentation: documentation.deep_view(),
                    repository: repository.deep_view(),
                }
            },
            CatalogOp::InsertOwner { user_id } => CatalogOpView::InsertOwner { user_id: *user_id },
            CatalogOp::InsertVersion { name, version } => {
                CatalogOpView::InsertVersion { name: name@, version: version@ }
            },
        }
    }
}

impl DeepView for CatalogOp {
    type V = CatalogOpView;

    open spec fn deep_view(&self) -> CatalogOpView {
        self.view()
    }
}

/// The records the index holds for `name`; empty when it has none.
pub open spec fn existing_records(s: Seq<PackageView>, name: Seq<char>) -> Seq<RecordView> {
    match records_of(s, name) {
        Some(rs) => rs,
        None => Seq::empty(),
    }
}

/// The immutable record a successful publish commits: the metadata's
/// fields, the archive's digest as checksum, and the yank flag clear.
pub open spec fn published_record(meta: &CrateMetadata, archive: Seq<u8>) -> RecordView {
    RecordView {
        name: meta.name@,
        version: meta.version@,
        dependencies: meta.dependencies.deep_view(),
        checksum: sha256_hex_of(archive),
        features: meta.features.deep_view(),
        yanked: false,
        links: meta.links.deep_view(),
    }
}

/// The catalog rows that one record contributes: its version row.
pub open spec fn version_row_of(rec: RecordView) -> CatalogOpView {
    CatalogOpView::InsertVersion { name: rec.name, version: rec.version }
}

/// Reconciliation seam for operations tooling: the catalog is a
/// rebuildable cache of the index, so one package's version rows can
/// be replayed from its index records at any time.
pub fn reconciliation_ops(index: &Index, name: &String) -> (r: Result<
    Vec<CatalogOp>,
    crate::errors::IndexError,
>)
    ensures
        match records_of(index.packages(), name@) {
            None => r matches Err(e) && e == crate::errors::IndexError::PackageNotFound,
            Some(rs) => r matches Ok(ops) && ops.deep_view() == rs.map(
                |i: int, rec: RecordView| version_row_of(rec),
            ),
        },
{
    let records = match index.all_records(name) {
        Ok(rs) => rs,
        Err(e) => {
            return Err(e);
        },
    };
    let ghost rs = records.deep_view();
    let mut ops: Vec<CatalogOp> = Vec::new();
    let mut i: usize = 0;
    while i < records.len()
        invariant
            rs == records.deep_view(),
            i <= records.len(),
            ops.deep_view() =~= rs.take(i as int).map(|j: int, rec: RecordView| version_row_of(rec)),
        decreases records.len() - i,
    {
        let ghost prev = ops.deep_view();
        ops.push(
            CatalogOp::InsertVersion {
                name: copy_string(&records[i].name),
                version: records[i].version.duplicate(),
            },
        );
        proof {
            assert(ops.deep_view() =~= prev.push(version_row_of(rs[i as int])));
            assert(ops.deep_view() =~= rs.take(i + 1).map(
                |j: int, rec: RecordView| version_row_of(rec),
            ));
        }
        i += 1;
    }
    proof {
        assert(rs.take(rs.len() as int) =~= rs);
    }
    Ok(ops)
}

/// Drives one publish request across the three stores.
#[derive(Debug)]
pub struct PublishCoordinator {
    pub index: Index,
    pub storage: Storage,
}

impl PublishCoordinator {
    /// A coordinator over the given index and archive store.
    pub fn new(index: Index, storage: Storage) -> (c: PublishCoordinator)
        ensures
            c.index == index,
            c.storage == storage,
    {
        PublishCoordinator { index, storage }
    }

    /// Runs one publish request: scope checks, the new-package or
    /// update path, the archive write, the index commit, and finally
    /// the catalog rows, returned for the caller to insert in one
    /// transaction.
    ///
    /// `package_exists` and `owners` are the catalog's answers to the
    /// existence probe and the owner list, obtained by the caller
    /// before the call. Every rejection leaves archive store and
    /// index exactly as they were; only a duplicate-version failure
    /// at the index step leaves the already-written archive bytes
    /// behind, to be reconciled out of band.
    pub fn publish(
        &mut self,
        token: &Token,
        meta: &CrateMetadata,
        archive: &Vec<u8>,
        package_exists: bool,
        owners: &Vec<i64>,
    ) -> (r: Result<Vec<CatalogOp>, ApiError2>)
        ensures
            final(self).index.is_git() == old(self).index.is_git(),
            ({
                let scope = token.scope;
                let s0 = old(self).index.packages();
                let st0 = old(self).storage@;
                let unchanged = final(self).index.packages() == s0 && final(self).storage@ == st0
                    && final(self).index.pending_view() == old(self).index.pending_view();
                if scope.bits & PUBLISH_BITS == 0 {
                    &&& (r matches Err(e) && (e matches ApiError2::MissingTokenScope(sc)
                        && sc.bits == PUBLISH_BITS))
                    &&& unchanged
                } else if package_exists && scope.bits & PUBLISH_UPDATE_BITS != PUBLISH_UPDATE_BITS {
                    &&& (r matches Err(e) && (e matches ApiError2::MissingTokenScope(sc)
                        && sc.bits == PUBLISH_UPDATE_BITS))
                    &&& unchanged
                } else if !package_exists && scope.bits & PUBLISH_NEW_BITS != PUBLISH_NEW_BITS {
                    &&& (r matches Err(e) && (e matches ApiError2::MissingTokenScope(sc)
                        && sc.bits == PUBLISH_NEW_BITS))
                    &&& unchanged
                } else if package_exists && !owners@.contains(token.user_id) {
                    &&& (r matches Err(e) && e matches ApiError2::CrateNotOwned)
                    &&& unchanged
                } else if package_exists && has_compatible_version(
                    existing_records(s0, meta.name@),
                    meta.version@,
                ) {
                    &&& (r matches Err(e) && (e matches ApiError2::VersionTooLow {
                        available,
                        provided,
                    } && provided@ == meta.version@ && ({
                        let rs = existing_records(s0, meta.name@);
                        &&& exists|i: int|
                            0 <= i < rs.len() && (#[trigger] rs[i]).version == available@
                        &&& crate::requirement::RequirementView::Caret(meta.version@).matches(
                            available@,
                        )
                        &&& forall|i: int|
                            0 <= i < rs.len() && crate::requirement::RequirementView::Caret(
                                meta.version@,
                            ).matches((#[trigger] rs[i]).version) ==> !available@.precedence_lt(
                                rs[i].version,
                            )
                    })))
                    &&& unchanged
                } else if has_record(s0, meta.name@, meta.version@) {
                    &&& (r matches Err(e) && (e matches ApiError2::VersionAlreadyExists(v)
                        && v@ == meta.version@))
                    &&& final(self).index.packages() == s0
                    &&& final(self).index.pending_view() == old(self).index.pending_view()
                    &&& final(self).storage@ == put_model(
                        st0,
                        meta.name@,
                        meta.version@,
                        archive@,
                    )
                } else {
                    &&& (r matches Ok(ops) && ops.deep_view() == if package_exists {
                        seq![
                            CatalogOpView::InsertVersion {
                                name: meta.name@,
                                version: meta.version@,
                            },
                        ]
                    } else {
                        seq![
                            CatalogOpView::InsertPackage {
                                name: meta.name@,
                                description: meta.description.deep_view(),
                                documentation: meta.documentation.deep_view(),
                                repository: meta.repository.deep_view(),
                            },
                            CatalogOpView::InsertOwner { user_id: token.user_id },
                            CatalogOpView::InsertVersion {
                                name: meta.name@,
                                version: meta.version@,
                            },
                        ]
                    })
                    &&& final(self).storage@ == put_model(
                        st0,
                        meta.name@,
                        meta.version@,
                        archive@,
                    )
                    &&& final(self).index.packages() == append_model(
                        s0,
                        published_record(meta, archive@),
                    )
                    &&& final(self).index.pending_view() == if old(self).index.is_git() {
                        old(self).index.pending_view().push(
                            crate::index::CommitView {
                                action: crate::index::CommitAction::Publish,
                                name: meta.name@,
                                version: meta.version@,
                            },
                        )
                    } else {
                        old(self).index.pending_view()
                    }
                }
            }),
    {
        let scope = token.scope;
        if !scope.intersects(Scope::publish()) {
            return Err(ApiError2::MissingTokenScope(Scope::publish()));
        }
        if package_exists {
            if !scope.contains(Scope::publish_update()) {
                return Err(ApiError2::MissingTokenScope(Scope::publish_update()));
            }
        } else {
            if !scope.contains(Scope::publish_new()) {
                return Err(ApiError2::MissingTokenScope(Scope::publish_new()));
            }
        }
        if package_exists {
            match crate::api::check_owner_membership(owners, token.user_id) {
                Ok(()) => (),
                Err(e) => {
                    return Err(e);
                },
            }
            let records = match self.index.all_records(&meta.name) {
                Ok(rs) => rs,
                Err(_) => Vec::new(),
            };
            proof {
                assert(records.deep_view() =~= existing_records(
                    self.index.packages(),
                    meta.name@,
                ));
            }
            match would_accept_publish(&records, &meta.version) {
                Ok(()) => (),
                Err(e) => {
                    return Err(e);
                },
            }
        }
        self.storage.store_crate(&meta.name, &meta.version, archive);
        let checksum = checksum_hex(archive);
        let record = record_from_metadata(meta, checksum);
        match self.index.add_record(record) {
            Err(_) => {
                return Err(ApiError2::VersionAlreadyExists(meta.version.duplicate()));
            },
            Ok(()) => (),
        }
        let mut ops: Vec<CatalogOp> = Vec::new();
        if !package_exists {
            ops.push(
                CatalogOp::InsertPackage {
                    name: copy_string(&meta.name),
                    description: copy_opt_string(&meta.description),
                    documentation: copy_opt_string(&meta.documentation),
                    repository: copy_opt_string(&meta.repository),
                },
            );
            ops.push(CatalogOp::InsertOwner { user_id: token.user_id });
        }
        ops.push(
            CatalogOp::InsertVersion {
                name: copy_string(&meta.name),
                version: meta.version.duplicate(),
            },
        );
        proof {
            if package_exists {
                assert(ops.deep_view() =~= seq![
                    CatalogOpView::InsertVersion { name: meta.name@, version: meta.version@ },
                ]);
            } else {
                assert(ops.deep_view() =~= seq![
                    CatalogOpView::InsertPackage {
                        name: meta.name@,
                        description: meta.description.deep_view(),
                        documentation: meta.documentation.deep_view(),
                        repository: meta.repository.deep_view(),
                    },
                    CatalogOpView::InsertOwner { user_id: token.user_id },
                    CatalogOpView::InsertVersion { name: meta.name@, version: meta.version@ },
                ]);
            }
        }
        Ok(ops)
    }

    /// Concludes a publish after the catalog transaction ran. A
    /// catalog failure at this point is only logged by the caller:
    /// the archive is downloadable and the index lists the version,
    /// so the publish reports success either way and the catalog
    /// catches up by reconciliation.
    pub fn conclude(catalog_ok: bool) -> (r: Result<PublishResponse, ApiError2>)
        ensures
            r matches Ok(p) && p == (PublishResponse {  }),
    {
        let _ = catalog_ok;
        Ok(PublishResponse {  })
    }
}

} // verus!
