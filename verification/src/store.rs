//! The record store behind the index: one append-oriented collection
//! of version records per package name.
//!
//! The mathematical model is a sequence of packages, each a name with
//! its record sequence in storage (insertion) order. `records_of`
//! reads a package's records, `append_model` and `rewrite_model` are
//! the two mutations: a publish appends one record, a yank or un-yank
//! flips one flag and leaves every other field and record untouched.

use crate::errors::IndexError;
use crate::record::{CrateVersion, RecordView};
use crate::version::{Version, VersionView};
use vstd::prelude::*;

verus! {

/// The mathematical value of one package's collection.
#[verifier::ext_equal]
pub ghost struct PackageView {
    pub name: Seq<char>,
    pub records: Seq<RecordView>,
}

/// The records stored for `name`, or `None` if no collection exists.
pub open spec fn records_of(s: Seq<PackageView>, name: Seq<char>) -> Option<Seq<RecordView>>
    decreases s.len(),
{
    if s.len() == 0 {
        None
    } else if s[0].name == name {
        Some(s[0].records)
    } else {
        records_of(s.skip(1), name)
    }
}

/// Whether some record in `rs` carries version `v`.
pub open spec fn has_version(rs: Seq<RecordView>, v: VersionView) -> bool {
    exists|i: int| 0 <= i < rs.len() && (#[trigger] rs[i]).version.same_version(v)
}

/// Whether the store already holds a record for `(name, v)`.
pub open spec fn has_record(s: Seq<PackageView>, name: Seq<char>, v: VersionView) -> bool {
    match records_of(s, name) {
        Some(rs) => has_version(rs, v),
        None => false,
    }
}

/// The store after appending record `r` to its package's collection,
/// creating the collection when absent.
pub open spec fn append_model(s: Seq<PackageView>, r: RecordView) -> Seq<PackageView>
    decreases s.len(),
{
    if s.len() == 0 {
        seq![PackageView { name: r.name, records: seq![r] }]
    } else if s[0].name == r.name {
        seq![PackageView { name: s[0].name, records: s[0].records.push(r) }] + s.skip(1)
    } else {
        seq![s[0]] + append_model(s.skip(1), r)
    }
}

/// The record sequence with the yank flag of every record of version
/// `v` set to `b`, all other fields and records untouched.
pub open spec fn yank_in(rs: Seq<RecordView>, v: VersionView, b: bool) -> Seq<RecordView> {
    rs.map(|i: int, r: RecordView| if r.version.same_version(v) { r.with_yanked(b) } else { r })
}

/// The store after setting the yank flag of `(name, v)` to `b`; the
/// store is unchanged when the package or version is absent.
pub open spec fn rewrite_model(
    s: Seq<PackageView>,
    name: Seq<char>,
    v: VersionView,
    b: bool,
) -> Seq<PackageView>
    decreases s.len(),
{
    if s.len() == 0 {
        s
    } else if s[0].name == name {
        seq![PackageView { name: s[0].name, records: yank_in(s[0].records, v, b) }] + s.skip(1)
    } else {
        seq![s[0]] + rewrite_model(s.skip(1), name, v, b)
    }
}

/// Well-formedness of one package's collection: every record carries
/// the package's name, and no two records share a version.
pub open spec fn package_wf(p: PackageView) -> bool {
    &&& forall|k: int| 0 <= k < p.records.len() ==> (#[trigger] p.records[k]).name == p.name
    &&& forall|k: int, l: int|
        0 <= k < l < p.records.len() ==> !(#[trigger] p.records[k]).version.same_version(
            (#[trigger] p.records[l]).version,
        )
}

/// Well-formedness of the store: package names are unique and every
/// collection is well formed — so `(name, version)` identifies at
/// most one record in the whole store.
pub open spec fn store_wf(s: Seq<PackageView>) -> bool {
    &&& forall|i: int, j: int|
        0 <= i < j < s.len() ==> (#[trigger] s[i]).name != (#[trigger] s[j]).name
    &&& forall|i: int| 0 <= i < s.len() ==> package_wf(#[trigger] s[i])
}

/// Whether some entry carries the name.
pub open spec fn has_name(s: Seq<PackageView>, name: Seq<char>) -> bool {
    exists|i: int| 0 <= i < s.len() && (#[trigger] s[i]).name == name
}

/// `records_of` reads the first entry carrying the name.
proof fn lemma_records_of_at(s: Seq<PackageView>, i: int)
    requires
        0 <= i < s.len(),
        forall|j: int| 0 <= j < i ==> (#[trigger] s[j]).name != s[i].name,
    ensures
        records_of(s, s[i].name) == Some(s[i].records),
    decreases i,
{
    if i > 0 {
        assert forall|j: int| 0 <= j < i - 1 implies (#[trigger] s.skip(1)[j]).name != s.skip(
            1,
        )[i - 1].name by {
            assert(s.skip(1)[j] == s[j + 1]);
        }
        assert(s.skip(1)[i - 1] == s[i]);
        lemma_records_of_at(s.skip(1), i - 1);
    }
}

/// `records_of` is `None` exactly when no entry carries the name.
proof fn lemma_records_of_absent(s: Seq<PackageView>, name: Seq<char>)
    requires
        forall|j: int| 0 <= j < s.len() ==> (#[trigger] s[j]).name != name,
    ensures
        records_of(s, name) is None,
    decreases s.len(),
{
    if s.len() > 0 {
        assert forall|j: int| 0 <= j < s.skip(1).len() implies (#[trigger] s.skip(1)[j]).name
            != name by {
            assert(s.skip(1)[j] == s[j + 1]);
        }
        lemma_records_of_absent(s.skip(1), name);
    }
}

/// Appending lands in the first entry of the record's name.
proof fn lemma_append_model_at(s: Seq<PackageView>, r: RecordView, i: int)
    requires
        0 <= i < s.len(),
        s[i].name == r.name,
        forall|j: int| 0 <= j < i ==> (#[trigger] s[j]).name != r.name,
    ensures
        append_model(s, r) =~= s.update(
            i,
            PackageView { name: s[i].name, records: s[i].records.push(r) },
        ),
    decreases i,
{
    if i == 0 {
    } else {
        assert forall|j: int| 0 <= j < i - 1 implies (#[trigger] s.skip(1)[j]).name != r.name by {
            assert(s.skip(1)[j] == s[j + 1]);
        }
        assert(s.skip(1)[i - 1] == s[i]);
        lemma_append_model_at(s.skip(1), r, i - 1);
        assert(append_model(s, r) =~= seq![s[0]] + append_model(s.skip(1), r));
        assert(s.update(i, PackageView { name: s[i].name, records: s[i].records.push(r) }).skip(1)
            =~= s.skip(1).update(
            i - 1,
            PackageView { name: s[i].name, records: s[i].records.push(r) },
        ));
    }
}

/// Appending a record of a fresh name adds its entry at the end.
proof fn lemma_append_model_absent(s: Seq<PackageView>, r: RecordView)
    requires
        forall|j: int| 0 <= j < s.len() ==> (#[trigger] s[j]).name != r.name,
    ensures
        append_model(s, r) =~= s.push(PackageView { name: r.name, records: seq![r] }),
    decreases s.len(),
{
    if s.len() > 0 {
        assert forall|j: int| 0 <= j < s.skip(1).len() implies (#[trigger] s.skip(1)[j]).name
            != r.name by {
            assert(s.skip(1)[j] == s[j + 1]);
        }
        lemma_append_model_absent(s.skip(1), r);
    }
}

/// The rewrite lands in the first entry of the name.
proof fn lemma_rewrite_model_at(s: Seq<PackageView>, name: Seq<char>, v: VersionView, b: bool, i: int)
    requires
        0 <= i < s.len(),
        s[i].name == name,
        forall|j: int| 0 <= j < i ==> (#[trigger] s[j]).name != name,
    ensures
        rewrite_model(s, name, v, b) =~= s.update(
            i,
            PackageView { name: s[i].name, records: yank_in(s[i].records, v, b) },
        ),
    decreases i,
{
    if i == 0 {
    } else {
        assert forall|j: int| 0 <= j < i - 1 implies (#[trigger] s.skip(1)[j]).name != name by {
            assert(s.skip(1)[j] == s[j + 1]);
        }
        assert(s.skip(1)[i - 1] == s[i]);
        lemma_rewrite_model_at(s.skip(1), name, v, b, i - 1);
        assert(s.update(i, PackageView { name: s[i].name, records: yank_in(s[i].records, v, b) })
            .skip(1) =~= s.skip(1).update(
            i - 1,
            PackageView { name: s[i].name, records: yank_in(s[i].records, v, b) },
        ));
    }
}

/// Rewriting an absent name leaves the store unchanged.
proof fn lemma_rewrite_model_absent(s: Seq<PackageView>, name: Seq<char>, v: VersionView, b: bool)
    requires
        forall|j: int| 0 <= j < s.len() ==> (#[trigger] s[j]).name != name,
    ensures
        rewrite_model(s, name, v, b) =~= s,
    decreases s.len(),
{
    if s.len() > 0 {
        assert forall|j: int| 0 <= j < s.skip(1).len() implies (#[trigger] s.skip(1)[j]).name
            != name by {
            assert(s.skip(1)[j] == s[j + 1]);
        }
        lemma_rewrite_model_absent(s.skip(1), name, v, b);
    }
}

/// Appending a record changes only its own package's collection: the
/// new collection is the old one with the record at the end (created
/// fresh when absent), and every other package reads unchanged.
pub proof fn lemma_append_effect(s: Seq<PackageView>, r: RecordView, other: Seq<char>)
    ensures
        records_of(append_model(s, r), r.name) == Some(
            match records_of(s, r.name) {
                Some(rs) => rs.push(r),
                None => seq![r],
            },
        ),
        other != r.name ==> records_of(append_model(s, r), other) == records_of(s, other),
    decreases s.len(),
{
    if s.len() == 0 {
        let t = append_model(s, r);
        assert(t[0].name == r.name);
        if other != r.name {
            assert(t.skip(1) =~= Seq::<PackageView>::empty());
        }
    } else if s[0].name == r.name {
        let t = append_model(s, r);
        assert(t.skip(1) =~= s.skip(1));
    } else {
        lemma_append_effect(s.skip(1), r, other);
        let t = append_model(s, r);
        assert(t.skip(1) =~= append_model(s.skip(1), r));
    }
}

/// A rewrite changes only its own package's collection — to the
/// pointwise yank image — and every other package reads unchanged.
pub proof fn lemma_rewrite_effect(
    s: Seq<PackageView>,
    name: Seq<char>,
    v: VersionView,
    b: bool,
    other: Seq<char>,
)
    ensures
        records_of(rewrite_model(s, name, v, b), name) == match records_of(s, name) {
            Some(rs) => Some(yank_in(rs, v, b)),
            None => None::<Seq<RecordView>>,
        },
        other != name ==> records_of(rewrite_model(s, name, v, b), other) == records_of(s, other),
    decreases s.len(),
{
    if s.len() == 0 {
    } else if s[0].name == name {
        let t = rewrite_model(s, name, v, b);
        assert(t.skip(1) =~= s.skip(1));
    } else {
        lemma_rewrite_effect(s.skip(1), name, v, b, other);
        let t = rewrite_model(s, name, v, b);
        assert(t.skip(1) =~= rewrite_model(s.skip(1), name, v, b));
    }
}

/// One package's collection in the store.
#[derive(Debug)]
pub struct PackageEntry {
    pub name: String,
    pub records: Vec<CrateVersion>,
}

impl View for PackageEntry {
    type V = PackageView;

    open spec fn view(&self) -> PackageView {
        PackageView { name: self.name@, records: self.records.deep_view() }
    }
}

impl DeepView for PackageEntry {
    type V = PackageView;

    open spec fn deep_view(&self) -> PackageView {
        self.view()
    }
}

/// The working copy of the index: every package's record collection,
/// held in memory. Durable layout and history are the concern of the
/// backend around it.
#[derive(Debug)]
pub struct Tree {
    pub packages: Vec<PackageEntry>,
}

impl View for Tree {
    type V = Seq<PackageView>;

    open spec fn view(&self) -> Seq<PackageView> {
        self.packages.deep_view()
    }
}

impl Tree {
    /// An empty store.
    pub fn new() -> (t: Tree)
        ensures
            t@ =~= Seq::<PackageView>::empty(),
    {
        Tree { packages: Vec::new() }
    }

    /// The position of the package's entry, if any.
    fn find_package(&self, name: &String) -> (r: Option<usize>)
        ensures
            match r {
                Some(i) => {
                    &&& i < self.packages.len()
                    &&& self@[i as int].name == name@
                    &&& forall|j: int| 0 <= j < i ==> (#[trigger] self@[j]).name != name@
                },
                None => forall|j: int|
                    0 <= j < self@.len() ==> (#[trigger] self@[j]).name != name@,
            },
    {
        let mut i: usize = 0;
        while i < self.packages.len()
            invariant
                i <= self.packages.len(),
                forall|j: int| 0 <= j < i ==> (#[trigger] self@[j]).name != name@,
            decreases self.packages.len() - i,
        {
            if self.packages[i].name == *name {
                return Some(i);
            }
            i += 1;
        }
        None
    }

    /// Reads every record stored for `name`, in storage order; fails
    /// with `PackageNotFound` when no collection exists for the name.
    pub fn read_all(&self, name: &String) -> (r: Result<Vec<CrateVersion>, IndexError>)
        ensures
            match records_of(self@, name@) {
                Some(rs) => r matches Ok(out) && out.deep_view() == rs,
                None => r matches Err(e) && e == IndexError::PackageNotFound,
            },
    {
        match self.find_package(name) {
            None => {
                proof {
                    lemma_records_of_absent(self@, name@);
                }
                Err(IndexError::PackageNotFound)
            },
            Some(i) => {
                proof {
                    lemma_records_of_at(self@, i as int);
                }
                let src = &self.packages[i].records;
                let mut out: Vec<CrateVersion> = Vec::new();
                let mut k: usize = 0;
                while k < src.len()
                    invariant
                        k <= src.len(),
                        out.deep_view() =~= src.deep_view().take(k as int),
                    decreases src.len() - k,
                {
                    let ghost prev = out.deep_view();
                    out.push(src[k].duplicate());
                    proof {
                        assert(out.deep_view() =~= prev.push(src@[k as int]@));
                        assert(out.deep_view() =~= src.deep_view().take(k + 1));
                    }
                    k += 1;
                }
                proof {
                    assert(out.deep_view() =~= src.deep_view());
                    assert(self@[i as int].records == src.deep_view());
                }
                Ok(out)
            },
        }
    }

    /// Appends one record to its package's collection, creating the
    /// collection when absent; fails with `DuplicateVersion` — and
    /// changes nothing — when the `(name, version)` pair already
    /// exists.
    pub fn add_record(&mut self, record: CrateVersion) -> (r: Result<(), IndexError>)
        ensures
            if has_record(old(self)@, record@.name, record@.version) {
                r matches Err(e) && e == IndexError::DuplicateVersion && final(self)@ == old(
                    self,
                )@
            } else {
                r matches Ok(()) && final(self)@ == append_model(old(self)@, record@)
            },
    {
        let found = self.find_package(&record.name);
        match found {
            None => {
                proof {
                    lemma_records_of_absent(self@, record.name@);
                    lemma_append_model_absent(self@, record@);
                }
                let ghost prior = self@;
                let entry = PackageEntry { name: copy_name(&record.name), records: single(record) };
                let ghost ev = entry@;
                self.packages.push(entry);
                proof {
                    assert(self@ =~= prior.push(ev));
                    assert(ev.records =~= seq![prior.push(ev)[prior.len() as int].records[0]]);
                    assert(self@ =~= append_model(prior, self@[prior.len() as int].records[0]));
                }
                Ok(())
            },
            Some(i) => {
                proof {
                    lemma_records_of_at(self@, i as int);
                }
                // duplicate check within the package's collection
                let entry_ref = &self.packages[i];
                let mut k: usize = 0;
                let mut dup: bool = false;
                while k < entry_ref.records.len()
                    invariant
                        k <= entry_ref.records.len(),
                        dup ==> has_version(entry_ref@.records, record@.version),
                        !dup ==> forall|j: int|
                            0 <= j < k ==> !(#[trigger] entry_ref@.records[j]).version.same_version(
                                record@.version,
                            ),
                    decreases entry_ref.records.len() - k,
                {
                    if entry_ref.records[k].version.same_version(&record.version) {
                        proof {
                            assert(entry_ref@.records[k as int] == entry_ref.records@[k as int]@);
                        }
                        dup = true;
                    }
                    k += 1;
                }
                if dup {
                    return Err(IndexError::DuplicateVersion);
                }
                proof {
                    assert(!has_version(self@[i as int].records, record@.version));
                    lemma_append_model_at(self@, record@, i as int);
                }
                let ghost prior = self@;
                let ghost rv = record@;
                let mut entry = self.packages.remove(i);
                entry.records.push(record);
                proof {
                    assert(entry@.records =~= prior[i as int].records.push(rv));
                    assert(entry@ =~= (PackageView {
                        name: prior[i as int].name,
                        records: prior[i as int].records.push(rv),
                    }));
                }
                let ghost ev = entry@;
                self.packages.insert(i, entry);
                proof {
                    assert(self.packages@.len() == prior.len());
                    assert forall|j: int| 0 <= j < prior.len() implies self@[j] == prior.update(
                        i as int,
                        ev,
                    )[j] by {}
                    assert(self@ =~= prior.update(i as int, ev));
                }
                Ok(())
            },
        }
    }

    /// Sets the yank flag of `(name, version)` to `yanked`, leaving
    /// every other field and every other record byte-for-byte as it
    /// was; fails — changing nothing — when the package or the version
    /// is absent.
    pub fn alter_record(&mut self, name: &String, version: &Version, yanked: bool) -> (r: Result<
        (),
        IndexError,
    >)
        ensures
            match records_of(old(self)@, name@) {
                None => r matches Err(e) && e == IndexError::PackageNotFound && final(self)@ == old(
                    self,
                )@,
                Some(rs) => {
                    if has_version(rs, version@) {
                        r matches Ok(()) && final(self)@ == rewrite_model(
                            old(self)@,
                            name@,
                            version@,
                            yanked,
                        )
                    } else {
                        r matches Err(e) && e == IndexError::VersionNotFound && final(self)@
                            == old(self)@
                    }
                },
            },
    {
        let found = self.find_package(name);
        match found {
            None => {
                proof {
                    lemma_records_of_absent(self@, name@);
                }
                Err(IndexError::PackageNotFound)
            },
            Some(i) => {
                proof {
                    lemma_records_of_at(self@, i as int);
                    lemma_rewrite_model_at(self@, name@, version@, yanked, i as int);
                }
                let ghost prior = self@;
                let ghost rs = self@[i as int].records;
                let mut entry = self.packages.remove(i);
                let mut out: Vec<CrateVersion> = Vec::new();
                let mut rest = entry.records;
                let mut any: bool = false;
                let mut k: usize = 0;
                let ghost n = rs.len();
                while rest.len() > 0
                    invariant
                        n == rs.len(),
                        k + rest.len() == n,
                        k == out.len(),
                        out.deep_view() =~= yank_in(rs, version@, yanked).take(k as int),
                        rest.deep_view() =~= rs.skip(k as int),
                        any == has_version(rs.take(k as int), version@),
                    decreases rest.len(),
                {
                    let ghost rold = rest.deep_view();
                    let ghost rvold = rest@;
                    let mut rec = rest.remove(0);
                    proof {
                        assert(k < n);
                        assert(rold.len() == n - k);
                        assert(rold[0] == rvold[0]@);
                        assert(rec@ == rold[0]);
                        assert(rold == rs.skip(k as int));
                        assert(rs.skip(k as int)[0] == rs[k as int]);
                        assert(rec@ == rs[k as int]);
                        assert forall|j: int| 0 <= j < rest@.len() implies rest.deep_view()[j]
                            == rs.skip(k as int + 1)[j] by {
                            assert(rest@[j] == rvold[j + 1]);
                            assert(rest.deep_view()[j] == rold[j + 1]);
                            assert(rold[j + 1] == rs[k + j + 1]);
                            assert(rs.skip(k as int + 1)[j] == rs[k + 1 + j]);
                        }
                        assert(rest.deep_view() =~= rs.skip(k as int + 1));
                    }
                    let matches_v = rec.version.same_version(version);
                    if matches_v {
                        rec.yanked = yanked;
                        any = true;
                        proof {
                            assert(rec@ == rs[k as int].with_yanked(yanked));
                            assert(has_version(rs.take(k as int + 1), version@)) by {
                                assert(rs.take(k as int + 1)[k as int] == rs[k as int]);
                            }
                        }
                    } else {
                        proof {
                            if has_version(rs.take(k as int + 1), version@) {
                                let w = choose|j: int|
                                    0 <= j < rs.take(k as int + 1).len() && (#[trigger] rs.take(
                                        k as int + 1,
                                    )[j]).version.same_version(version@);
                                if w < k {
                                    assert(rs.take(k as int)[w] == rs.take(k as int + 1)[w]);
                                    assert(has_version(rs.take(k as int), version@));
                                }
                            }
                            if has_version(rs.take(k as int), version@) {
                                let w = choose|j: int|
                                    0 <= j < rs.take(k as int).len() && (#[trigger] rs.take(
                                        k as int,
                                    )[j]).version.same_version(version@);
                                assert(rs.take(k as int + 1)[w] == rs.take(k as int)[w]);
                            }
                        }
                    }
                    out.push(rec);
                    proof {
                        assert(yank_in(rs, version@, yanked)[k as int] == if rs[
                            k as int].version.same_version(version@) {
                            rs[k as int].with_yanked(yanked)
                        } else {
                            rs[k as int]
                        });
                        assert(out.deep_view() =~= yank_in(rs, version@, yanked).take(k as int + 1));
                    }
                    k = out.len();
                }
                proof {
                    assert(rs.take(n as int) =~= rs);
                    assert(out.deep_view() =~= yank_in(rs, version@, yanked));
                }
                if !any {
                    // nothing matched: put the collection back untouched
                    proof {
                        assert forall|j: int| 0 <= j < rs.len() implies yank_in(
                            rs,
                            version@,
                            yanked,
                        )[j] == rs[j] by {}
                        assert(out.deep_view() =~= rs);
                    }
                    entry.records = out;
                    proof {
                        assert(entry@ =~= prior[i as int]);
                    }
                    let ghost ev = entry@;
                    self.packages.insert(i, entry);
                    proof {
                        assert forall|j: int| 0 <= j < prior.len() implies self@[j] == prior[j] by {}
                        assert(self@ =~= prior);
                    }
                    return Err(IndexError::VersionNotFound);
                }
                entry.records = out;
                proof {
                    assert(entry@ =~= (PackageView {
                        name: prior[i as int].name,
                        records: yank_in(rs, version@, yanked),
                    }));
                }
                let ghost ev = entry@;
                self.packages.insert(i, entry);
                proof {
                    assert forall|j: int| 0 <= j < prior.len() implies self@[j] == prior.update(
                        i as int,
                        ev,
                    )[j] by {}
                    assert(self@ =~= prior.update(i as int, ev));
                }
                Ok(())
            },
        }
    }
}

/// A one-element record vector.
fn single(record: CrateVersion) -> (r: Vec<CrateVersion>)
    ensures
        r.deep_view() =~= seq![record@],
{
    let mut r: Vec<CrateVersion> = Vec::new();
    r.push(record);
    r
}

/// A copy of a package name.
fn copy_name(name: &String) -> (r: String)
    ensures
        r@ == name@,
{
    name.as_str().to_owned()
}

} // verus!
