//! Archive storage: the bytes of every published crate, addressed by
//! `(name, version)` — not by content, so a repeated put for the same
//! key overwrites. The publish workflow's admission checks are what
//! keep an accepted version's bytes from ever being written twice.

use crate::record::copy_string;
use crate::version::{
    ascii_str, ascii_to_string, copy_bytes, version_bytes, Version, VersionView,
};
use vstd::prelude::*;

verus! {

/// The mathematical value of one stored archive.
pub ghost struct StoredView {
    pub name: Seq<char>,
    pub version: VersionView,
    pub bytes: Seq<u8>,
}

/// One stored crate archive.
#[derive(Debug)]
pub struct StoredCrate {
    pub name: String,
    pub version: Version,
    pub bytes: Vec<u8>,
}

impl View for StoredCrate {
    type V = StoredView;

    open spec fn view(&self) -> StoredView {
        StoredView { name: self.name@, version: self.version@, bytes: self.bytes@ }
    }
}

impl DeepView for StoredCrate {
    type V = StoredView;

    open spec fn deep_view(&self) -> StoredView {
        self.view()
    }
}

/// One listing entry: a stored crate's name and its version's text.
#[derive(Debug)]
pub struct Crate {
    pub name: String,
    pub version: String,
}

/// Whether entry `e` stores the archive of `(name, v)`.
pub open spec fn stores_key(e: StoredView, name: Seq<char>, v: VersionView) -> bool {
    e.name == name && e.version.same_version(v)
}

/// The stored bytes of `(name, v)`, if present.
pub open spec fn stored_bytes(s: Seq<StoredView>, name: Seq<char>, v: VersionView) -> Option<
    Seq<u8>,
>
    decreases s.len(),
{
    if s.len() == 0 {
        None
    } else if stores_key(s[0], name, v) {
        Some(s[0].bytes)
    } else {
        stored_bytes(s.skip(1), name, v)
    }
}

/// The store after writing `bytes` at `(name, v)`: the first entry of
/// that key is overwritten, or a new entry is added at the end.
pub open spec fn put_model(
    s: Seq<StoredView>,
    name: Seq<char>,
    v: VersionView,
    bytes: Seq<u8>,
) -> Seq<StoredView>
    decreases s.len(),
{
    if s.len() == 0 {
        seq![StoredView { name, version: v, bytes }]
    } else if stores_key(s[0], name, v) {
        seq![StoredView { name: s[0].name, version: s[0].version, bytes }] + s.skip(1)
    } else {
        seq![s[0]] + put_model(s.skip(1), name, v, bytes)
    }
}

/// A put stores its bytes under its own key.
pub proof fn lemma_put_same(s: Seq<StoredView>, name: Seq<char>, v: VersionView, bytes: Seq<u8>)
    ensures
        stored_bytes(put_model(s, name, v, bytes), name, v) == Some(bytes),
    decreases s.len(),
{
    if s.len() == 0 {
        let t = put_model(s, name, v, bytes);
        assert(t.skip(1) =~= Seq::<StoredView>::empty());
    } else if stores_key(s[0], name, v) {
        let t = put_model(s, name, v, bytes);
        assert(t.skip(1) =~= s.skip(1));
    } else {
        lemma_put_same(s.skip(1), name, v, bytes);
        let t = put_model(s, name, v, bytes);
        assert(t.skip(1) =~= put_model(s.skip(1), name, v, bytes));
    }
}

/// A put leaves every other key's bytes unchanged.
pub proof fn lemma_put_other(
    s: Seq<StoredView>,
    name: Seq<char>,
    v: VersionView,
    bytes: Seq<u8>,
    other_name: Seq<char>,
    other_v: VersionView,
)
    requires
        !(other_name == name && other_v.same_version(v)),
    ensures
        stored_bytes(put_model(s, name, v, bytes), other_name, other_v) == stored_bytes(
            s,
            other_name,
            other_v,
        ),
    decreases s.len(),
{
    let t = put_model(s, name, v, bytes);
    if s.len() == 0 {
        assert(t.skip(1) =~= Seq::<StoredView>::empty());
        if other_name == name {
            assert(!other_v.same_version(v));
            assert(!v.same_version(other_v));
        }
        assert(!stores_key(t[0], other_name, other_v));
        assert(stored_bytes(t.skip(1), other_name, other_v) is None);
        assert(stored_bytes(t, other_name, other_v) is None);
    } else if stores_key(s[0], name, v) {
        assert(t.skip(1) =~= s.skip(1));
        if stores_key(s[0], other_name, other_v) {
            assert(other_name == name);
            assert(s[0].version.same_version(v) && s[0].version.same_version(other_v));
            assert(other_v.same_version(v));
            assert(false);
        }
        assert(!stores_key(t[0], other_name, other_v));
        assert(stored_bytes(t, other_name, other_v) == stored_bytes(
            t.skip(1),
            other_name,
            other_v,
        ));
        assert(stored_bytes(s, other_name, other_v) == stored_bytes(
            s.skip(1),
            other_name,
            other_v,
        ));
    } else {
        lemma_put_other(s.skip(1), name, v, bytes, other_name, other_v);
        assert(t.skip(1) =~= put_model(s.skip(1), name, v, bytes));
        assert(t[0] == s[0]);
        if stores_key(s[0], other_name, other_v) {
            assert(stored_bytes(t, other_name, other_v) == Some(s[0].bytes));
            assert(stored_bytes(s, other_name, other_v) == Some(s[0].bytes));
        } else {
            assert(stored_bytes(t, other_name, other_v) == stored_bytes(
                t.skip(1),
                other_name,
                other_v,
            ));
            assert(stored_bytes(s, other_name, other_v) == stored_bytes(
                s.skip(1),
                other_name,
                other_v,
            ));
        }
    }
}

/// The archive store. The real durable layout lives under `path`,
/// outside the core; the core tracks what is stored under which key.
#[derive(Debug)]
pub struct Storage {
    pub path: String,
    pub crates: Vec<StoredCrate>,
}

impl View for Storage {
    type V = Seq<StoredView>;

    open spec fn view(&self) -> Seq<StoredView> {
        self.crates.deep_view()
    }
}

impl Storage {
    /// An empty store rooted at `path`.
    pub fn new(path: String) -> (s: Storage)
        ensures
            s@ =~= Seq::<StoredView>::empty(),
            s.path@ == path@,
    {
        let path_copy = copy_string(&path);
        Storage { path: path_copy, crates: Vec::new() }
    }

    /// Writes the archive bytes for `(name, version)`, overwriting any
    /// previous bytes under the same key.
    pub fn store_crate(&mut self, name: &String, version: &Version, bytes: &Vec<u8>)
        ensures
            final(self)@ == put_model(old(self)@, name@, version@, bytes@),
            final(self).path@ == old(self).path@,
    {
        let ghost prior = self@;
        let mut i: usize = 0;
        while i < self.crates.len()
            invariant
                i <= self.crates.len(),
                prior == old(self)@,
                self@ == prior,
                self.path@ == old(self).path@,
                forall|j: int| 0 <= j < i ==> !stores_key(#[trigger] prior[j], name@, version@),
            decreases self.crates.len() - i,
        {
            let e = &self.crates[i];
            if e.name == *name && e.version.same_version(version) {
                proof {
                    lemma_put_model_at(prior, name@, version@, bytes@, i as int);
                }
                let mut entry = self.crates.remove(i);
                entry.bytes = copy_bytes(bytes);
                proof {
                    assert(entry@ == (StoredView {
                        name: prior[i as int].name,
                        version: prior[i as int].version,
                        bytes: bytes@,
                    }));
                }
                let ghost ev = entry@;
                self.crates.insert(i, entry);
                proof {
                    assert forall|j: int| 0 <= j < prior.len() implies self@[j] == prior.update(
                        i as int,
                        ev,
                    )[j] by {}
                    assert(self@ =~= prior.update(i as int, ev));
                }
                return ;
            }
            i += 1;
        }
        proof {
            lemma_put_model_absent(prior, name@, version@, bytes@);
        }
        let entry = StoredCrate {
            name: copy_string(name),
            version: version.duplicate(),
            bytes: copy_bytes(bytes),
        };
        let ghost ev = entry@;
        self.crates.push(entry);
        proof {
            assert(self@ =~= prior.push(ev));
        }
    }

    /// The stored archive bytes of `(name, version)`, if any.
    pub fn get_crate(&self, name: &String, version: &Version) -> (r: Option<Vec<u8>>)
        ensures
            match stored_bytes(self@, name@, version@) {
                Some(bs) => r matches Some(out) && out@ == bs,
                None => r is None,
            },
    {
        let mut i: usize = 0;
        while i < self.crates.len()
            invariant
                i <= self.crates.len(),
                forall|j: int| 0 <= j < i ==> !stores_key(#[trigger] self@[j], name@, version@),
            decreases self.crates.len() - i,
        {
            let e = &self.crates[i];
            if e.name == *name && e.version.same_version(version) {
                proof {
                    lemma_stored_bytes_at(self@, name@, version@, i as int);
                }
                return Some(copy_bytes(&e.bytes));
            }
            i += 1;
        }
        proof {
            lemma_stored_bytes_absent(self@, name@, version@);
        }
        None
    }

    /// Lists every stored crate: its name and, for a well-formed
    /// version, the version's canonical text.
    pub fn get_all_crates(&self) -> (r: Vec<Crate>)
        ensures
            r.len() == self@.len(),
            forall|i: int|
                0 <= i < self@.len() ==> (#[trigger] r@[i]).name@ == self@[i].name,
            forall|i: int|
                0 <= i < self@.len() && self@[i].version.wf() ==> (#[trigger] r@[i]).version@
                    == ascii_str(version_bytes(self@[i].version)),
    {
        let mut out: Vec<Crate> = Vec::new();
        let mut i: usize = 0;
        while i < self.crates.len()
            invariant
                i <= self.crates.len(),
                out.len() == i,
                forall|j: int| 0 <= j < i ==> (#[trigger] out@[j]).name@ == self@[j].name,
                forall|j: int|
                    0 <= j < i && self@[j].version.wf() ==> (#[trigger] out@[j]).version@
                        == ascii_str(version_bytes(self@[j].version)),
            decreases self.crates.len() - i,
        {
            let e = &self.crates[i];
            out.push(Crate { name: copy_string(&e.name), version: e.version.to_text() });
            i += 1;
        }
        out
    }
}

/// A put with its key at `i` overwrites exactly that entry.
proof fn lemma_put_model_at(
    s: Seq<StoredView>,
    name: Seq<char>,
    v: VersionView,
    bytes: Seq<u8>,
    i: int,
)
    requires
        0 <= i < s.len(),
        stores_key(s[i], name, v),
        forall|j: int| 0 <= j < i ==> !stores_key(#[trigger] s[j], name, v),
    ensures
        put_model(s, name, v, bytes) =~= s.update(
            i,
            StoredView { name: s[i].name, version: s[i].version, bytes },
        ),
    decreases i,
{
    if i > 0 {
        assert forall|j: int| 0 <= j < i - 1 implies !stores_key(
            #[trigger] s.skip(1)[j],
            name,
            v,
        ) by {
            assert(s.skip(1)[j] == s[j + 1]);
        }
        assert(s.skip(1)[i - 1] == s[i]);
        lemma_put_model_at(s.skip(1), name, v, bytes, i - 1);
        assert(s.update(i, StoredView { name: s[i].name, version: s[i].version, bytes }).skip(1)
            =~= s.skip(1).update(
            i - 1,
            StoredView { name: s[i].name, version: s[i].version, bytes },
        ));
    }
}

/// A put of a fresh key appends its entry at the end.
proof fn lemma_put_model_absent(s: Seq<StoredView>, name: Seq<char>, v: VersionView, bytes: Seq<u8>)
    requires
        forall|j: int| 0 <= j < s.len() ==> !stores_key(#[trigger] s[j], name, v),
    ensures
        put_model(s, name, v, bytes) =~= s.push(StoredView { name, version: v, bytes }),
    decreases s.len(),
{
    if s.len() > 0 {
        assert forall|j: int| 0 <= j < s.skip(1).len() implies !stores_key(
            #[trigger] s.skip(1)[j],
            name,
            v,
        ) by {
            assert(s.skip(1)[j] == s[j + 1]);
        }
        lemma_put_model_absent(s.skip(1), name, v, bytes);
    }
}

/// `stored_bytes` reads the first entry of the key.
proof fn lemma_stored_bytes_at(s: Seq<StoredView>, name: Seq<char>, v: VersionView, i: int)
    requires
        0 <= i < s.len(),
        stores_key(s[i], name, v),
        forall|j: int| 0 <= j < i ==> !stores_key(#[trigger] s[j], name, v),
    ensures
        stored_bytes(s, name, v) == Some(s[i].bytes),
    decreases i,
{
    if i > 0 {
        assert forall|j: int| 0 <= j < i - 1 implies !stores_key(
            #[trigger] s.skip(1)[j],
            name,
            v,
        ) by {
            assert(s.skip(1)[j] == s[j + 1]);
        }
        assert(s.skip(1)[i - 1] == s[i]);
        lemma_stored_bytes_at(s.skip(1), name, v, i - 1);
    }
}

/// `stored_bytes` of an absent key is `None`.
proof fn lemma_stored_bytes_absent(s: Seq<StoredView>, name: Seq<char>, v: VersionView)
    requires
        forall|j: int| 0 <= j < s.len() ==> !stores_key(#[trigger] s[j], name, v),
    ensures
        stored_bytes(s, name, v) is None,
    decreases s.len(),
{
    if s.len() > 0 {
        assert forall|j: int| 0 <= j < s.skip(1).len() implies !stores_key(
            #[trigger] s.skip(1)[j],
            name,
            v,
        ) by {
            assert(s.skip(1)[j] == s[j + 1]);
        }
        lemma_stored_bytes_absent(s.skip(1), name, v);
    }
}

} // verus!
