//! Semantic versions and their precedence ordering.
//!
//! A version is `major.minor.patch`, an optional pre-release tag
//! (dot-separated identifiers, kept as raw ASCII bytes) and optional
//! build metadata. Precedence follows semantic versioning: the numeric
//! triple is compared first, then the pre-release tag, where a version
//! without a tag ranks above every version with one; build metadata
//! never takes part in the comparison.

use vstd::prelude::*;

verus! {

/// Whether `b` is an ASCII decimal digit.
pub open spec fn is_digit(b: u8) -> bool {
    0x30 <= b <= 0x39
}

/// Whether `b` may occur in a pre-release or build identifier:
/// ASCII digits, letters and `-`.
pub open spec fn is_ident_byte(b: u8) -> bool {
    is_digit(b) || (0x41 <= b <= 0x5A) || (0x61 <= b <= 0x7A) || b == 0x2D
}

/// Whether an identifier consists solely of digits, so that it is
/// compared numerically rather than lexically.
pub open spec fn ident_is_numeric(s: Seq<u8>) -> bool {
    forall|i: int| 0 <= i < s.len() ==> is_digit(s[i])
}

/// A well-formed identifier: non-empty, only allowed bytes, and no
/// leading zero when numeric.
pub open spec fn ident_wf(s: Seq<u8>) -> bool {
    &&& s.len() > 0
    &&& forall|i: int| 0 <= i < s.len() ==> is_ident_byte(s[i])
    &&& (ident_is_numeric(s) && s.len() > 1 ==> s[0] != 0x30)
}

/// Strict lexicographic (byte-wise) order.
pub open spec fn lex_lt(a: Seq<u8>, b: Seq<u8>) -> bool
    decreases a.len(),
{
    if b.len() == 0 {
        false
    } else if a.len() == 0 {
        true
    } else if a[0] != b[0] {
        a[0] < b[0]
    } else {
        lex_lt(a.skip(1), b.skip(1))
    }
}

/// Strict order on single identifiers: numeric identifiers compare
/// numerically (length first, then bytes, as there are no leading
/// zeros) and rank below every alphanumeric identifier; alphanumeric
/// identifiers compare lexically.
pub open spec fn ident_lt(a: Seq<u8>, b: Seq<u8>) -> bool {
    if ident_is_numeric(a) && ident_is_numeric(b) {
        a.len() < b.len() || (a.len() == b.len() && lex_lt(a, b))
    } else if ident_is_numeric(a) {
        true
    } else if ident_is_numeric(b) {
        false
    } else {
        lex_lt(a, b)
    }
}

/// Strict order on two non-empty pre-release tags, identifier by
/// identifier; if all leading identifiers agree, the shorter tag ranks
/// lower.
pub open spec fn pre_seq_lt(a: Seq<Seq<u8>>, b: Seq<Seq<u8>>) -> bool
    decreases a.len(),
{
    if b.len() == 0 {
        false
    } else if a.len() == 0 {
        true
    } else if a[0] != b[0] {
        ident_lt(a[0], b[0])
    } else {
        pre_seq_lt(a.skip(1), b.skip(1))
    }
}

/// Strict order on pre-release tags, where the empty tag (a full
/// release) ranks above every non-empty tag.
pub open spec fn pre_lt(a: Seq<Seq<u8>>, b: Seq<Seq<u8>>) -> bool {
    if a.len() == 0 {
        false
    } else if b.len() == 0 {
        true
    } else {
        pre_seq_lt(a, b)
    }
}

proof fn lemma_lex_lt_asymm(a: Seq<u8>, b: Seq<u8>)
    ensures
        lex_lt(a, b) ==> !lex_lt(b, a),
    decreases a.len(),
{
    if a.len() > 0 && b.len() > 0 && a[0] == b[0] {
        lemma_lex_lt_asymm(a.skip(1), b.skip(1));
    }
}

proof fn lemma_lex_lt_trans(a: Seq<u8>, b: Seq<u8>, c: Seq<u8>)
    ensures
        lex_lt(a, b) && lex_lt(b, c) ==> lex_lt(a, c),
    decreases a.len(),
{
    if a.len() > 0 && b.len() > 0 && c.len() > 0 && a[0] == b[0] && b[0] == c[0] {
        lemma_lex_lt_trans(a.skip(1), b.skip(1), c.skip(1));
    }
}

proof fn lemma_ident_lt_asymm(a: Seq<u8>, b: Seq<u8>)
    ensures
        ident_lt(a, b) ==> !ident_lt(b, a),
{
    lemma_lex_lt_asymm(a, b);
}

proof fn lemma_ident_lt_trans(a: Seq<u8>, b: Seq<u8>, c: Seq<u8>)
    ensures
        ident_lt(a, b) && ident_lt(b, c) ==> ident_lt(a, c),
{
    lemma_lex_lt_trans(a, b, c);
}

proof fn lemma_pre_seq_lt_irrefl(a: Seq<Seq<u8>>)
    ensures
        !pre_seq_lt(a, a),
    decreases a.len(),
{
    if a.len() > 0 {
        lemma_pre_seq_lt_irrefl(a.skip(1));
    }
}

proof fn lemma_pre_seq_lt_asymm(a: Seq<Seq<u8>>, b: Seq<Seq<u8>>)
    ensures
        pre_seq_lt(a, b) ==> !pre_seq_lt(b, a),
    decreases a.len(),
{
    if a.len() > 0 && b.len() > 0 {
        if a[0] == b[0] {
            lemma_pre_seq_lt_asymm(a.skip(1), b.skip(1));
        } else {
            lemma_ident_lt_asymm(a[0], b[0]);
        }
    }
}

proof fn lemma_pre_seq_lt_trans(a: Seq<Seq<u8>>, b: Seq<Seq<u8>>, c: Seq<Seq<u8>>)
    ensures
        pre_seq_lt(a, b) && pre_seq_lt(b, c) ==> pre_seq_lt(a, c),
    decreases a.len(),
{
    if pre_seq_lt(a, b) && pre_seq_lt(b, c) && a.len() > 0 && b.len() > 0 && c.len() > 0 {
        if a[0] == b[0] && b[0] == c[0] {
            lemma_pre_seq_lt_trans(a.skip(1), b.skip(1), c.skip(1));
        } else if a[0] != b[0] && b[0] != c[0] {
            lemma_ident_lt_trans(a[0], b[0], c[0]);
            if a[0] == c[0] {
                lemma_ident_lt_asymm(a[0], b[0]);
            }
        }
    }
}

/// The mathematical value of a version.
pub ghost struct VersionView {
    pub major: u64,
    pub minor: u64,
    pub patch: u64,
    pub pre: Seq<Seq<u8>>,
    pub build: Seq<u8>,
}

impl VersionView {
    /// Identifiers of the pre-release tag are well formed, and build
    /// metadata holds only identifier bytes and dots.
    pub open spec fn wf(self) -> bool {
        &&& forall|i: int| 0 <= i < self.pre.len() ==> ident_wf(#[trigger] self.pre[i])
        &&& forall|i: int|
            0 <= i < self.build.len() ==> is_ident_byte(#[trigger] self.build[i]) || self.build[i]
                == 0x2E
    }

    /// Strict semantic-version precedence; build metadata is ignored.
    pub open spec fn precedence_lt(self, other: VersionView) -> bool {
        if self.major != other.major {
            self.major < other.major
        } else if self.minor != other.minor {
            self.minor < other.minor
        } else if self.patch != other.patch {
            self.patch < other.patch
        } else {
            pre_lt(self.pre, other.pre)
        }
    }

    /// The two versions denote the same version number: equal numeric
    /// triple and equal pre-release tag. Build metadata is not part of
    /// a version's identity.
    pub open spec fn same_version(self, other: VersionView) -> bool {
        &&& self.major == other.major
        &&& self.minor == other.minor
        &&& self.patch == other.patch
        &&& self.pre == other.pre
    }
}

/// Precedence is a strict order: irreflexive, transitive and
/// asymmetric.
pub proof fn lemma_precedence_strict_order(a: VersionView, b: VersionView, c: VersionView)
    ensures
        !a.precedence_lt(a),
        a.precedence_lt(b) && b.precedence_lt(c) ==> a.precedence_lt(c),
        a.precedence_lt(b) ==> !b.precedence_lt(a),
{
    lemma_pre_seq_lt_irrefl(a.pre);
    lemma_pre_seq_lt_asymm(a.pre, b.pre);
    lemma_pre_seq_lt_trans(a.pre, b.pre, c.pre);
}

/// A semantic version.
#[derive(Debug)]
pub struct Version {
    pub major: u64,
    pub minor: u64,
    pub patch: u64,
    /// Pre-release tag: dot-separated identifiers, as ASCII bytes.
    pub pre: Vec<Vec<u8>>,
    /// Build metadata after `+`, as ASCII bytes; empty when absent.
    pub build: Vec<u8>,
}

impl View for Version {
    type V = VersionView;

    open spec fn view(&self) -> VersionView {
        VersionView {
            major: self.major,
            minor: self.minor,
            patch: self.patch,
            pre: self.pre.deep_view(),
            build: self.build@,
        }
    }
}

impl DeepView for Version {
    type V = VersionView;

    open spec fn deep_view(&self) -> VersionView {
        self.view()
    }
}

/// Outcome of a three-way comparison.
#[derive(Clone, Copy, Debug, PartialEq, Eq, Structural)]
enum Rel {
    Lower,
    Same,
    Higher,
}

/// Whether every byte of `a` is a decimal digit.
fn ident_is_num(a: &Vec<u8>) -> (r: bool)
    ensures
        r == ident_is_numeric(a@),
{
    let mut i: usize = 0;
    while i < a.len()
        invariant
            i <= a.len(),
            forall|j: int| 0 <= j < i ==> is_digit(a@[j]),
        decreases a.len() - i,
    {
        let b = a[i];
        if !(0x30 <= b && b <= 0x39) {
            return false;
        }
        i += 1;
    }
    true
}

/// Byte-wise comparison of `a` and `b` from position `i` on.
fn lex_cmp_from(a: &Vec<u8>, b: &Vec<u8>, i: usize) -> (r: Rel)
    requires
        i <= a.len(),
        i <= b.len(),
    ensures
        (r is Same) <==> a@.skip(i as int) == b@.skip(i as int),
        (r is Lower) <==> lex_lt(a@.skip(i as int), b@.skip(i as int)),
    decreases a.len() - i,
{
    let ghost ai = a@.skip(i as int);
    let ghost bi = b@.skip(i as int);
    if i == a.len() && i == b.len() {
        proof {
            assert(ai =~= bi);
        }
        Rel::Same
    } else if i == b.len() {
        proof {
            assert(ai.len() != bi.len());
        }
        Rel::Higher
    } else if i == a.len() {
        proof {
            assert(ai.len() != bi.len());
        }
        Rel::Lower
    } else {
        let x = a[i];
        let y = b[i];
        proof {
            assert(ai[0] == a@[i as int]);
            assert(bi[0] == b@[i as int]);
        }
        if x < y {
            proof {
                assert(ai[0] != bi[0]);
            }
            Rel::Lower
        } else if y < x {
            proof {
                assert(ai[0] != bi[0]);
            }
            Rel::Higher
        } else {
            let r = lex_cmp_from(a, b, i + 1);
            proof {
                assert(ai.skip(1) =~= a@.skip(i + 1));
                assert(bi.skip(1) =~= b@.skip(i + 1));
                if a@.skip(i + 1) == b@.skip(i + 1) {
                    assert forall|k: int| 0 <= k < ai.len() implies ai[k] == bi[k] by {
                        if k > 0 {
                            assert(ai[k] == ai.skip(1)[k - 1]);
                            assert(bi[k] == bi.skip(1)[k - 1]);
                        }
                    }
                    assert(ai =~= bi);
                }
            }
            r
        }
    }
}

/// Three-way comparison of two identifiers under `ident_lt`.
fn ident_cmp(a: &Vec<u8>, b: &Vec<u8>) -> (r: Rel)
    ensures
        (r is Same) <==> a@ == b@,
        (r is Lower) <==> ident_lt(a@, b@),
{
    let na = ident_is_num(a);
    let nb = ident_is_num(b);
    proof {
        assert(a@.skip(0) =~= a@);
        assert(b@.skip(0) =~= b@);
    }
    if na && nb {
        if a.len() < b.len() {
            Rel::Lower
        } else if b.len() < a.len() {
            Rel::Higher
        } else {
            lex_cmp_from(a, b, 0)
        }
    } else if na {
        Rel::Lower
    } else if nb {
        Rel::Higher
    } else {
        lex_cmp_from(a, b, 0)
    }
}

/// Identifier-wise comparison of two pre-release tags from position
/// `i` on, under `pre_seq_lt`.
fn pre_seq_cmp_from(a: &Vec<Vec<u8>>, b: &Vec<Vec<u8>>, i: usize) -> (r: Rel)
    requires
        i <= a.len(),
        i <= b.len(),
    ensures
        (r is Same) <==> a.deep_view().skip(i as int) == b.deep_view().skip(i as int),
        (r is Lower) <==> pre_seq_lt(a.deep_view().skip(i as int), b.deep_view().skip(i as int)),
    decreases a.len() - i,
{
    let ghost ai = a.deep_view().skip(i as int);
    let ghost bi = b.deep_view().skip(i as int);
    if i == a.len() && i == b.len() {
        proof {
            assert(ai =~= bi);
        }
        Rel::Same
    } else if i == b.len() {
        proof {
            assert(ai.len() != bi.len());
        }
        Rel::Higher
    } else if i == a.len() {
        proof {
            assert(ai.len() != bi.len());
        }
        Rel::Lower
    } else {
        proof {
            assert(ai[0] == a.deep_view()[i as int]);
            assert(bi[0] == b.deep_view()[i as int]);
            assert(a.deep_view()[i as int] == a@[i as int].deep_view());
            assert(b.deep_view()[i as int] == b@[i as int].deep_view());
            assert(a@[i as int].deep_view() =~= a@[i as int]@);
            assert(b@[i as int].deep_view() =~= b@[i as int]@);
        }
        let c = ident_cmp(&a[i], &b[i]);
        match c {
            Rel::Same => {
                let r = pre_seq_cmp_from(a, b, i + 1);
                proof {
                    assert(ai.skip(1) =~= a.deep_view().skip(i + 1));
                    assert(bi.skip(1) =~= b.deep_view().skip(i + 1));
                    if a.deep_view().skip(i + 1) == b.deep_view().skip(i + 1) {
                        assert forall|k: int| 0 <= k < ai.len() implies ai[k] == bi[k] by {
                            if k > 0 {
                                assert(ai[k] == ai.skip(1)[k - 1]);
                                assert(bi[k] == bi.skip(1)[k - 1]);
                            }
                        }
                        assert(ai =~= bi);
                    }
                }
                r
            },
            Rel::Lower => {
                proof {
                    assert(ai[0] != bi[0]);
                }
                Rel::Lower
            },
            Rel::Higher => {
                proof {
                    assert(ai[0] != bi[0]);
                    assert(!ident_lt(ai[0], bi[0])) by {
                        if ident_lt(a@[i as int]@, b@[i as int]@) {
                        }
                    }
                }
                Rel::Higher
            },
        }
    }
}

/// Whether pre-release tag `a` ranks strictly below `b`.
pub fn pre_tag_lt(a: &Vec<Vec<u8>>, b: &Vec<Vec<u8>>) -> (r: bool)
    ensures
        r == pre_lt(a.deep_view(), b.deep_view()),
{
    if a.len() == 0 {
        false
    } else if b.len() == 0 {
        true
    } else {
        proof {
            assert(a.deep_view().skip(0) =~= a.deep_view());
            assert(b.deep_view().skip(0) =~= b.deep_view());
        }
        let c = pre_seq_cmp_from(a, b, 0);
        match c {
            Rel::Lower => true,
            _ => false,
        }
    }
}

/// Whether the two pre-release tags are equal.
pub fn pre_tag_eq(a: &Vec<Vec<u8>>, b: &Vec<Vec<u8>>) -> (r: bool)
    ensures
        r == (a.deep_view() == b.deep_view()),
{
    proof {
        assert(a.deep_view().skip(0) =~= a.deep_view());
        assert(b.deep_view().skip(0) =~= b.deep_view());
    }
    let c = pre_seq_cmp_from(a, b, 0);
    match c {
        Rel::Same => true,
        _ => false,
    }
}

impl Version {
    /// Builds a release version without pre-release tag or build
    /// metadata.
    pub fn release(major: u64, minor: u64, patch: u64) -> (v: Version)
        ensures
            v@.major == major,
            v@.minor == minor,
            v@.patch == patch,
            v@.pre.len() == 0,
            v@.build.len() == 0,
    {
        let v = Version { major, minor, patch, pre: Vec::new(), build: Vec::new() };
        proof {
            assert(v@.pre =~= Seq::<Seq<u8>>::empty());
        }
        v
    }

    /// Whether `self` precedes `other` in semantic-version order.
    pub fn precedes(&self, other: &Version) -> (r: bool)
        ensures
            r == self@.precedence_lt(other@),
    {
        if self.major != other.major {
            self.major < other.major
        } else if self.minor != other.minor {
            self.minor < other.minor
        } else if self.patch != other.patch {
            self.patch < other.patch
        } else {
            pre_tag_lt(&self.pre, &other.pre)
        }
    }

    /// Whether the two values denote the same version number.
    pub fn same_version(&self, other: &Version) -> (r: bool)
        ensures
            r == self@.same_version(other@),
    {
        self.major == other.major && self.minor == other.minor && self.patch == other.patch
            && pre_tag_eq(&self.pre, &other.pre)
    }

    /// A structurally identical copy.
    pub fn duplicate(&self) -> (v: Version)
        ensures
            v@ == self@,
    {
        let v = Version {
            major: self.major,
            minor: self.minor,
            patch: self.patch,
            pre: copy_byte_vecs(&self.pre),
            build: copy_bytes(&self.build),
        };
        v
    }
}

/// The decimal digits of `n`, most significant first, as ASCII bytes.
pub open spec fn dec_bytes(n: int) -> Seq<u8>
    recommends
        n >= 0,
    decreases n,
{
    if n < 10 {
        seq![(0x30 + if n >= 0 { n } else { 0 }) as u8]
    } else {
        dec_bytes(n / 10).push((0x30 + n % 10) as u8)
    }
}

/// The characters of a sequence of ASCII bytes.
pub open spec fn ascii_str(bs: Seq<u8>) -> Seq<char> {
    Seq::new(bs.len(), |i: int| bs[i] as char)
}

/// Whether every byte is ASCII.
pub open spec fn all_ascii(bs: Seq<u8>) -> bool {
    forall|i: int| 0 <= i < bs.len() ==> bs[i] < 128
}

/// Appends the decimal rendering of `n`.
pub fn push_dec(out: &mut Vec<u8>, n: u64)
    ensures
        final(out)@ == old(out)@ + dec_bytes(n as int),
    decreases n,
{
    if n < 10 {
        out.push(0x30 + (n as u8));
        proof {
            assert(final(out)@ =~= old(out)@ + dec_bytes(n as int));
        }
    } else {
        push_dec(out, n / 10);
        out.push(0x30 + ((n % 10) as u8));
        proof {
            assert(final(out)@ =~= old(out)@ + dec_bytes(n as int));
        }
    }
}

/// The pre-release identifiers joined with dots.
pub open spec fn join_idents(pre: Seq<Seq<u8>>) -> Seq<u8>
    decreases pre.len(),
{
    if pre.len() == 0 {
        Seq::empty()
    } else if pre.len() == 1 {
        pre[0]
    } else {
        pre[0] + seq![0x2Eu8] + join_idents(pre.skip(1))
    }
}

/// The canonical text of a version, as ASCII bytes:
/// `major.minor.patch`, `-` and the pre-release tag when present,
/// `+` and the build metadata when present.
pub open spec fn version_bytes(v: VersionView) -> Seq<u8> {
    dec_bytes(v.major as int) + seq![0x2Eu8] + dec_bytes(v.minor as int) + seq![0x2Eu8]
        + dec_bytes(v.patch as int) + (if v.pre.len() > 0 {
        seq![0x2Du8] + join_idents(v.pre)
    } else {
        Seq::empty()
    }) + (if v.build.len() > 0 {
        seq![0x2Bu8] + v.build
    } else {
        Seq::empty()
    })
}

/// Relies on String::from_utf8: ASCII bytes are valid UTF-8 and decode
/// to exactly one character per byte, each the byte's code point. A
/// non-UTF-8 input yields the empty string here, so the call never
/// panics.
#[verifier::external_body]
pub fn ascii_to_string(bytes: Vec<u8>) -> (r: String)
    ensures
        all_ascii(bytes@) ==> r@ == ascii_str(bytes@),
{
    match String::from_utf8(bytes) {
        Ok(s) => s,
        Err(_) => String::new(),
    }
}

impl Version {
    /// The canonical text of this version, as ASCII bytes.
    pub fn to_bytes(&self) -> (r: Vec<u8>)
        ensures
            r@ == version_bytes(self@),
    {
        let mut out: Vec<u8> = Vec::new();
        push_dec(&mut out, self.major);
        out.push(0x2E);
        push_dec(&mut out, self.minor);
        out.push(0x2E);
        push_dec(&mut out, self.patch);
        let ghost head = out@;
        proof {
            assert(head =~= dec_bytes(self@.major as int) + seq![0x2Eu8] + dec_bytes(
                self@.minor as int,
            ) + seq![0x2Eu8] + dec_bytes(self@.patch as int));
        }
        if self.pre.len() > 0 {
            out.push(0x2D);
            let mut i: usize = 0;
            while i < self.pre.len()
                invariant
                    0 < self.pre.len(),
                    i <= self.pre.len(),
                    i > 0 ==> out@ =~= head + seq![0x2Du8] + join_idents(
                        self@.pre.take(i as int),
                    ),
                    i == 0 ==> out@ =~= head + seq![0x2Du8],
                decreases self.pre.len() - i,
            {
                if i > 0 {
                    out.push(0x2E);
                }
                let ghost mid = out@;
                let id = &self.pre[i];
                let mut j: usize = 0;
                while j < id.len()
                    invariant
                        j <= id.len(),
                        out@ =~= mid + id@.take(j as int),
                    decreases id.len() - j,
                {
                    out.push(id[j]);
                    j += 1;
                }
                proof {
                    assert(out@ =~= mid + id@);
                    assert(self@.pre[i as int] == id@);
                    lemma_join_idents_step(self@.pre, i as int);
                }
                i += 1;
            }
            proof {
                assert(self@.pre.take(self.pre.len() as int) =~= self@.pre);
            }
        }
        if self.build.len() > 0 {
            out.push(0x2B);
            let ghost mid = out@;
            let mut j: usize = 0;
            while j < self.build.len()
                invariant
                    j <= self.build.len(),
                    out@ =~= mid + self.build@.take(j as int),
                decreases self.build.len() - j,
            {
                out.push(self.build[j]);
                j += 1;
            }
            proof {
                assert(out@ =~= mid + self.build@);
            }
        }
        proof {
            assert(out@ =~= version_bytes(self@));
        }
        out
    }

    /// The canonical text of this version. For a well-formed version
    /// the characters are exactly the version's canonical ASCII bytes.
    pub fn to_text(&self) -> (r: String)
        ensures
            self@.wf() ==> r@ == ascii_str(version_bytes(self@)),
    {
        let bytes = self.to_bytes();
        proof {
            if self@.wf() {
                lemma_version_bytes_ascii(self@);
            }
        }
        ascii_to_string(bytes)
    }
}

/// Joining one more identifier appends a dot (after the first) and the
/// identifier's bytes.
proof fn lemma_join_idents_step(pre: Seq<Seq<u8>>, i: int)
    requires
        0 <= i < pre.len(),
    ensures
        i == 0 ==> join_idents(pre.take(1)) == pre[0],
        i > 0 ==> join_idents(pre.take(i + 1)) == join_idents(pre.take(i)) + seq![0x2Eu8] + pre[i],
    decreases i,
{
    if i == 0 {
        assert(pre.take(1).len() == 1);
        assert(pre.take(1)[0] == pre[0]);
    } else {
        lemma_join_idents_step(pre.skip(1), i - 1);
        let t = pre.take(i + 1);
        assert(t.len() >= 2);
        assert(t[0] == pre[0]);
        assert(t.skip(1) =~= pre.skip(1).take(i));
        assert(pre.take(i).skip(1) =~= pre.skip(1).take(i - 1));
        assert(pre.take(i)[0] == pre[0]);
        assert(pre.skip(1)[i - 1] == pre[i]);
        if i == 1 {
            assert(join_idents(pre.skip(1).take(1)) == pre.skip(1)[0]);
            assert(join_idents(t) == t[0] + seq![0x2Eu8] + join_idents(t.skip(1)));
            assert(join_idents(pre.take(1)) == pre[0]);
        } else {
            assert(join_idents(t) == t[0] + seq![0x2Eu8] + join_idents(t.skip(1)));
            assert(join_idents(pre.take(i)) == pre[0] + seq![0x2Eu8] + join_idents(
                pre.take(i).skip(1),
            ));
            assert(join_idents(pre.take(i + 1)) =~= join_idents(pre.take(i)) + seq![0x2Eu8]
                + pre[i]);
        }
    }
}

/// The decimal digits are ASCII.
proof fn lemma_dec_bytes_ascii(n: int)
    ensures
        all_ascii(dec_bytes(n)),
    decreases n,
{
    if n >= 10 {
        lemma_dec_bytes_ascii(n / 10);
        assert forall|i: int| 0 <= i < dec_bytes(n).len() implies dec_bytes(n)[i] < 128 by {
            if i < dec_bytes(n / 10).len() {
                assert(dec_bytes(n)[i] == dec_bytes(n / 10)[i]);
            }
        }
    }
}

/// The joined pre-release tag of a well-formed version is ASCII.
proof fn lemma_join_idents_ascii(pre: Seq<Seq<u8>>)
    requires
        forall|i: int| 0 <= i < pre.len() ==> ident_wf(#[trigger] pre[i]),
    ensures
        all_ascii(join_idents(pre)),
    decreases pre.len(),
{
    if pre.len() > 1 {
        assert forall|i: int| 0 <= i < pre.skip(1).len() implies ident_wf(
            #[trigger] pre.skip(1)[i],
        ) by {
            assert(pre.skip(1)[i] == pre[i + 1]);
        }
        lemma_join_idents_ascii(pre.skip(1));
    }
}

/// The canonical bytes of a well-formed version are ASCII.
proof fn lemma_version_bytes_ascii(v: VersionView)
    requires
        v.wf(),
    ensures
        all_ascii(version_bytes(v)),
{
    lemma_dec_bytes_ascii(v.major as int);
    lemma_dec_bytes_ascii(v.minor as int);
    lemma_dec_bytes_ascii(v.patch as int);
    lemma_join_idents_ascii(v.pre);
}

/// A copy of a byte vector.
pub fn copy_bytes(v: &Vec<u8>) -> (r: Vec<u8>)
    ensures
        r@ == v@,
{
    let mut r: Vec<u8> = Vec::new();
    let mut i: usize = 0;
    while i < v.len()
        invariant
            i <= v.len(),
            r@ =~= v@.take(i as int),
        decreases v.len() - i,
    {
        r.push(v[i]);
        i += 1;
    }
    proof {
        assert(r@ =~= v@);
    }
    r
}

/// A copy of a vector of byte vectors.
pub fn copy_byte_vecs(v: &Vec<Vec<u8>>) -> (r: Vec<Vec<u8>>)
    ensures
        r.deep_view() == v.deep_view(),
{
    let mut r: Vec<Vec<u8>> = Vec::new();
    let mut i: usize = 0;
    while i < v.len()
        invariant
            i <= v.len(),
            r.deep_view() =~= v.deep_view().take(i as int),
        decreases v.len() - i,
    {
        let ghost prev = r.deep_view();
        let id = copy_bytes(&v[i]);
        r.push(id);
        proof {
            assert(r.deep_view() =~= prev.push(id.deep_view()));
            assert(id.deep_view() =~= id@);
            assert(v.deep_view()[i as int] =~= v@[i as int]@);
            assert(r.deep_view() =~= v.deep_view().take(i + 1));
        }
        i += 1;
    }
    proof {
        assert(r.deep_view() =~= v.deep_view());
    }
    r
}

} // verus!
