//! Content identifiers as plain values, ordered as the `cid` crate orders
//! them, and the calls that read and write their text and binary forms.
use vstd::prelude::*;

verus! {

/// A content identifier: version, content codec, hash function code and the
/// digest itself.
#[derive(Clone, Debug, PartialEq, Eq, Hash)]
pub struct Cid {
    pub version: u64,
    pub codec: u64,
    pub hash_code: u64,
    pub digest: Vec<u8>,
}

/// The mathematical value of a [`Cid`].
pub struct CidView {
    pub version: u64,
    pub codec: u64,
    pub hash_code: u64,
    pub digest: Seq<u8>,
}

impl View for Cid {
    type V = CidView;

    open spec fn view(&self) -> CidView {
        CidView {
            version: self.version,
            codec: self.codec,
            hash_code: self.hash_code,
            digest: self.digest@,
        }
    }
}

impl DeepView for Cid {
    type V = CidView;

    open spec fn deep_view(&self) -> CidView {
        self@
    }
}

/// Codec of version 0 identifiers.
pub const DAG_PB: u64 = 0x70;

/// Hash function of version 0 identifiers.
pub const SHA2_256: u64 = 0x12;

/// Longest digest an identifier holds.
pub const MAX_DIGEST: usize = 64;

/// `a` comes before `b` when both are compared byte by byte from `i` on, a
/// proper prefix before what it is a prefix of.
pub open spec fn bytes_lt_from(a: Seq<u8>, b: Seq<u8>, i: int) -> bool
    decreases a.len() - i,
{
    if i < 0 || i >= a.len() || i >= b.len() {
        i >= a.len() && a.len() < b.len()
    } else if a[i] != b[i] {
        a[i] < b[i]
    } else {
        bytes_lt_from(a, b, i + 1)
    }
}

/// Lexicographic order on byte strings.
pub open spec fn bytes_lt(a: Seq<u8>, b: Seq<u8>) -> bool {
    bytes_lt_from(a, b, 0)
}

impl CidView {
    /// What the `cid` crate accepts as an identifier.
    pub open spec fn wf(self) -> bool {
        &&& self.version == 0 || self.version == 1
        &&& self.digest.len() <= MAX_DIGEST
        &&& self.version == 0 ==> self.codec == DAG_PB && self.hash_code == SHA2_256
    }

    /// The text of the identifier; of the default identifier where the parts
    /// make none.
    pub open spec fn text(self) -> Seq<char> {
        if self.wf() {
            cid_text(self)
        } else {
            cid_text(CidView { version: 1, codec: 0, hash_code: 0, digest: Seq::<u8>::empty() })
        }
    }

    /// The order of identifiers: by version, then codec, then hash code, then
    /// digest length, then digest.
    pub open spec fn lt(self, other: CidView) -> bool {
        if self.version != other.version {
            self.version < other.version
        } else if self.codec != other.codec {
            self.codec < other.codec
        } else if self.hash_code != other.hash_code {
            self.hash_code < other.hash_code
        } else if self.digest.len() != other.digest.len() {
            self.digest.len() < other.digest.len()
        } else {
            bytes_lt(self.digest, other.digest)
        }
    }
}

proof fn lemma_bytes_total(a: Seq<u8>, b: Seq<u8>, i: int)
    requires
        0 <= i <= a.len(),
        a.len() == b.len(),
        a.take(i) == b.take(i),
    ensures
        bytes_lt_from(a, b, i) || bytes_lt_from(b, a, i) || a == b,
        !(bytes_lt_from(a, b, i) && bytes_lt_from(b, a, i)),
        a == b ==> !bytes_lt_from(a, b, i),
    decreases a.len() - i,
{
    if i < a.len() {
        if a[i] == b[i] {
            assert(a.take(i + 1) == a.take(i).push(a[i]));
            assert(b.take(i + 1) == b.take(i).push(b[i]));
            lemma_bytes_total(a, b, i + 1);
        }
    } else {
        assert(a.take(i) == a);
        assert(b.take(i) == b);
    }
}

proof fn lemma_bytes_trans(a: Seq<u8>, b: Seq<u8>, c: Seq<u8>, i: int)
    requires
        0 <= i,
        a.len() == b.len(),
        b.len() == c.len(),
        bytes_lt_from(a, b, i),
        bytes_lt_from(b, c, i),
    ensures
        bytes_lt_from(a, c, i),
    decreases a.len() - i,
{
    if i < a.len() {
        if a[i] == b[i] && b[i] == c[i] {
            lemma_bytes_trans(a, b, c, i + 1);
        }
    }
}

/// Of two identifiers exactly one holds: the first is smaller, they are
/// equal, or the second is smaller.
pub proof fn lemma_cid_order_total(a: CidView, b: CidView)
    ensures
        a.lt(b) || b.lt(a) || a == b,
        !(a.lt(b) && b.lt(a)),
        !a.lt(a),
{
    if a.version == b.version && a.codec == b.codec && a.hash_code == b.hash_code
        && a.digest.len() == b.digest.len() {
        assert(a.digest.take(0) == b.digest.take(0));
        lemma_bytes_total(a.digest, b.digest, 0);
    }
    assert(a.digest.take(0) == a.digest.take(0));
    lemma_bytes_total(a.digest, a.digest, 0);
}

/// The order of identifiers is transitive.
pub proof fn lemma_cid_order_transitive(a: CidView, b: CidView, c: CidView)
    requires
        a.lt(b),
        b.lt(c),
    ensures
        a.lt(c),
{
    if a.version == b.version && b.version == c.version && a.codec == b.codec && b.codec
        == c.codec && a.hash_code == b.hash_code && b.hash_code == c.hash_code
        && a.digest.len() == b.digest.len() && b.digest.len() == c.digest.len() {
        lemma_bytes_trans(a.digest, b.digest, c.digest, 0);
    }
}

/// The identifier that a text in multibase (or base58 for version 0) writes,
/// as the `cid` crate reads it.
pub uninterp spec fn cid_text_value(s: Seq<char>) -> Option<CidView>;

/// The canonical text of an identifier, as the `cid` crate writes it.
pub uninterp spec fn cid_text(c: CidView) -> Seq<char>;

/// The identifier at the beginning of a byte string and the number of bytes
/// it takes, as the `cid` crate reads it.
pub uninterp spec fn cid_prefix(bytes: Seq<u8>) -> Option<(CidView, nat)>;

/// Wraps `Cid::from_str` of the `cid` crate. The identifier is named by
/// `cid_text_value`; whatever the crate accepts is well formed.
#[verifier::external_body]
pub(crate) fn cid_from_str(s: &str) -> (r: Option<Cid>)
    ensures
        match r {
            Some(c) => cid_text_value(s@) == Some(c@) && c@.wf(),
            None => cid_text_value(s@) is None,
        },
{
    match <libipld::Cid as std::str::FromStr>::from_str(s) {
        Ok(c) => Some(Cid {
            version: c.version().into(),
            codec: c.codec(),
            hash_code: c.hash().code(),
            digest: c.hash().digest().to_vec(),
        }),
        Err(_) => None,
    }
}

/// Wraps `Cid::to_string` of the `cid` crate, on the identifier rebuilt from
/// its parts. The text is named by `cid_text`.
#[verifier::external_body]
pub(crate) fn cid_to_string(c: &Cid) -> (r: String)
    requires
        c@.wf(),
    ensures
        r@ == cid_text(c@),
{
    let hash = libipld::Multihash::wrap(c.hash_code, &c.digest).unwrap();
    let version = <libipld::cid::Version as std::convert::TryFrom<u64>>::try_from(c.version).unwrap();
    libipld::Cid::new(version, c.codec, hash).unwrap().to_string()
}

/// Wraps `Cid::read_bytes` of the `cid` crate on a cursor over `bytes`. The
/// identifier and the bytes read are named by `cid_prefix`; no more is read
/// than there is.
#[verifier::external_body]
pub(crate) fn cid_read(bytes: &[u8]) -> (r: Option<(Cid, usize)>)
    ensures
        match r {
            Some((c, n)) => cid_prefix(bytes@) == Some((c@, n as nat)) && c@.wf() && n
                <= bytes.len(),
            None => cid_prefix(bytes@) is None,
        },
{
    let mut cursor = std::io::Cursor::new(bytes);
    match libipld::Cid::read_bytes(&mut cursor) {
        Ok(c) => Some((Cid {
            version: c.version().into(),
            codec: c.codec(),
            hash_code: c.hash().code(),
            digest: c.hash().digest().to_vec(),
        }, cursor.position() as usize)),
        Err(_) => None,
    }
}

impl Cid {
    /// The identifier that stands for "none": version 1, codec 0, an empty
    /// digest.
    pub fn default() -> (r: Cid)
        ensures
            r@ == (CidView { version: 1, codec: 0, hash_code: 0, digest: Seq::<u8>::empty() }),
            r@.wf(),
    {
        Cid { version: 1, codec: 0, hash_code: 0, digest: Vec::new() }
    }

    /// Reads an identifier from its text.
    pub fn from_str(s: &str) -> (r: Option<Cid>)
        ensures
            match r {
                Some(c) => cid_text_value(s@) == Some(c@) && c@.wf(),
                None => cid_text_value(s@) is None,
            },
    {
        cid_from_str(s)
    }

    /// Whether the parts make an identifier.
    pub fn is_valid(&self) -> (r: bool)
        ensures
            r == self@.wf(),
    {
        (self.version == 0 || self.version == 1) && self.digest.len() <= MAX_DIGEST && (
        self.version != 0 || (self.codec == DAG_PB && self.hash_code == SHA2_256))
    }

    /// The canonical text of the identifier; of the default identifier where
    /// the parts make none.
    pub fn to_string(&self) -> (r: String)
        ensures
            r@ == self@.text(),
    {
        if self.is_valid() {
            cid_to_string(self)
        } else {
            cid_to_string(&Cid::default())
        }
    }

    /// A copy of the identifier.
    pub fn duplicate(&self) -> (r: Cid)
        ensures
            r@ == self@,
    {
        let mut digest: Vec<u8> = Vec::new();
        let mut i: usize = 0;
        while i < self.digest.len()
            invariant
                i <= self.digest.len(),
                digest@ == self.digest@.take(i as int),
            decreases self.digest.len() - i,
        {
            digest.push(self.digest[i]);
            assert(self.digest@.take(i + 1) =~= self.digest@.take(i as int).push(self.digest@[i as int]));
            i += 1;
        }
        assert(self.digest@.take(i as int) =~= self.digest@);
        Cid { version: self.version, codec: self.codec, hash_code: self.hash_code, digest }
    }

    /// Whether the two identifiers are the same.
    pub fn same(&self, other: &Cid) -> (r: bool)
        ensures
            r == (self@ == other@),
    {
        if self.version != other.version || self.codec != other.codec || self.hash_code
            != other.hash_code || self.digest.len() != other.digest.len() {
            return false;
        }
        let mut i: usize = 0;
        while i < self.digest.len()
            invariant
                i <= self.digest.len(),
                self.digest.len() == other.digest.len(),
                self.digest@.take(i as int) == other.digest@.take(i as int),
            decreases self.digest.len() - i,
        {
            if self.digest[i] != other.digest[i] {
                return false;
            }
            proof {
                assert(self.digest@.take(i + 1) == self.digest@.take(i as int).push(
                    self.digest@[i as int],
                ));
                assert(other.digest@.take(i + 1) == other.digest@.take(i as int).push(
                    other.digest@[i as int],
                ));
            }
            i += 1;
        }
        proof {
            assert(self.digest@.take(i as int) == self.digest@);
            assert(other.digest@.take(i as int) == other.digest@);
        }
        true
    }

    /// Whether `self` comes before `other` in the order of identifiers.
    pub fn is_less(&self, other: &Cid) -> (r: bool)
        ensures
            r == self@.lt(other@),
    {
        if self.version != other.version {
            return self.version < other.version;
        }
        if self.codec != other.codec {
            return self.codec < other.codec;
        }
        if self.hash_code != other.hash_code {
            return self.hash_code < other.hash_code;
        }
        if self.digest.len() != other.digest.len() {
            return self.digest.len() < other.digest.len();
        }
        let mut i: usize = 0;
        while i < self.digest.len()
            invariant
                i <= self.digest.len(),
                self.digest.len() == other.digest.len(),
                self@.lt(other@) == bytes_lt_from(self.digest@, other.digest@, i as int),
            decreases self.digest.len() - i,
        {
            if self.digest[i] != other.digest[i] {
                assert(bytes_lt_from(self.digest@, other.digest@, i as int) == (self.digest@[i as int]
                    < other.digest@[i as int]));
                return self.digest[i] < other.digest[i];
            }
            i += 1;
        }
        false
    }
}

} // verus!
