use vstd::prelude::*;

verus! {

/// A record as a holder returns it: an opaque key and the value bytes.
#[derive(Clone, Debug, PartialEq, Eq)]
pub struct Record {
    pub key: Vec<u8>,
    pub value: Vec<u8>,
}

pub struct RecordView {
    pub key: Seq<u8>,
    pub value: Seq<u8>,
}

impl View for Record {
    type V = RecordView;

    open spec fn view(&self) -> RecordView {
        RecordView { key: self.key@, value: self.value@ }
    }
}

/// Who answered: a remote peer, by the bytes of its identity, or this node itself.
#[derive(Clone, Debug, PartialEq, Eq)]
pub enum Responder {
    Peer(Vec<u8>),
    Local,
}

/// The identity that a response counts under; a local copy counts as `self_peer`.
pub open spec fn responder_identity(responder: Responder, self_peer: Seq<u8>) -> Seq<u8> {
    match responder {
        Responder::Peer(p) => p@,
        Responder::Local => self_peer,
    }
}

/// The digest of a record's value under which its responses are grouped.
pub uninterp spec fn content_hash_of(value: Seq<u8>) -> Seq<u8>;

/// Relies on `xor_name::XorName::from_content`: the SHA3-256 digest of the
/// bytes, which depends on the bytes alone.
#[verifier::external_body]
pub(crate) fn content_hash(value: &Vec<u8>) -> (r: Vec<u8>)
    ensures
        r@ == content_hash_of(value@),
{
    xor_name::XorName::from_content(value).0.to_vec()
}

/// A copy of a byte string.
pub fn copy_bytes(b: &Vec<u8>) -> (r: Vec<u8>)
    ensures
        r@ == b@,
{
    let mut r: Vec<u8> = Vec::new();
    let mut i: usize = 0;
    while i < b.len()
        invariant
            i <= b.len(),
            r@ == b@.subrange(0, i as int),
        decreases b.len() - i,
    {
        r.push(b[i]);
        i = i + 1;
        assert(r@ =~= b@.subrange(0, i as int));
    }
    assert(r@ =~= b@);
    r
}

/// Whether two byte strings are equal.
pub fn bytes_equal(a: &Vec<u8>, b: &Vec<u8>) -> (r: bool)
    ensures
        r == (a@ == b@),
{
    if a.len() != b.len() {
        return false;
    }
    let mut i: usize = 0;
    while i < a.len()
        invariant
            a.len() == b.len(),
            i <= a.len(),
            a@.subrange(0, i as int) == b@.subrange(0, i as int),
        decreases a.len() - i,
    {
        if a[i] != b[i] {
            assert(a@[i as int] != b@[i as int]);
            return false;
        }
        i = i + 1;
        assert(a@.subrange(0, i as int) =~= a@.subrange(0, i as int - 1).push(a@[i as int - 1]));
        assert(b@.subrange(0, i as int) =~= b@.subrange(0, i as int - 1).push(b@[i as int - 1]));
    }
    assert(a@ =~= a@.subrange(0, a.len() as int));
    assert(b@ =~= b@.subrange(0, b.len() as int));
    true
}

impl Record {
    pub fn new(key: Vec<u8>, value: Vec<u8>) -> (r: Record)
        ensures
            r@ == (RecordView { key: key@, value: value@ }),
    {
        Record { key, value }
    }

    /// A copy of the record.
    pub fn duplicate(&self) -> (r: Record)
        ensures
            r@ == self@,
    {
        Record { key: copy_bytes(&self.key), value: copy_bytes(&self.value) }
    }
}

impl Responder {
    /// The identity the response counts under, given this node's own identity.
    pub fn identity(&self, self_peer: &Vec<u8>) -> (r: Vec<u8>)
        ensures
            r@ == responder_identity(*self, self_peer@),
    {
        match self {
            Responder::Peer(p) => copy_bytes(p),
            Responder::Local => copy_bytes(self_peer),
        }
    }
}

} // verus!
