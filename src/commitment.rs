use vstd::prelude::*;

use crate::random::random_bytes;
use crate::value::Value;

verus! {

/// Length in bytes of the random nonce that hides a committed value.
pub const NONCE_LEN: usize = 32;

/// The BLAKE3 digest of a byte string.
pub uninterp spec fn blake3_digest(input: Seq<u8>) -> Seq<u8>;

/// Relies on `blake3::hash`: the 32-byte BLAKE3 digest of `input`.
#[verifier::external_body]
fn blake3_hash(input: &[u8]) -> (r: Vec<u8>)
    ensures
        r@ == blake3_digest(input@),
        r@.len() == 32,
{
    blake3::hash(input).as_bytes().to_vec()
}

/// The bytes that are hashed to commit to `value` under `nonce`: the value's
/// number, then the nonce.
pub open spec fn commitment_input(value: Value, nonce: Seq<u8>) -> Seq<u8> {
    seq![value.numeric() as u8] + nonce
}

/// The digest of a commitment to `value` under `nonce`.
pub open spec fn commitment_digest(value: Value, nonce: Seq<u8>) -> Seq<u8> {
    blake3_digest(commitment_input(value, nonce))
}

/// Distinct keys give distinct hashed inputs.
pub proof fn lemma_commitment_input_injective(value: Value, nonce: Seq<u8>, value2: Value, nonce2: Seq<u8>)
    ensures
        (commitment_input(value, nonce) == commitment_input(value2, nonce2)) == (value == value2
            && nonce == nonce2),
{
    let a = commitment_input(value, nonce);
    let b = commitment_input(value2, nonce2);
    if a == b {
        assert(a[0] == b[0]);
        Value::lemma_index_injective(value, value2);
        assert(a.subrange(1, a.len() as int) =~= nonce);
        assert(b.subrange(1, b.len() as int) =~= nonce2);
    }
}

/// Binding: the commitment to `value` under `nonce` opens with the key
/// `(value2, nonce2)` when the two keys are equal, and otherwise only when
/// their two distinct hashed inputs collide under BLAKE3.
pub proof fn lemma_binding(value: Value, nonce: Seq<u8>, value2: Value, nonce2: Seq<u8>)
    ensures
        commitment_digest(value2, nonce2) == commitment_digest(value, nonce) <==> ((value == value2
            && nonce == nonce2) || (commitment_input(value, nonce) != commitment_input(value2, nonce2)
            && blake3_digest(commitment_input(value, nonce)) == blake3_digest(
            commitment_input(value2, nonce2),
        ))),
{
    lemma_commitment_input_injective(value, nonce, value2, nonce2);
}

/// The digest of a commitment to `value` under `nonce`.
pub fn compute_hash(value: Value, nonce: &[u8]) -> (r: Vec<u8>)
    ensures
        r@ == commitment_digest(value, nonce@),
        r@.len() == 32,
{
    let mut input: Vec<u8> = Vec::new();
    input.push(value.to_numeric());
    for i in 0..nonce.len()
        invariant
            input@ == seq![value.numeric() as u8] + nonce@.subrange(0, i as int),
    {
        input.push(nonce[i]);
        assert(input@ =~= seq![value.numeric() as u8] + nonce@.subrange(0, i + 1));
    }
    assert(nonce@.subrange(0, nonce@.len() as int) =~= nonce@);
    blake3_hash(input.as_slice())
}

/// Whether two byte strings are equal.
pub fn bytes_equal(a: &[u8], b: &[u8]) -> (r: bool)
    ensures
        r == (a@ == b@),
{
    if a.len() != b.len() {
        return false;
    }
    for i in 0..a.len()
        invariant
            a@.len() == b@.len(),
            forall|j: int| 0 <= j < i ==> a@[j] == b@[j],
    {
        if a[i] != b[i] {
            return false;
        }
    }
    assert(a@ =~= b@);
    true
}

/// A copy of a byte string.
fn copy_bytes(a: &[u8]) -> (r: Vec<u8>)
    ensures
        r@ == a@,
{
    let mut r: Vec<u8> = Vec::new();
    for i in 0..a.len()
        invariant
            r@ == a@.subrange(0, i as int),
    {
        r.push(a[i]);
        assert(r@ =~= a@.subrange(0, i + 1));
    }
    assert(a@.subrange(0, a@.len() as int) =~= a@);
    r
}

/// The state of a commitment whose value is still hidden.
#[derive(Debug, Clone, Copy)]
pub struct Hidden;

/// The state of a commitment that has been opened: it holds the key that
/// was checked against the digest.
#[derive(Debug, Clone)]
pub struct Revealed {
    key: CommitmentKey,
}

/// What opens a commitment: the committed value and the nonce that hid it.
#[derive(Debug, Clone)]
pub struct CommitmentKey {
    value: Value,
    nonce: Vec<u8>,
}

impl View for CommitmentKey {
    type V = (Value, Seq<u8>);

    closed spec fn view(&self) -> (Value, Seq<u8>) {
        (self.value, self.nonce@)
    }
}

impl CommitmentKey {
    pub open spec fn spec_value(&self) -> Value {
        self@.0
    }

    pub open spec fn spec_nonce(&self) -> Seq<u8> {
        self@.1
    }

    /// The digest that this key opens.
    pub open spec fn digest(&self) -> Seq<u8> {
        commitment_digest(self.spec_value(), self.spec_nonce())
    }

    pub fn new(value: Value, nonce: Vec<u8>) -> (r: CommitmentKey)
        ensures
            r.spec_value() == value,
            r.spec_nonce() == nonce@,
    {
        CommitmentKey { value, nonce }
    }

    pub fn value(&self) -> (r: Value)
        ensures
            r == self.spec_value(),
    {
        self.value
    }

    pub fn nonce(&self) -> (r: &[u8])
        ensures
            r@ == self.spec_nonce(),
    {
        self.nonce.as_slice()
    }

    /// A key with the same value and nonce.
    pub fn duplicate(&self) -> (r: CommitmentKey)
        ensures
            r@ == self@,
    {
        CommitmentKey { value: self.value, nonce: copy_bytes(self.nonce.as_slice()) }
    }
}

/// A hash-binding commitment to a value, made for one node of the graph. In
/// state `Hidden` only the digest can be read; a successful `reveal_with_key` gives
/// the state `Revealed`, which holds the key.
#[derive(Debug, Clone)]
pub struct Commitment<S = Hidden> {
    hash: Vec<u8>,
    node_id: usize,
    state: S,
}

/// Errors of opening a commitment.
#[derive(Debug, Clone, Copy, PartialEq, Eq, Structural)]
pub enum CommitmentError {
    /// The key does not hash to the committed digest.
    InvalidReveal,
}

impl<S> Commitment<S> {
    pub closed spec fn digest(&self) -> Seq<u8> {
        self.hash@
    }

    pub closed spec fn spec_node_id(&self) -> usize {
        self.node_id
    }

    pub fn node_id(&self) -> (r: usize)
        ensures
            r == self.spec_node_id(),
    {
        self.node_id
    }

    pub fn hash(&self) -> (r: &[u8])
        ensures
            r@ == self.digest(),
    {
        self.hash.as_slice()
    }

    /// Whether `key` hashes to the committed digest.
    pub fn verify_hash(&self, key: &CommitmentKey) -> (r: bool)
        ensures
            r == (key.digest() == self.digest()),
    {
        let h = compute_hash(key.value(), key.nonce());
        bytes_equal(h.as_slice(), self.hash.as_slice())
    }
}

impl Commitment<Hidden> {
    /// A commitment to `value` for node `node_id`, under a fresh random
    /// nonce of `NONCE_LEN` bytes, with the key that opens it.
    pub fn new(value: Value, node_id: usize) -> (r: (Commitment<Hidden>, CommitmentKey))
        ensures
            r.1.spec_value() == value,
            r.1.spec_nonce().len() == NONCE_LEN,
            r.0.spec_node_id() == node_id,
            r.0.digest() == r.1.digest(),
    {
        let nonce = random_bytes(NONCE_LEN);
        Commitment::with_nonce(value, node_id, nonce)
    }

    /// The commitment to `value` for node `node_id` under the given nonce,
    /// with the key that opens it.
    pub fn with_nonce(value: Value, node_id: usize, nonce: Vec<u8>) -> (r: (
        Commitment<Hidden>,
        CommitmentKey,
    ))
        ensures
            r.1.spec_value() == value,
            r.1.spec_nonce() == nonce@,
            r.0.spec_node_id() == node_id,
            r.0.digest() == commitment_digest(value, nonce@),
    {
        let hash = compute_hash(value, nonce.as_slice());
        (Commitment { hash, node_id, state: Hidden }, CommitmentKey { value, nonce })
    }

    /// A commitment with the same digest and node.
    pub fn duplicate(&self) -> (r: Commitment<Hidden>)
        ensures
            r.digest() == self.digest(),
            r.spec_node_id() == self.spec_node_id(),
    {
        Commitment { hash: copy_bytes(self.hash.as_slice()), node_id: self.node_id, state: Hidden }
    }

    /// Opens the commitment with `key`: succeeds exactly when the key hashes
    /// to the committed digest, and then the result holds the key.
    pub fn reveal_with_key(self, key: CommitmentKey) -> (r: Result<Commitment<Revealed>, CommitmentError>)
        ensures
            r is Ok <==> key.digest() == self.digest(),
            r is Err ==> r->Err_0 == CommitmentError::InvalidReveal,
            r is Ok ==> r->Ok_0.digest() == self.digest() && r->Ok_0.spec_node_id()
                == self.spec_node_id() && r->Ok_0.spec_key()@ == key@,
    {
        if self.verify_hash(&key) {
            Ok(Commitment { hash: self.hash, node_id: self.node_id, state: Revealed { key } })
        } else {
            Err(CommitmentError::InvalidReveal)
        }
    }
}

impl Commitment<Revealed> {
    pub closed spec fn spec_key(&self) -> CommitmentKey {
        self.state.key
    }

    /// The key that opened the commitment.
    pub fn key(&self) -> (r: &CommitmentKey)
        ensures
            *r == self.spec_key(),
    {
        &self.state.key
    }
}

} // verus!
