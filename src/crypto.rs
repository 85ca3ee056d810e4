use vstd::prelude::*;
use libp2p::identity::Keypair;
use std::hash::{Hash, Hasher};

verus! {

/// The id that std's default hasher gives a payload.
pub uninterp spec fn content_hash(payload: Seq<u8>) -> u64;

/// Whether `sig` is a valid signature of `msg` under the protobuf-encoded public key `key`.
pub uninterp spec fn signature_valid(key: Seq<u8>, msg: Seq<u8>, sig: Seq<u8>) -> bool;

/// The peer id (its bytes) derived from the protobuf-encoded public key `key`,
/// or `None` where `key` does not decode.
pub uninterp spec fn key_peer_id(key: Seq<u8>) -> Option<Seq<u8>>;

/// The protobuf-encoded ed25519 public key that belongs to the 32-byte secret `secret`.
pub uninterp spec fn ed25519_public_key(secret: Seq<u8>) -> Seq<u8>;

/// Relies on libp2p's `ed25519::SecretKey::generate`: 32 fresh random bytes.
#[verifier::external_body]
pub(crate) fn generate_secret() -> (r: Vec<u8>)
    ensures
        r@.len() == 32,
{
    libp2p::identity::ed25519::SecretKey::generate().as_ref().to_vec()
}

/// Relies on libp2p's `Keypair::ed25519_from_bytes`, `Keypair::public` and
/// `PublicKey::encode_protobuf`: the encoded public key of a 32-byte secret,
/// which decodes back to a key and so has a peer id.
#[verifier::external_body]
pub(crate) fn public_key_of_secret(secret: &Vec<u8>) -> (r: Vec<u8>)
    requires
        secret@.len() == 32,
    ensures
        r@ == ed25519_public_key(secret@),
        key_peer_id(r@) is Some,
{
    match Keypair::ed25519_from_bytes(secret.clone()) {
        Ok(kp) => kp.public().encode_protobuf(),
        Err(_) => Vec::new(),
    }
}

/// Relies on libp2p's `Keypair::ed25519_from_bytes` and `Keypair::sign`: with an
/// ed25519 key, signing always succeeds, and the signature verifies under the
/// matching public key.
#[verifier::external_body]
pub(crate) fn sign_with_secret(secret: &Vec<u8>, msg: &Vec<u8>) -> (r: Vec<u8>)
    requires
        secret@.len() == 32,
    ensures
        signature_valid(ed25519_public_key(secret@), msg@, r@),
{
    match Keypair::ed25519_from_bytes(secret.clone()).map(|kp| kp.sign(msg)) {
        Ok(Ok(sig)) => sig,
        _ => Vec::new(),
    }
}

/// Relies on libp2p's `PublicKey::try_decode_protobuf`, `PublicKey::to_peer_id` and
/// `PeerId::to_bytes`: a function of the key bytes alone.
#[verifier::external_body]
pub(crate) fn peer_id_of_key(key: &Vec<u8>) -> (r: Option<Vec<u8>>)
    ensures
        match r {
            Some(v) => key_peer_id(key@) == Some(v@),
            None => key_peer_id(key@) is None,
        },
{
    libp2p::identity::PublicKey::try_decode_protobuf(key).ok().map(|k| k.to_peer_id().to_bytes())
}

/// Relies on libp2p's `PublicKey::try_decode_protobuf` and `PublicKey::verify`:
/// a key that does not decode verifies nothing.
#[verifier::external_body]
pub(crate) fn verify_signature(key: &Vec<u8>, msg: &Vec<u8>, sig: &Vec<u8>) -> (r: bool)
    ensures
        r == signature_valid(key@, msg@, sig@),
{
    match libp2p::identity::PublicKey::try_decode_protobuf(key) {
        Ok(k) => k.verify(msg, sig),
        Err(_) => false,
    }
}

/// Relies on std's `DefaultHasher` (created by `new`, so with fixed keys):
/// the hash of the payload bytes.
#[verifier::external_body]
pub(crate) fn hash_payload(payload: &Vec<u8>) -> (r: u64)
    ensures
        r == content_hash(payload@),
{
    let mut s = std::collections::hash_map::DefaultHasher::new();
    payload.hash(&mut s);
    s.finish()
}

/// The content-addressed id of a payload: it depends on the payload bytes alone.
pub fn message_id(payload: &Vec<u8>) -> (r: u64)
    ensures
        r == content_hash(payload@),
{
    hash_payload(payload)
}

/// Computing the id twice on equal payloads gives the same id.
pub proof fn lemma_message_id_deterministic(a: Seq<u8>, b: Seq<u8>)
    requires
        a == b,
    ensures
        content_hash(a) == content_hash(b),
{
}

/// This node's ed25519 secret, with its encoded public key and its peer id.
pub struct Identity {
    secret: Vec<u8>,
    public_key: Vec<u8>,
    peer_id: Vec<u8>,
}

impl Identity {
    pub closed spec fn secret_view(&self) -> Seq<u8> {
        self.secret@
    }

    pub closed spec fn peer_id_view(&self) -> Seq<u8> {
        self.peer_id@
    }

    pub closed spec fn public_key_view(&self) -> Seq<u8> {
        self.public_key@
    }

    /// The secret is 32 bytes, the public key is its own, and the peer id is
    /// the one derived from that key.
    pub closed spec fn wf(&self) -> bool {
        &&& self.secret@.len() == 32
        &&& self.public_key@ == ed25519_public_key(self.secret@)
        &&& key_peer_id(self.public_key@) == Some(self.peer_id@)
    }

    /// The peer id of a well-formed identity is the one its public key gives.
    pub proof fn lemma_peer_id_of_key(&self)
        requires
            self.wf(),
        ensures
            key_peer_id(self.public_key_view()) == Some(self.peer_id_view()),
    {
    }

    /// The identity of a 32-byte ed25519 secret; `None` for any other length.
    pub fn from_secret(secret: Vec<u8>) -> (r: Option<Identity>)
        ensures
            r is Some <==> secret@.len() == 32,
            r matches Some(id) ==> id.wf() && id.secret_view() == secret@,
    {
        if secret.len() != 32 {
            return None;
        }
        let public_key = public_key_of_secret(&secret);
        match peer_id_of_key(&public_key) {
            Some(peer_id) => Some(Identity { secret, public_key, peer_id }),
            None => None,
        }
    }

    /// A fresh identity.
    pub fn generate() -> (r: Identity)
        ensures
            r.wf(),
    {
        let secret = generate_secret();
        match Identity::from_secret(secret) {
            Some(id) => id,
            None => {
                assert(false);
                Identity { secret: Vec::new(), public_key: Vec::new(), peer_id: Vec::new() }
            },
        }
    }

    /// The secret, for building the transport's keypair from it.
    pub fn secret(&self) -> (r: &Vec<u8>)
        ensures
            r@ == self.secret_view(),
    {
        &self.secret
    }

    pub fn peer_id(&self) -> (r: &Vec<u8>)
        ensures
            r@ == self.peer_id_view(),
    {
        &self.peer_id
    }

    pub fn public_key(&self) -> (r: &Vec<u8>)
        ensures
            r@ == self.public_key_view(),
    {
        &self.public_key
    }

    /// A signature of `msg` that verifies under this identity's public key.
    pub fn sign(&self, msg: &Vec<u8>) -> (r: Vec<u8>)
        requires
            self.wf(),
        ensures
            signature_valid(self.public_key_view(), msg@, r@),
    {
        sign_with_secret(&self.secret, msg)
    }
}

} // verus!
