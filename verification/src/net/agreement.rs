//! Key agreement over X25519, and randomness.
use crate::octets::to_array_32;
use vstd::prelude::*;

verus! {

/// Length of a secret, of a public key and of a shared secret, in bytes.
pub const KEY_LEN: usize = 32;

/// The X25519 public key of a secret.
pub uninterp spec fn public_of(secret: Seq<u8>) -> Seq<u8>;

/// The secret that X25519 agrees on from one side's secret and the other's public key.
pub uninterp spec fn shared_of(secret: Seq<u8>, public: Seq<u8>) -> Seq<u8>;

/// `PublicKey::from` a `StaticSecret` of the `x25519-dalek` crate: the public key depends on the
/// secret alone.
#[verifier::external_body]
pub(crate) fn public_key(secret: &[u8; 32]) -> (public: [u8; 32])
    ensures
        public@ == public_of(secret@),
{
    x25519_dalek::PublicKey::from(&x25519_dalek::StaticSecret::from(*secret)).to_bytes()
}

/// Whoever holds the secret behind `theirs` agrees on `shared` with whoever has shown `mine`.
pub open spec fn agreed(shared: Seq<u8>, theirs: Seq<u8>, mine: Seq<u8>) -> bool {
    forall|s: Seq<u8>|
        s.len() == KEY_LEN && theirs == #[trigger] public_of(s) ==> shared == shared_of(s, mine)
}

/// `StaticSecret::diffie_hellman` of the `x25519-dalek` crate: the shared secret depends on the
/// secret and the other's public key alone, and the other side comes to the same one.
#[verifier::external_body]
pub(crate) fn diffie_hellman(secret: &[u8; 32], public: &[u8; 32]) -> (shared: [u8; 32])
    ensures
        shared@ == shared_of(secret@, public@),
        agreed(shared@, public@, public_of(secret@)),
{
    let theirs = x25519_dalek::PublicKey::from(*public);
    x25519_dalek::StaticSecret::from(*secret).diffie_hellman(&theirs).to_bytes()
}

/// `OsRng::try_fill_bytes` of the `rand` crate fills a buffer with random bytes, or fails with a
/// message where the system has none to give. Which bytes those are is up to chance.
#[verifier::external_body]
pub(crate) fn os_random(len: usize) -> (r: Result<Vec<u8>, String>)
    requires
        len <= KEY_LEN,
    ensures
        r matches Ok(bytes) ==> bytes@.len() == len,
{
    let mut bytes = vec![0u8; len];
    match rand::RngCore::try_fill_bytes(&mut rand::rngs::OsRng, &mut bytes) {
        Ok(()) => Ok(bytes),
        Err(e) => Err(e.to_string()),
    }
}

/// A key pair for one exchange.
pub struct EphemeralKey {
    secret: [u8; 32],
    public: [u8; 32],
}

impl EphemeralKey {
    /// The secret half.
    pub closed spec fn secret(self) -> Seq<u8> {
        self.secret@
    }

    /// The public half.
    pub open spec fn public(self) -> Seq<u8> {
        public_of(self.secret())
    }

    /// The halves belong together.
    #[verifier::type_invariant]
    spec fn well_formed(self) -> bool {
        self.public@ == public_of(self.secret@)
    }

    /// The key pair with the given secret.
    pub fn from_secret(secret: [u8; 32]) -> (key: Self)
        ensures
            key.secret() == secret@,
    {
        let public = public_key(&secret);
        EphemeralKey { secret, public }
    }

    /// A fresh key pair, or the message of the system's generator where it failed.
    pub fn random() -> (r: Result<Self, String>)
        ensures
            r matches Ok(key) ==> key.secret().len() == KEY_LEN,
    {
        match os_random(KEY_LEN) {
            Ok(bytes) => Ok(Self::from_secret(to_array_32(bytes.as_slice()))),
            Err(e) => Err(e),
        }
    }

    /// The public half.
    pub fn public_bytes(&self) -> (public: [u8; 32])
        ensures
            public@ == self.public(),
    {
        proof {
            use_type_invariant(self);
        }
        self.public
    }

    /// What is agreed on with whoever has shown `public`.
    pub fn agree(&self, public: &[u8; 32]) -> (shared: [u8; 32])
        ensures
            shared@ == shared_of(self.secret(), public@),
            agreed(shared@, public@, self.public()),
    {
        diffie_hellman(&self.secret, public)
    }
}

} // verus!
