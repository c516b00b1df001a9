//! The key data that a client keeps to introduce and authenticate itself.

use vstd::prelude::*;
use vstd::std_specs::convert::FromSpecImpl;

use crate::model::EndpointId;
use crate::primitives::{random_bytes, spec_x25519, x25519, BASEPOINT};

verus! {

/// The key data for a new client which has not introduced themselves yet to
/// the server.
pub struct NewClientKey {
    secret: [u8; 32],
    public_key: [u8; 32],
}

impl NewClientKey {
    /// The client's X25519 secret.
    pub closed spec fn secret(&self) -> [u8; 32] {
        self.secret
    }

    /// The client's X25519 public key, which identifies the client.
    pub closed spec fn public_key(&self) -> [u8; 32] {
        self.public_key
    }

    /// The public key is the one that belongs to the secret.
    pub open spec fn well_formed(&self) -> bool {
        self.public_key() == spec_x25519(self.secret(), BASEPOINT)
    }

    /// Every key value is well formed: no key holds a public key that does
    /// not belong to its secret.
    #[verifier::type_invariant]
    closed spec fn inv(self) -> bool {
        self.well_formed()
    }

    /// Create a new, random client key.
    pub fn new() -> (res: Self)
        ensures
            res.well_formed(),
    {
        NewClientKey::from_secret(random_bytes())
    }

    /// The client key whose X25519 secret is `secret`.
    pub fn from_secret(secret: [u8; 32]) -> (res: Self)
        ensures
            res.secret() == secret,
            res.well_formed(),
    {
        let public_key = x25519(secret, BASEPOINT);
        NewClientKey { secret, public_key }
    }

    /// Exchange keys with the server, consuming this key data and producing
    /// a new set with the shared secret.
    pub fn exchange(self, server: &EndpointId) -> (res: AuthKey)
        ensures
            res.public_key() == self.public_key(),
            res.shared_secret() == spec_x25519(self.secret(), server.0),
            // Whoever holds the secret `b` of the server's public key derives
            // the same shared secret from this client's public key.
            forall|b: [u8; 32]|
                server.0 == spec_x25519(b, BASEPOINT) ==> res.shared_secret() == spec_x25519(
                    b,
                    self.public_key(),
                ),
    {
        proof {
            use_type_invariant(&self);
        }
        let shared_secret = x25519(self.secret, server.0);
        AuthKey { public_key: self.public_key, shared_secret }
    }
}

/// The key data for a client which has introduced themselves to the server.
/// This contains a shared secret, by which a client can authenticate
/// themselves when reconnecting.
pub struct AuthKey {
    public_key: [u8; 32],
    shared_secret: [u8; 32],
}

impl AuthKey {
    /// The client's X25519 public key.
    pub closed spec fn public_key(&self) -> [u8; 32] {
        self.public_key
    }

    /// The secret shared with the server.
    pub closed spec fn shared_secret(&self) -> [u8; 32] {
        self.shared_secret
    }

    /// The bytes of the secret shared with the server, the key by which the
    /// client authenticates a challenge.
    pub fn secret_bytes(&self) -> (res: [u8; 32])
        ensures
            res == self.shared_secret(),
    {
        self.shared_secret
    }
}

impl<'a> From<&'a NewClientKey> for EndpointId {
    fn from(f: &'a NewClientKey) -> (res: EndpointId) {
        EndpointId(f.public_key)
    }
}

impl<'a> FromSpecImpl<&'a NewClientKey> for EndpointId {
    open spec fn obeys_from_spec() -> bool {
        true
    }

    open spec fn from_spec(f: &'a NewClientKey) -> EndpointId {
        EndpointId(f.public_key())
    }
}

impl<'a> From<&'a AuthKey> for EndpointId {
    fn from(f: &'a AuthKey) -> (res: EndpointId) {
        EndpointId(f.public_key)
    }
}

impl<'a> FromSpecImpl<&'a AuthKey> for EndpointId {
    open spec fn obeys_from_spec() -> bool {
        true
    }

    open spec fn from_spec(f: &'a AuthKey) -> EndpointId {
        EndpointId(f.public_key())
    }
}

} // verus!
