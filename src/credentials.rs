//! Credential management and verification.

use vstd::prelude::*;
use vstd::string::StringSliceAdditionalSpecFns;

verus! {

/// Kind of a stored credential.
#[derive(Debug, Clone, Copy, PartialEq, Eq, Structural)]
pub enum CredentialType {
    /// Password-based credential
    Password,
    /// Certificate-based credential
    Certificate,
    /// Token-based credential
    Token,
    /// Phase-resonant credential
    PhaseResonant,
}

/// A credential: its kind and its raw bytes.
#[derive(Debug, Clone)]
pub struct Credential {
    pub cred_type: CredentialType,
    pub data: Vec<u8>,
}

impl Credential {
    /// A password credential holding the UTF-8 bytes of `password`.
    pub fn new_password(password: &str) -> (r: Credential)
        ensures
            r.cred_type == CredentialType::Password,
            r.data@ == password.spec_bytes(),
    {
        let bytes = password.as_bytes();
        let mut data: Vec<u8> = Vec::new();
        let mut i: usize = 0;
        while i < bytes.len()
            invariant
                i <= bytes@.len(),
                bytes@ == password.spec_bytes(),
                data@ == bytes@.subrange(0, i as int),
            decreases bytes@.len() - i,
        {
            data.push(bytes[i]);
            i = i + 1;
        }
        assert(data@ =~= bytes@);
        Credential { cred_type: CredentialType::Password, data }
    }

    /// True exactly when this is a password credential whose bytes are those of
    /// `password`.
    pub fn verify_password(&self, password: &str) -> (r: bool)
        ensures
            r == (self.cred_type == CredentialType::Password && self.data@ == password.spec_bytes()),
    {
        if self.cred_type != CredentialType::Password {
            return false;
        }
        let bytes = password.as_bytes();
        if bytes.len() != self.data.len() {
            return false;
        }
        let mut i: usize = 0;
        while i < bytes.len()
            invariant
                i <= bytes@.len(),
                bytes@.len() == self.data@.len(),
                bytes@ == password.spec_bytes(),
                forall|k: int| 0 <= k < i ==> bytes@[k] == self.data@[k],
            decreases bytes@.len() - i,
        {
            if bytes[i] != self.data[i] {
                return false;
            }
            i = i + 1;
        }
        assert(self.data@ =~= bytes@);
        true
    }
}

} // verus!
