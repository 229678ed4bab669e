//! Hashes and signatures of byte string objects.

use crate::budget::ContractCostType;
use crate::crypto::{
    ed25519_key_is_valid, ed25519_verifies, ed25519_verify, is_ed25519_key, is_secp256k1_signature, keccak256,
    keccak256_hash, secp256k1_recover, secp256k1_recovered, secp256k1_signature_is_valid, sha256, sha256_hash,
};
use crate::error::{Fault, HostError, ScErrorCode, ScErrorType};
use crate::host::{charge, fails, runs_out, Host};
use crate::host_int::size_fault;
use crate::host_object::{bytes_handle, gives_up, looks_at, stores, stores_blob};
use crate::model::{BlobKind, ObjModel};
use crate::util::copy_bytes;
use crate::val::{BytesObject, ObjectTag};
use vstd::prelude::*;

verus! {

/// The fault of a key or a signature that is none, or is not good.
pub open spec fn crypto_fault() -> Fault {
    (ScErrorType::Crypto, ScErrorCode::InvalidInput)
}

/// A byte string object that must have a length is read.
pub open spec fn reads_fixed(host: Host, obj: BytesObject, len: nat) -> (Host, Result<Seq<u8>, HostError>) {
    match looks_at(host, obj.handle, ObjectTag::BytesObject) {
        (h, Err(e)) => (h, Err(e)),
        (h, Ok(o)) => (
            h,
            if o->Blob_1.len() == len {
                Ok(o->Blob_1)
            } else {
                Err(h.spec_err(size_fault()))
            },
        ),
    }
}

/// A hash is made into an object, after the making of it was charged for.
pub open spec fn stores_hash(
    pre: Host,
    post: Host,
    cost: ContractCostType,
    length: nat,
    hash: Seq<u8>,
    res: Result<u32, HostError>,
) -> bool {
    let charged = charge(pre, cost, Some(length as u64));
    if charged.1 is Err {
        runs_out(charged, post, res)
    } else {
        stores(charged.0, post, ObjModel::Blob(BlobKind::Bytes, hash), res)
    }
}

/// A signature of Ed25519 is checked. Making the key and checking the signature
/// are charged for.
pub open spec fn checks_ed25519(host: Host, k: BytesObject, x: BytesObject, s: BytesObject) -> (
    Host,
    Result<(), HostError>,
) {
    match reads_fixed(host, k, 32) {
        (h, Err(e)) => (h, Err(e)),
        (h, Ok(key)) => match charge(h, ContractCostType::ComputeEd25519PubKey, None) {
            (h, Err(e)) => (h, Err(e)),
            (h, Ok(_)) => if !is_ed25519_key(key) {
                (h, Err(h.spec_err(crypto_fault())))
            } else {
                match reads_fixed(h, s, 64) {
                    (h, Err(e)) => (h, Err(e)),
                    (h, Ok(signature)) => match looks_at(h, x.handle, ObjectTag::BytesObject) {
                        (h, Err(e)) => (h, Err(e)),
                        (h, Ok(obj)) => match charge(
                            h,
                            ContractCostType::VerifyEd25519Sig,
                            Some(obj->Blob_1.len() as u64),
                        ) {
                            (h, Err(e)) => (h, Err(e)),
                            (h, Ok(_)) => (
                                h,
                                if ed25519_verifies(key, obj->Blob_1, signature) {
                                    Ok(())
                                } else {
                                    Err(h.spec_err(crypto_fault()))
                                },
                            ),
                        },
                    },
                }
            },
        },
    }
}

/// The key that a signature of ECDSA over secp256k1 was made with is found. Making
/// the signature and finding the key are charged for.
pub open spec fn recovers_secp256k1(
    host: Host,
    msg_digest: BytesObject,
    signature: BytesObject,
    recovery_id: u32,
) -> (Host, Result<Seq<u8>, HostError>) {
    match reads_fixed(host, signature, 64) {
        (h, Err(e)) => (h, Err(e)),
        (h, Ok(sig)) => match charge(h, ContractCostType::ComputeEcdsaSecp256k1Sig, None) {
            (h, Err(e)) => (h, Err(e)),
            (h, Ok(_)) => if !is_secp256k1_signature(sig) || recovery_id > 3 {
                (h, Err(h.spec_err(crypto_fault())))
            } else {
                match reads_fixed(h, msg_digest, 32) {
                    (h, Err(e)) => (h, Err(e)),
                    (h, Ok(digest)) => match charge(h, ContractCostType::RecoverEcdsaSecp256k1Key, None) {
                        (h, Err(e)) => (h, Err(e)),
                        (h, Ok(_)) => (
                            h,
                            match secp256k1_recovered(digest, sig, recovery_id as u8) {
                                None => Err(h.spec_err(crypto_fault())),
                                Some(key) => Ok(key),
                            },
                        ),
                    },
                }
            },
        },
    }
}

impl Host {
    fn fixed_length_bytes(&mut self, obj: BytesObject, len: usize) -> (res: Result<Vec<u8>, HostError>)
        requires
            old(self).wf(),
        ensures
            final(self).wf(),
            *final(self) == reads_fixed(*old(self), obj, len as nat).0,
            match res {
                Ok(s) => {
                    &&& reads_fixed(*old(self), obj, len as nat).1 == Ok::<Seq<u8>, HostError>(s@)
                    &&& s@.len() == len
                },
                Err(e) => reads_fixed(*old(self), obj, len as nat).1 == Err::<Seq<u8>, HostError>(e),
            },
    {
        self.charge_visit()?;
        let s = copy_bytes(self.visit_bytes(obj)?.as_slice());
        self.check_length(s.as_slice(), len)?;
        Ok(s)
    }

    /// The SHA-256 hash of a byte string.
    pub fn compute_hash_sha256(&mut self, x: BytesObject) -> (res: Result<BytesObject, HostError>)
        requires
            old(self).wf(),
        ensures
            final(self).wf(),
            does_compute_hash_sha256(*old(self), *final(self), x, res),
    {
        self.charge_visit()?;
        let message = copy_bytes(self.visit_bytes(x)?.as_slice());
        self.charge_budget(ContractCostType::ComputeSha256Hash, Some(message.len() as u64))?;
        let hash = sha256(message.as_slice());
        self.add_bytes(hash)
    }

    /// The Keccak-256 hash of a byte string.
    pub fn compute_hash_keccak256(&mut self, x: BytesObject) -> (res: Result<BytesObject, HostError>)
        requires
            old(self).wf(),
        ensures
            final(self).wf(),
            does_compute_hash_keccak256(*old(self), *final(self), x, res),
    {
        self.charge_visit()?;
        let message = copy_bytes(self.visit_bytes(x)?.as_slice());
        self.charge_budget(ContractCostType::ComputeKeccak256Hash, Some(message.len() as u64))?;
        let hash = keccak256(message.as_slice());
        self.add_bytes(hash)
    }

    /// Fails unless a signature of Ed25519 is good for a key and a message.
    pub fn verify_sig_ed25519(&mut self, k: BytesObject, x: BytesObject, s: BytesObject) -> (res: Result<
        (),
        HostError,
    >)
        requires
            old(self).wf(),
        ensures
            final(self).wf(),
            (*final(self), res) == checks_ed25519(*old(self), k, x, s),
    {
        let key = self.fixed_length_bytes(k, 32)?;
        self.charge_budget(ContractCostType::ComputeEd25519PubKey, None)?;
        if !ed25519_key_is_valid(key.as_slice()) {
            return Err(self.err(ScErrorType::Crypto, ScErrorCode::InvalidInput));
        }
        let signature = self.fixed_length_bytes(s, 64)?;
        self.charge_visit()?;
        let message = copy_bytes(self.visit_bytes(x)?.as_slice());
        self.charge_budget(ContractCostType::VerifyEd25519Sig, Some(message.len() as u64))?;
        self.verify_sig_ed25519_internal(
            ed25519_verify(key.as_slice(), message.as_slice(), signature.as_slice()),
        )
    }

    /// Fails unless a signature was found to be good.
    pub fn verify_sig_ed25519_internal(&self, is_good: bool) -> (res: Result<(), HostError>)
        ensures
            res == if is_good {
                Ok::<(), HostError>(())
            } else {
                Err(self.spec_err(crypto_fault()))
            },
    {
        if is_good {
            Ok(())
        } else {
            Err(self.err(ScErrorType::Crypto, ScErrorCode::InvalidInput))
        }
    }

    /// The public key that a signature of ECDSA over secp256k1 was made with.
    pub fn recover_key_ecdsa_secp256k1(
        &mut self,
        msg_digest: BytesObject,
        signature: BytesObject,
        recovery_id: u32,
    ) -> (res: Result<BytesObject, HostError>)
        requires
            old(self).wf(),
        ensures
            final(self).wf(),
            does_recover_key_ecdsa_secp256k1(*old(self), *final(self), msg_digest, signature, recovery_id, res),
    {
        let sig = self.fixed_length_bytes(signature, 64)?;
        self.charge_budget(ContractCostType::ComputeEcdsaSecp256k1Sig, None)?;
        if !secp256k1_signature_is_valid(sig.as_slice()) || recovery_id > 3 {
            return Err(self.err(ScErrorType::Crypto, ScErrorCode::InvalidInput));
        }
        let digest = self.fixed_length_bytes(msg_digest, 32)?;
        self.charge_budget(ContractCostType::RecoverEcdsaSecp256k1Key, None)?;
        let recovered = secp256k1_recover(digest.as_slice(), sig.as_slice(), recovery_id as u8);
        self.recover_key_ecdsa_secp256k1_internal(recovered)
    }

    /// The object of a key that was recovered; fails if none was.
    pub fn recover_key_ecdsa_secp256k1_internal(&mut self, recovered: Option<Vec<u8>>) -> (res: Result<
        BytesObject,
        HostError,
    >)
        requires
            old(self).wf(),
        ensures
            final(self).wf(),
            match recovered {
                None => fails(*old(self), *final(self), res, crypto_fault()),
                Some(key) => stores_blob(*old(self), *final(self), BlobKind::Bytes, key@, bytes_handle(res)),
            },
    {
        match recovered {
            Some(key) => self.add_bytes(key),
            None => Err(self.err(ScErrorType::Crypto, ScErrorCode::InvalidInput)),
        }
    }
}

/// What `compute_hash_sha256` does.
pub open spec fn does_compute_hash_sha256(
    pre: Host,
    post: Host,
    x: BytesObject,
    res: Result<BytesObject, HostError>,
) -> bool {
    match looks_at(pre, x.handle, ObjectTag::BytesObject) {
        (h, Err(e)) => gives_up(h, post, res, e),
        (h, Ok(obj)) => stores_hash(
            h,
            post,
            ContractCostType::ComputeSha256Hash,
            obj->Blob_1.len(),
            sha256_hash(obj->Blob_1),
            bytes_handle(res),
        ),
    }
}

/// What `compute_hash_keccak256` does.
pub open spec fn does_compute_hash_keccak256(
    pre: Host,
    post: Host,
    x: BytesObject,
    res: Result<BytesObject, HostError>,
) -> bool {
    match looks_at(pre, x.handle, ObjectTag::BytesObject) {
        (h, Err(e)) => gives_up(h, post, res, e),
        (h, Ok(obj)) => stores_hash(
            h,
            post,
            ContractCostType::ComputeKeccak256Hash,
            obj->Blob_1.len(),
            keccak256_hash(obj->Blob_1),
            bytes_handle(res),
        ),
    }
}

/// What `recover_key_ecdsa_secp256k1` does.
pub open spec fn does_recover_key_ecdsa_secp256k1(
    pre: Host,
    post: Host,
    msg_digest: BytesObject,
    signature: BytesObject,
    recovery_id: u32,
    res: Result<BytesObject, HostError>,
) -> bool {
    match recovers_secp256k1(pre, msg_digest, signature, recovery_id) {
        (h, Err(e)) => gives_up(h, post, res, e),
        (h, Ok(key)) => stores(h, post, ObjModel::Blob(BlobKind::Bytes, key), bytes_handle(res)),
    }
}

} // verus!
