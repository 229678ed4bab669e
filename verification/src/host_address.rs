//! Addresses and the bytes that they are made of.

use crate::bignum::{be_bytes, lemma_be_bytes_len, u256_to_be_bytes};
use crate::error::HostError;
use crate::host::{charge_bulk, runs_out, Host};
use crate::host_contract::{lemma_u256_of_int, u256_of_int};
use crate::host_convert::{adds, push_obj};
use crate::host_int::reads_number;
use crate::host_object::{address_handle, gives_up, looks_at, stores};
use crate::model::{AccountId, BlobKind, Hash32, ObjModel, ScAddress};
use crate::val::{AddressObject, BytesObject, Object, ObjectTag, Val};
use vstd::prelude::*;

verus! {

/// The bytes of the key of an account, if an address is of an account.
pub open spec fn account_key_bytes(a: ScAddress) -> Option<Seq<u8>> {
    match a {
        ScAddress::Account(account) => Some(be_bytes(account.0@, 32)),
        ScAddress::Contract(_) => None,
    }
}

/// The bytes of the id of a contract, if an address is of a contract.
pub open spec fn contract_id_bytes(a: ScAddress) -> Option<Seq<u8>> {
    match a {
        ScAddress::Account(_) => None,
        ScAddress::Contract(id) => Some(be_bytes(id.0@, 32)),
    }
}

/// Bytes, if there are any, are made into a value. Copying them is charged for.
pub open spec fn adds_bytes(pre: Host, post: Host, bytes: Option<Seq<u8>>, res: Result<Val, HostError>) -> bool {
    match bytes {
        None => post == pre && res == Ok::<Val, HostError>(Val::Void),
        Some(s) => {
            let charged = charge_bulk(pre, s.len() as int, 1);
            if charged.1 is Err {
                runs_out(charged, post, res)
            } else {
                adds(charged.0, post, res, push_obj(pre.objs(), ObjModel::Blob(BlobKind::Bytes, s)))
            }
        },
    }
}

/// The address that is made of the key of an account has that key, and the one
/// that is made of the id of a contract has that id; neither has the other.
pub proof fn law_address_bytes_round_trip(bytes: Seq<u8>)
    requires
        bytes.len() == 32,
    ensures
        ({
            let x = u256_of_int(crate::bignum::from_be(bytes));
            &&& account_key_bytes(ScAddress::Account(AccountId(x))) == Some(bytes)
            &&& contract_id_bytes(ScAddress::Account(AccountId(x))) is None
            &&& contract_id_bytes(ScAddress::Contract(Hash32(x))) == Some(bytes)
            &&& account_key_bytes(ScAddress::Contract(Hash32(x))) is None
        }),
{
    let n = crate::bignum::from_be(bytes);
    crate::bignum::law_from_be_round_trip(bytes);
    assert(vstd::arithmetic::power::pow(256, 32) == crate::bignum::two256()) by {
        crate::bignum::lemma_pow256();
    }
    let x = u256_of_int(n);
    let t = crate::bignum::two128();
    vstd::arithmetic::div_mod::lemma_fundamental_div_mod(n, t);
    assert(0 <= n / t < t) by (nonlinear_arith)
        requires
            0 <= n < t * t,
            t > 0,
            n == t * (n / t) + n % t,
            0 <= n % t < t,
    ;
    assert(x@ == n) by (nonlinear_arith)
        requires
            x.hi == n / t,
            x.lo == n % t,
            x@ == x.hi * t + x.lo,
            n == t * (n / t) + n % t,
    ;
}

impl Host {
    /// The address of the account with a public key.
    pub fn account_public_key_to_address(&mut self, pk_bytes: BytesObject) -> (res: Result<AddressObject, HostError>)
        requires
            old(self).wf(),
        ensures
            final(self).wf(),
            does_account_public_key_to_address(*old(self), *final(self), pk_bytes, res),
    {
        self.charge_visit()?;
        let key = self.u256_from_bytesobj_input(pk_bytes)?;
        proof {
            lemma_u256_of_int(key);
        }
        self.add_address(ScAddress::Account(AccountId(key)))
    }

    /// The address of the contract with an id.
    pub fn contract_id_to_address(&mut self, contract_id_bytes: BytesObject) -> (res: Result<AddressObject, HostError>)
        requires
            old(self).wf(),
        ensures
            final(self).wf(),
            does_contract_id_to_address(*old(self), *final(self), contract_id_bytes, res),
    {
        self.charge_visit()?;
        let id = self.hash_from_bytesobj_input(contract_id_bytes)?;
        proof {
            lemma_u256_of_int(id.0);
        }
        self.add_address(ScAddress::Contract(id))
    }

    /// The public key of the account that an address is of, or nothing.
    pub fn address_to_account_public_key(&mut self, address: AddressObject) -> (res: Result<Val, HostError>)
        requires
            old(self).wf(),
        ensures
            final(self).wf(),
            does_address_to_account_public_key(*old(self), *final(self), address, res),
    {
        self.charge_visit()?;
        match self.visit_address(address)? {
            ScAddress::Account(account) => self.bytes_to_new_val(u256_to_be_bytes(account.0), Ghost(account.0@)),
            ScAddress::Contract(_) => Ok(Val::Void),
        }
    }

    /// The id of the contract that an address is of, or nothing.
    pub fn address_to_contract_id(&mut self, address: AddressObject) -> (res: Result<Val, HostError>)
        requires
            old(self).wf(),
        ensures
            final(self).wf(),
            does_address_to_contract_id(*old(self), *final(self), address, res),
    {
        self.charge_visit()?;
        match self.visit_address(address)? {
            ScAddress::Account(_) => Ok(Val::Void),
            ScAddress::Contract(id) => self.bytes_to_new_val(u256_to_be_bytes(id.0), Ghost(id.0@)),
        }
    }

    fn bytes_to_new_val(&mut self, s: Vec<u8>, x: Ghost<int>) -> (res: Result<Val, HostError>)
        requires
            old(self).wf(),
            s@ == be_bytes(x@, 32),
        ensures
            final(self).wf(),
            adds_bytes(*old(self), *final(self), Some(s@), res),
    {
        proof {
            lemma_be_bytes_len(x@, 32);
        }
        self.charge_bulk_init_cpy(s.len() as u64, 1)?;
        match self.add_bytes(s) {
            Ok(o) => Ok(Val::Object(Object { tag: ObjectTag::BytesObject, handle: o.handle })),
            Err(e) => Err(e),
        }
    }
}

/// What `account_public_key_to_address` does.
pub open spec fn does_account_public_key_to_address(
    pre: Host,
    post: Host,
    pk_bytes: BytesObject,
    res: Result<AddressObject, HostError>,
) -> bool {
    match reads_number(pre, pk_bytes) {
        (h, Err(e)) => gives_up(h, post, res, e),
        (h, Ok(x)) => stores(
            h,
            post,
            ObjModel::Address(ScAddress::Account(AccountId(u256_of_int(x)))),
            address_handle(res),
        ),
    }
}

/// What `contract_id_to_address` does.
pub open spec fn does_contract_id_to_address(
    pre: Host,
    post: Host,
    contract_id_bytes: BytesObject,
    res: Result<AddressObject, HostError>,
) -> bool {
    match reads_number(pre, contract_id_bytes) {
        (h, Err(e)) => gives_up(h, post, res, e),
        (h, Ok(x)) => stores(
            h,
            post,
            ObjModel::Address(ScAddress::Contract(Hash32(u256_of_int(x)))),
            address_handle(res),
        ),
    }
}

/// What `address_to_account_public_key` does.
pub open spec fn does_address_to_account_public_key(
    pre: Host,
    post: Host,
    address: AddressObject,
    res: Result<Val, HostError>,
) -> bool {
    match looks_at(pre, address.handle, ObjectTag::AddressObject) {
        (h, Err(e)) => gives_up(h, post, res, e),
        (h, Ok(obj)) => adds_bytes(h, post, account_key_bytes(obj->Address_0), res),
    }
}

/// What `address_to_contract_id` does.
pub open spec fn does_address_to_contract_id(
    pre: Host,
    post: Host,
    address: AddressObject,
    res: Result<Val, HostError>,
) -> bool {
    match looks_at(pre, address.handle, ObjectTag::AddressObject) {
        (h, Err(e)) => gives_up(h, post, res, e),
        (h, Ok(obj)) => adds_bytes(h, post, contract_id_bytes(obj->Address_0), res),
    }
}

} // verus!
