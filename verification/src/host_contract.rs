//! Contracts in the ledger: their ids, their code, and their making.

use crate::bignum::{from_be, two128, u256_from_be_bytes, U256};
use crate::budget::ContractCostType;
use crate::crypto::{sha256, sha256_hash};
use crate::error::{Fault, HostError, ScErrorCode, ScErrorType};
use crate::host::{charge, charge_bulk, fails, runs_out, AuthorizedFunction, Event, Host};
use crate::host_auth::{asks, FunctionModel};
use crate::host_buf::input_fault;
use crate::host_context::no_ledger;
use crate::host_frame::current_contract;
use crate::host_int::reads_number;
use crate::host_ledger::{bump_entry, first_expiration, sets_storage};
use crate::host_object::{address_handle, after_visit, bytes_handle, gives_up, looks_at, stores, visit};
use crate::model::{BlobKind, Deep, Hash32, ObjModel, ScAddress};
use crate::scval::{sc_copy_entries, ScMapEntry};
use crate::storage::{
    ContractDataDurability, ContractExecutable, DataModel, EntryModel, KeyModel, LedgerEntry, LedgerEntryData,
    LedgerKey, ScContractInstance,
};
use crate::util::copy_bytes;
use crate::val::{AddressObject, BytesObject, ObjectTag};
use crate::xdr::{
    asset_from_xdr, asset_of_xdr, asset_preimage_to_xdr, asset_preimage_xdr, deployer_preimage_to_xdr,
    deployer_preimage_xdr, has_lengths, Asset,
};
use vstd::prelude::*;

verus! {

/// The 256-bit number with a value that fits.
pub open spec fn u256_of_int(x: int) -> U256 {
    U256 { hi: (x / two128()) as u128, lo: (x % two128()) as u128 }
}

/// The hash that 32 bytes are.
pub open spec fn hash_of_bytes(s: Seq<u8>) -> Hash32 {
    Hash32(u256_of_int(from_be(s)))
}

pub(crate) proof fn lemma_u256_of_int(x: U256)
    ensures
        u256_of_int(x@) == x,
{
    vstd::arithmetic::div_mod::lemma_fundamental_div_mod_converse(x@, two128(), x.hi as int, x.lo as int);
}

/// The id of the contract that a deployer makes with a salt.
pub open spec fn deployed_id(host: Host, deployer: ScAddress, salt: U256) -> Result<Hash32, Fault> {
    match host.ledger {
        None => Err(no_ledger()),
        Some(li) => Ok(hash_of_bytes(sha256_hash(deployer_preimage_xdr(li.network_id@, deployer, salt)))),
    }
}

/// The id of the contract of an asset.
pub open spec fn asset_contract_id(host: Host, serialized_asset: Seq<u8>) -> Result<Hash32, Fault> {
    match host.ledger {
        None => Err(no_ledger()),
        Some(li) => Ok(hash_of_bytes(sha256_hash(asset_preimage_xdr(li.network_id@, serialized_asset)))),
    }
}

/// The serialized form of an asset is read: looking it up and making an asset of it
/// are charged for, and it has to be the form of one.
pub open spec fn reads_asset(host: Host, asset: BytesObject) -> (Host, Result<Seq<u8>, HostError>) {
    match looks_at(host, asset.handle, ObjectTag::BytesObject) {
        (h, Err(e)) => (h, Err(e)),
        (h, Ok(obj)) => match charge(h, ContractCostType::ValDeser, Some(obj->Blob_1.len() as u64)) {
            (h, Err(e)) => (h, Err(e)),
            (h, Ok(_)) => (
                h,
                if asset_of_xdr(obj->Blob_1) is None {
                    Err(h.spec_err(input_fault()))
                } else {
                    Ok(obj->Blob_1)
                },
            ),
        },
    }
}

/// The deployer and the salt that a contract id is asked for with are read.
pub open spec fn reads_deployer(host: Host, deployer: AddressObject, salt: BytesObject) -> (
    Host,
    Result<(ScAddress, U256), HostError>,
) {
    match looks_at(host, deployer.handle, ObjectTag::AddressObject) {
        (h, Err(e)) => (h, Err(e)),
        (h, Ok(obj)) => match reads_number(h, salt) {
            (h, Err(e)) => (h, Err(e)),
            (h, Ok(x)) => (h, Ok((obj->Address_0, u256_of_int(x)))),
        },
    }
}

/// The contract that runs, for what is done in its name.
pub open spec fn actor(host: Host) -> Option<Hash32> {
    match current_contract(host) {
        Ok(id) => Some(id),
        Err(_) => None,
    }
}

/// The ledger entries with a new contract, or what is wrong with making it: its
/// id must be free, and its code must be there.
pub open spec fn with_new_contract(host: Host, id: Hash32, executable: ContractExecutable) -> Result<
    Map<KeyModel, EntryModel>,
    Fault,
> {
    let m = host.storage@;
    if m.contains_key(KeyModel::ContractInstance(id)) {
        Err((ScErrorType::Storage, ScErrorCode::ExistingValue))
    } else if executable matches ContractExecutable::Wasm(hash) && !m.contains_key(KeyModel::ContractCode(hash)) {
        Err((ScErrorType::Storage, ScErrorCode::MissingValue))
    } else {
        match first_expiration(host.ledger, ContractDataDurability::Persistent) {
            Err(f) => Err(f),
            Ok(expiration_ledger) => Ok(
                m.insert(
                    KeyModel::ContractInstance(id),
                    EntryModel { data: DataModel::ContractInstance(executable, Seq::empty()), expiration_ledger },
                ),
            ),
        }
    }
}

/// With the deployer asked, a contract is made and its address returned.
pub open spec fn deploys(
    pre: Host,
    post: Host,
    asked: Result<(), HostError>,
    deployer: ScAddress,
    salt: U256,
    wasm_hash: Hash32,
    res: Result<AddressObject, HostError>,
) -> bool {
    match asked {
        Err(e) => post == pre && res == Err::<AddressObject, HostError>(e),
        Ok(_) => match deployed_id(pre, deployer, salt) {
            Err(f) => fails(pre, post, res, f),
            Ok(id) => makes_contract(pre, post, id, ContractExecutable::Wasm(wasm_hash), res),
        },
    }
}

/// A contract is made and its address returned.
pub open spec fn makes_contract(
    pre: Host,
    post: Host,
    id: Hash32,
    executable: ContractExecutable,
    res: Result<AddressObject, HostError>,
) -> bool {
    match with_new_contract(pre, id, executable) {
        Err(f) => fails(pre, post, res, f),
        Ok(m) => exists|mid: Host| #[trigger]
            sets_storage(pre, mid, m) && stores(
                mid,
                post,
                ObjModel::Address(ScAddress::Contract(id)),
                address_handle(res),
            ),
    }
}

/// The ledger entries after the instance of a contract and its code are bumped,
/// and what went wrong. The instance is bumped first.
#[verifier::opaque]
pub open spec fn bump_instance_and_code(host: Host, id: Hash32, low: u32, high: u32) -> (
    Map<KeyModel, EntryModel>,
    Option<Fault>,
) {
    let m = host.storage@;
    match bump_entry(host, m, KeyModel::ContractInstance(id), low, high) {
        Err(f) => (m, Some(f)),
        Ok(m1) => match m1[KeyModel::ContractInstance(id)].data {
            DataModel::ContractInstance(ContractExecutable::Wasm(hash), _) => match bump_entry(
                host,
                m1,
                KeyModel::ContractCode(hash),
                low,
                high,
            ) {
                Err(f) => (m1, Some(f)),
                Ok(m2) => (m2, None),
            },
            DataModel::ContractInstance(ContractExecutable::Token, _) => (m1, None),
            _ => (m1, Some((ScErrorType::Storage, ScErrorCode::InternalError))),
        },
    }
}

/// The instance of a contract and its code are bumped.
pub open spec fn bumps(pre: Host, post: Host, id: Hash32, low: u32, high: u32, res: Result<(), HostError>) -> bool {
    let out = bump_instance_and_code(pre, id, low, high);
    &&& sets_storage(pre, post, out.0)
    &&& res == match out.1 {
        None => Ok::<(), HostError>(()),
        Some(f) => Err(pre.spec_err(f)),
    }
}

/// The contract that an address is of.
pub open spec fn contract_of_address(objs: Seq<ObjModel>, address: AddressObject) -> Result<Hash32, Fault> {
    match visit(objs, address.handle, ObjectTag::AddressObject) {
        Err(f) => Err(f),
        Ok(obj) => match obj->Address_0 {
            ScAddress::Contract(id) => Ok(id),
            ScAddress::Account(_) => Err((ScErrorType::Object, ScErrorCode::InvalidInput)),
        },
    }
}

/// The instance that the ledger has of a contract.
pub open spec fn instance_of(m: Map<KeyModel, EntryModel>, id: Hash32) -> Result<
    (ContractExecutable, Seq<Deep>),
    Fault,
> {
    let key = KeyModel::ContractInstance(id);
    if !m.contains_key(key) {
        Err((ScErrorType::Storage, ScErrorCode::MissingValue))
    } else {
        match m[key].data {
            DataModel::ContractInstance(executable, storage) => Ok((executable, storage)),
            _ => Err((ScErrorType::Storage, ScErrorCode::InternalError)),
        }
    }
}

/// Code is put into the ledger under a hash, unless there is code.
pub open spec fn puts_code(
    pre: Host,
    post: Host,
    code: Seq<u8>,
    hash: Seq<u8>,
    res: Result<BytesObject, HostError>,
) -> bool {
    let key = KeyModel::ContractCode(hash_of_bytes(hash));
    if pre.storage@.contains_key(key) {
        stores(pre, post, ObjModel::Blob(BlobKind::Bytes, hash), bytes_handle(res))
    } else {
        match first_expiration(pre.ledger, ContractDataDurability::Persistent) {
            Err(f) => fails(pre, post, res, f),
            Ok(expiration_ledger) => exists|mid: Host| #[trigger]
                sets_storage(
                    pre,
                    mid,
                    pre.storage@.insert(
                        key,
                        EntryModel { data: DataModel::ContractCode(code), expiration_ledger },
                    ),
                ) && stores(mid, post, ObjModel::Blob(BlobKind::Bytes, hash), bytes_handle(res)),
        }
    }
}

/// Code that was uploaded is found under its hash, which is what the upload
/// returns.
pub proof fn law_uploaded_code_is_found(pre: Host, post: Host, code: Seq<u8>, res: Result<BytesObject, HostError>)
    requires
        pre.wf(),
        puts_code(pre, post, code, sha256_hash(code), res),
        res is Ok,
    ensures
        post.storage@.contains_key(KeyModel::ContractCode(hash_of_bytes(sha256_hash(code)))),
        visit(post.objs(), res->Ok_0.handle, ObjectTag::BytesObject) == Ok::<ObjModel, Fault>(
            ObjModel::Blob(BlobKind::Bytes, sha256_hash(code)),
        ),
{
    assert(post.objs()[pre.objs().len() as int] == ObjModel::Blob(BlobKind::Bytes, sha256_hash(code)));
}

/// A contract that was made is there, with its code and no data, and cannot be
/// made again.
pub proof fn law_made_contract_is_there(
    pre: Host,
    post: Host,
    id: Hash32,
    executable: ContractExecutable,
    res: Result<AddressObject, HostError>,
)
    requires
        pre.wf(),
        makes_contract(pre, post, id, executable, res),
        res is Ok,
    ensures
        instance_of(post.storage@, id) == Ok::<(ContractExecutable, Seq<Deep>), Fault>((executable, Seq::empty())),
        contract_of_address(post.objs(), res->Ok_0) == Ok::<Hash32, Fault>(id),
        with_new_contract(post, id, executable) == Err::<Map<KeyModel, EntryModel>, Fault>(
            (ScErrorType::Storage, ScErrorCode::ExistingValue),
        ),
{
    assert(post.objs()[pre.objs().len() as int] == ObjModel::Address(ScAddress::Contract(id)));
}

fn hash_from_digest(digest: &[u8]) -> (h: Hash32)
    requires
        digest@.len() == 32,
    ensures
        h == hash_of_bytes(digest@),
{
    let x = u256_from_be_bytes(digest);
    proof {
        lemma_u256_of_int(x);
    }
    Hash32(x)
}

impl Host {
    fn id_from_preimage(&self, preimage: Option<Vec<u8>>) -> (res: Result<Hash32, HostError>)
        ensures
            preimage matches Some(p) ==> res == Ok::<Hash32, HostError>(hash_of_bytes(sha256_hash(p@))),
    {
        match preimage {
            None => Err(self.err(ScErrorType::Value, ScErrorCode::InvalidInput)),
            Some(p) => Ok(hash_from_digest(sha256(p.as_slice()).as_slice())),
        }
    }

    fn deployed_contract_id(&self, deployer: ScAddress, salt: U256) -> (res: Result<Hash32, HostError>)
        ensures
            res == match deployed_id(*self, deployer, salt) {
                Ok(id) => Ok::<Hash32, HostError>(id),
                Err(f) => Err(self.spec_err(f)),
            },
    {
        match &self.ledger {
            None => Err(self.err(ScErrorType::Context, ScErrorCode::InternalError)),
            Some(li) => {
                self.id_from_preimage(deployer_preimage_to_xdr(li.network_id.as_slice(), deployer, salt))
            },
        }
    }

    /// The id of the contract of an asset, given in its serialized form.
    pub(crate) fn get_asset_contract_id_hash(&self, serialized_asset: &[u8]) -> (res: Result<Hash32, HostError>)
        requires
            asset_of_xdr(serialized_asset@) is Some,
        ensures
            res == match asset_contract_id(*self, serialized_asset@) {
                Ok(id) => Ok::<Hash32, HostError>(id),
                Err(f) => Err(self.spec_err(f)),
            },
    {
        match &self.ledger {
            None => Err(self.err(ScErrorType::Context, ScErrorCode::InternalError)),
            Some(li) => self.id_from_preimage(asset_preimage_to_xdr(li.network_id.as_slice(), serialized_asset)),
        }
    }

    fn visit_deployer_and_salt(&mut self, deployer: AddressObject, salt: BytesObject) -> (res: Result<
        (ScAddress, U256),
        HostError,
    >)
        requires
            old(self).wf(),
        ensures
            final(self).wf(),
            (*final(self), res) == reads_deployer(*old(self), deployer, salt),
    {
        self.charge_visit()?;
        let deployer = self.visit_address(deployer)?;
        self.charge_visit()?;
        let salt = self.u256_from_bytesobj_input(salt)?;
        proof {
            lemma_u256_of_int(salt);
        }
        Ok((deployer, salt))
    }

    /// The address of the contract that a deployer makes with a salt.
    pub fn get_contract_id(&mut self, deployer: AddressObject, salt: BytesObject) -> (res: Result<
        AddressObject,
        HostError,
    >)
        requires
            old(self).wf(),
        ensures
            final(self).wf(),
            does_get_contract_id(*old(self), *final(self), deployer, salt, res),
    {
        let (deployer, salt) = self.visit_deployer_and_salt(deployer, salt)?;
        let id = self.deployed_contract_id(deployer, salt)?;
        self.add_address(ScAddress::Contract(id))
    }

    /// An asset, with its serialized form. Reading it is charged for.
    pub(crate) fn read_asset(&mut self, serialized_asset: BytesObject) -> (res: Result<(Asset, Vec<u8>), HostError>)
        requires
            old(self).wf(),
        ensures
            final(self).wf(),
            *final(self) == reads_asset(*old(self), serialized_asset).0,
            match res {
                Ok((asset, bytes)) => {
                    &&& reads_asset(*old(self), serialized_asset).1 == Ok::<Seq<u8>, HostError>(bytes@)
                    &&& asset_of_xdr(bytes@) == Some(asset@)
                    &&& has_lengths(asset@)
                },
                Err(e) => reads_asset(*old(self), serialized_asset).1 == Err::<Seq<u8>, HostError>(e),
            },
    {
        self.charge_visit()?;
        let bytes = copy_bytes(self.visit_bytes(serialized_asset)?.as_slice());
        self.charge_budget(ContractCostType::ValDeser, Some(bytes.len() as u64))?;
        match asset_from_xdr(bytes.as_slice()) {
            Some(asset) => Ok((asset, bytes)),
            None => Err(self.err(ScErrorType::Value, ScErrorCode::InvalidInput)),
        }
    }

    /// The address of the contract of an asset.
    pub fn get_asset_contract_id(&mut self, serialized_asset: BytesObject) -> (res: Result<AddressObject, HostError>)
        requires
            old(self).wf(),
        ensures
            final(self).wf(),
            does_get_asset_contract_id(*old(self), *final(self), serialized_asset, res),
    {
        let (_, bytes) = self.read_asset(serialized_asset)?;
        let id = self.get_asset_contract_id_hash(bytes.as_slice())?;
        self.add_address(ScAddress::Contract(id))
    }

    /// Makes a contract with nothing in it.
    pub fn create_contract_with_id(&mut self, id: Hash32, executable: ContractExecutable) -> (res: Result<
        (),
        HostError,
    >)
        requires
            old(self).wf(),
        ensures
            final(self).wf(),
            does_create_contract_with_id(*old(self), *final(self), id, executable, res),
    {
        let key = LedgerKey::ContractInstance { contract: id };
        if self.storage.has(&key) {
            return Err(self.err(ScErrorType::Storage, ScErrorCode::ExistingValue));
        }
        if let ContractExecutable::Wasm(hash) = executable {
            if !self.wasm_exists(hash) {
                return Err(self.err(ScErrorType::Storage, ScErrorCode::MissingValue));
            }
        }
        let expiration_ledger: u32 = self.get_min_expiration_ledger(ContractDataDurability::Persistent)?;
        let storage: Vec<ScMapEntry> = Vec::new();
        let data = LedgerEntryData::ContractInstance(ScContractInstance { executable, storage });
        proof {
            assert(crate::scval::sc_deep_entries(storage@) =~= Seq::<Deep>::empty());
        }
        self.storage.put(key, LedgerEntry { data, expiration_ledger });
        Ok(())
    }

    pub(crate) fn wasm_exists(&self, hash: Hash32) -> (r: bool)
        requires
            self.wf(),
        ensures
            r == self.storage@.contains_key(KeyModel::ContractCode(hash)),
    {
        self.storage.has(&LedgerKey::ContractCode { hash })
    }

    /// Makes a contract of code in the ledger. The deployer must agree to it.
    pub fn create_contract(&mut self, deployer: AddressObject, wasm_hash: BytesObject, salt: BytesObject) -> (res:
        Result<AddressObject, HostError>)
        requires
            old(self).wf(),
        ensures
            final(self).wf(),
            does_create_contract(*old(self), *final(self), deployer, wasm_hash, salt, res),
    {
        let (deployer, salt) = self.visit_deployer_and_salt(deployer, salt)?;
        self.charge_visit()?;
        let wasm_hash = self.hash_from_bytesobj_input(wasm_hash)?;
        proof {
            lemma_u256_of_int(wasm_hash.0);
        }
        let actor = match self.get_current_contract_id_internal() {
            Ok(id) => Some(id),
            Err(_) => None,
        };
        let ghost pre = *self;
        let asked = self.ask(deployer, AuthorizedFunction::CreateContract { deployer, salt, wasm_hash }, actor);
        let ghost mid = *self;
        assert(asks(
            pre,
            mid,
            deployer,
            FunctionModel::CreateContract(deployer, salt, wasm_hash),
            actor,
            asked,
        ));
        asked?;
        let id = self.deployed_contract_id(deployer, salt)?;
        self.create_contract_with_id(id, ContractExecutable::Wasm(wasm_hash))?;
        let ghost made = *self;
        assert(sets_storage(
            mid,
            made,
            with_new_contract(mid, id, ContractExecutable::Wasm(wasm_hash))->Ok_0,
        ));
        self.add_address(ScAddress::Contract(id))
    }

    /// Puts code into the ledger, unless it is there, and returns its hash. Copying
    /// the code is charged for. What the code must be to run is the caller's to
    /// check; code that is there was checked before.
    pub fn upload_wasm<F: FnOnce(&[u8]) -> Result<(), HostError>>(&mut self, wasm: BytesObject, check_wasm: F) -> (res:
        Result<BytesObject, HostError>)
        requires
            old(self).wf(),
            forall|s: &[u8]| #[trigger] check_wasm.requires((s,)),
        ensures
            final(self).wf(),
            uploads(check_wasm, *old(self), *final(self), wasm, res),
    {
        self.charge_visit()?;
        let code = copy_bytes(self.visit_bytes(wasm)?.as_slice());
        self.charge_bulk_init_cpy(code.len() as u64, 1)?;
        let digest = sha256(code.as_slice());
        if !self.wasm_exists(hash_from_digest(digest.as_slice())) {
            check_wasm(code.as_slice())?;
        }
        self.store_wasm(code, digest)
    }

    /// Puts code into the ledger under a hash, unless there is code, and returns
    /// the hash.
    pub fn store_wasm(&mut self, code: Vec<u8>, digest: Vec<u8>) -> (res: Result<BytesObject, HostError>)
        requires
            old(self).wf(),
            digest@.len() == 32,
        ensures
            final(self).wf(),
            puts_code(*old(self), *final(self), code@, digest@, res),
    {
        let hash = hash_from_digest(digest.as_slice());
        if !self.wasm_exists(hash) {
            let ghost pre = *self;
            let expiration_ledger: u32 = self.get_min_expiration_ledger(ContractDataDurability::Persistent)?;
            self.storage.put(
                LedgerKey::ContractCode { hash },
                LedgerEntry { data: LedgerEntryData::ContractCode(code), expiration_ledger },
            );
            assert(sets_storage(
                pre,
                *self,
                pre.storage@.insert(
                    KeyModel::ContractCode(hash),
                    EntryModel { data: DataModel::ContractCode(code@), expiration_ledger },
                ),
            ));
        }
        self.add_bytes(digest)
    }

    /// The executable and the data that the ledger has of a contract, and when
    /// its entry expires.
    fn retrieve_contract_instance(&self, id: Hash32) -> (res: Result<(ScContractInstance, u32), HostError>)
        requires
            self.wf(),
        ensures
            match res {
                Ok((instance, expiration)) => {
                    &&& instance_of(self.storage@, id) == Ok::<(ContractExecutable, Seq<Deep>), Fault>(
                        (instance.executable, crate::scval::sc_deep_entries(instance.storage@)),
                    )
                    &&& self.storage@[KeyModel::ContractInstance(id)].expiration_ledger == expiration
                },
                Err(e) => instance_of(self.storage@, id) matches Err(f) && e == self.spec_err(f),
            },
    {
        match self.storage.get(&LedgerKey::ContractInstance { contract: id }) {
            None => Err(self.err(ScErrorType::Storage, ScErrorCode::MissingValue)),
            Some(entry) => match &entry.data {
                LedgerEntryData::ContractInstance(i) => Ok(
                    (
                        ScContractInstance { executable: i.executable, storage: sc_copy_entries(&i.storage) },
                        entry.expiration_ledger,
                    ),
                ),
                _ => Err(self.err(ScErrorType::Storage, ScErrorCode::InternalError)),
            },
        }
    }

    /// Has the running contract run other code of the ledger from now on. That
    /// is reported.
    pub fn update_current_contract_wasm(&mut self, hash: BytesObject) -> (res: Result<(), HostError>)
        requires
            old(self).wf(),
        ensures
            final(self).wf(),
            does_update_current_contract_wasm(*old(self), *final(self), hash, res),
    {
        self.charge_visit()?;
        let wasm_hash = self.hash_from_bytesobj_input(hash)?;
        proof {
            lemma_u256_of_int(wasm_hash.0);
        }
        if !self.wasm_exists(wasm_hash) {
            return Err(self.err(ScErrorType::Storage, ScErrorCode::MissingValue));
        }
        let contract_id = self.get_current_contract_id_internal()?;
        let (instance, expiration_ledger): (ScContractInstance, u32) = self.retrieve_contract_instance(contract_id)?;
        let new_executable = ContractExecutable::Wasm(wasm_hash);
        let ghost pre = *self;
        self.events.push(
            Event::ExecutableUpdate { contract_id, old_executable: instance.executable, new_executable },
        );
        proof {
            assert forall|i: int| 0 <= i < self.events@.len() implies (#[trigger] self.events@[i]).ok(
                self.objs(),
            ) by {
                if i < pre.events@.len() {
                    assert(pre.events@[i].ok(pre.objs()));
                }
            }
        }
        let data = LedgerEntryData::ContractInstance(
            ScContractInstance { executable: new_executable, storage: instance.storage },
        );
        self.storage.put(
            LedgerKey::ContractInstance { contract: contract_id },
            LedgerEntry { data, expiration_ledger },
        );
        Ok(())
    }

    pub(crate) fn contract_id_from_address(&self, address: AddressObject) -> (res: Result<Hash32, HostError>)
        ensures
            res == match contract_of_address(self.objs(), address) {
                Ok(id) => Ok::<Hash32, HostError>(id),
                Err(f) => Err(self.spec_err(f)),
            },
    {
        match self.visit_address(address)? {
            ScAddress::Contract(id) => Ok(id),
            ScAddress::Account(_) => Err(self.err(ScErrorType::Object, ScErrorCode::InvalidInput)),
        }
    }

    pub(crate) fn bump_contract_instance_and_code_from_contract_id(&mut self, id: Hash32, low: u32, high: u32) -> (res:
        Result<(), HostError>)
        requires
            old(self).wf(),
        ensures
            final(self).wf(),
            bumps(*old(self), *final(self), id, low, high, res),
    {
        proof {
            reveal(bump_instance_and_code);
        }
        self.bump_ledger_entry(LedgerKey::ContractInstance { contract: id }, low, high)?;
        let executable = match self.storage.get(&LedgerKey::ContractInstance { contract: id }) {
            Some(entry) => match &entry.data {
                LedgerEntryData::ContractInstance(i) => i.executable,
                _ => return Err(self.err(ScErrorType::Storage, ScErrorCode::InternalError)),
            },
            None => return Err(self.err(ScErrorType::Storage, ScErrorCode::MissingValue)),
        };
        match executable {
            ContractExecutable::Wasm(hash) => self.bump_ledger_entry(LedgerKey::ContractCode { hash }, low, high),
            ContractExecutable::Token => Ok(()),
        }
    }

    /// Makes sure that the running contract lives on.
    pub fn bump_current_contract_instance_and_code(&mut self, low: u32, high: u32) -> (res: Result<(), HostError>)
        requires
            old(self).wf(),
        ensures
            final(self).wf(),
            does_bump_current_contract_instance_and_code(*old(self), *final(self), low, high, res),
    {
        let id = self.get_current_contract_id_internal()?;
        self.bump_contract_instance_and_code_from_contract_id(id, low, high)
    }

    /// Makes sure that a contract lives on.
    pub fn bump_contract_instance_and_code(&mut self, contract: AddressObject, low: u32, high: u32) -> (res: Result<
        (),
        HostError,
    >)
        requires
            old(self).wf(),
        ensures
            final(self).wf(),
            does_bump_contract_instance_and_code(*old(self), *final(self), contract, low, high, res),
    {
        self.charge_visit()?;
        let id = self.contract_id_from_address(contract)?;
        self.bump_contract_instance_and_code_from_contract_id(id, low, high)
    }
}

/// What `get_contract_id` does.
pub open spec fn does_get_contract_id(
    pre: Host,
    post: Host,
    deployer: AddressObject,
    salt: BytesObject,
    res: Result<AddressObject, HostError>,
) -> bool {
    match reads_deployer(pre, deployer, salt) {
        (h, Err(e)) => gives_up(h, post, res, e),
        (h, Ok((deployer, salt))) => match deployed_id(h, deployer, salt) {
            Err(f) => fails(h, post, res, f),
            Ok(id) => stores(
                h,
                post,
                ObjModel::Address(ScAddress::Contract(id)),
                address_handle(res),
            ),
        },
    }
}

/// What `get_asset_contract_id` does.
pub open spec fn does_get_asset_contract_id(
    pre: Host,
    post: Host,
    serialized_asset: BytesObject,
    res: Result<AddressObject, HostError>,
) -> bool {
    match reads_asset(pre, serialized_asset) {
        (h, Err(e)) => gives_up(h, post, res, e),
        (h, Ok(bytes)) => match asset_contract_id(h, bytes) {
            Err(f) => fails(h, post, res, f),
            Ok(id) => stores(
                h,
                post,
                ObjModel::Address(ScAddress::Contract(id)),
                address_handle(res),
            ),
        },
    }
}

/// What `create_contract` does.
pub open spec fn does_create_contract(
    pre: Host,
    post: Host,
    deployer: AddressObject,
    wasm_hash: BytesObject,
    salt: BytesObject,
    res: Result<AddressObject, HostError>,
) -> bool {
    match reads_deployer(pre, deployer, salt) {
        (h, Err(e)) => gives_up(h, post, res, e),
        (h, Ok((deployer, salt))) => match reads_number(h, wasm_hash) {
            (h, Err(e)) => gives_up(h, post, res, e),
            (h, Ok(hash)) => {
                let wasm_hash = Hash32(u256_of_int(hash));
                exists|mid: Host, asked: Result<(), HostError>| #[trigger]
                    asks(
                        h,
                        mid,
                        deployer,
                        FunctionModel::CreateContract(deployer, salt, wasm_hash),
                        actor(h),
                        asked,
                    ) && deploys(mid, post, asked, deployer, salt, wasm_hash, res)
            },
        },
    }
}

/// What `update_current_contract_wasm` does.
pub open spec fn does_update_current_contract_wasm(
    pre: Host,
    post: Host,
    hash: BytesObject,
    res: Result<(), HostError>,
) -> bool {
    match reads_number(pre, hash) {
        (h, Err(e)) => gives_up(h, post, res, e),
        (h, Ok(x)) => {
            let wasm_hash = Hash32(u256_of_int(x));
            if !pre.storage@.contains_key(KeyModel::ContractCode(wasm_hash)) {
                fails(h, post, res, (ScErrorType::Storage, ScErrorCode::MissingValue))
            } else {
                match current_contract(h) {
                    Err(f) => fails(h, post, res, f),
                    Ok(id) => match instance_of(pre.storage@, id) {
                        Err(f) => fails(h, post, res, f),
                        Ok((executable, storage)) => {
                            let key = KeyModel::ContractInstance(id);
                            let new = ContractExecutable::Wasm(wasm_hash);
                            &&& res == Ok::<(), HostError>(())
                            &&& post.storage@ == pre.storage@.insert(
                                key,
                                EntryModel {
                                    data: DataModel::ContractInstance(new, storage),
                                    expiration_ledger: pre.storage@[key].expiration_ledger,
                                },
                            )
                            &&& post.events@ == pre.events@.push(
                                Event::ExecutableUpdate {
                                    contract_id: id,
                                    old_executable: executable,
                                    new_executable: new,
                                },
                            )
                            &&& post == (Host {
                                storage: post.storage,
                                events: post.events,
                                ..h
                            })
                        },
                    },
                }
            }
        },
    }
}

/// What `bump_current_contract_instance_and_code` does.
pub open spec fn does_bump_current_contract_instance_and_code(
    pre: Host,
    post: Host,
    low: u32,
    high: u32,
    res: Result<(), HostError>,
) -> bool {
    match current_contract(pre) {
        Err(f) => fails(pre, post, res, f),
        Ok(id) => bumps(pre, post, id, low, high, res),
    }
}

/// What `bump_contract_instance_and_code` does.
pub open spec fn does_bump_contract_instance_and_code(
    pre: Host,
    post: Host,
    contract: AddressObject,
    low: u32,
    high: u32,
    res: Result<(), HostError>,
) -> bool {
    match after_visit(pre, contract_of_address(pre.objs(), contract)) {
        (h, Err(e)) => gives_up(h, post, res, e),
        (h, Ok(id)) => bumps(h, post, id, low, high, res),
    }
}

/// What `create_contract_with_id` does.
pub open spec fn does_create_contract_with_id(
    pre: Host,
    post: Host,
    id: Hash32,
    executable: ContractExecutable,
    res: Result<(), HostError>,
) -> bool {
    match with_new_contract(pre, id, executable) {
        Err(f) => fails(pre, post, res, f),
        Ok(m) => sets_storage(pre, post, m) && res == Ok::<(), HostError>(()),
    }
}

/// What `upload_wasm` does.
pub open spec fn uploads<F: FnOnce(&[u8]) -> Result<(), HostError>>(
    check_wasm: F,
    pre: Host,
    post: Host,
    wasm: BytesObject,
    res: Result<BytesObject, HostError>,
) -> bool {
    match looks_at(pre, wasm.handle, ObjectTag::BytesObject) {
        (h, Err(e)) => gives_up(h, post, res, e),
        (h, Ok(obj)) => {
            let code = obj->Blob_1;
            let charged = charge_bulk(h, code.len() as int, 1);
            if charged.1 is Err {
                runs_out(charged, post, res)
            } else if charged.0.storage@.contains_key(
                KeyModel::ContractCode(hash_of_bytes(sha256_hash(code))),
            ) {
                puts_code(charged.0, post, code, sha256_hash(code), res)
            } else {
                exists|s: &[u8], checked: Result<(), HostError>| #[trigger]
                    check_wasm.ensures((s,), checked) && s@ == code && match checked {
                        Err(e) => post == charged.0 && res == Err::<BytesObject, HostError>(e),
                        Ok(_) => puts_code(charged.0, post, code, sha256_hash(code), res),
                    }
            }
        },
    }
}

} // verus!
