use soroban_env_host::scval::sc_eq;
use soroban_env_host::xdr_value::read_scval;
use soroban_env_host::{
    AccountId, AddressObject, AuthorizationEntry, AuthorizationMode, AuthorizedFunctionEntry, Budget, BudgetDimension,
    BytesObject, ContractCostType, ContractDataDurability, ContractExecutable, CostModel, Credentials, DebugInfo,
    DiagnosticLevel, Error, Event, Frame, Hash32, Host, HostError, HostEvent, LedgerEntry, LedgerEntryData, LedgerInfo,
    LedgerKey, ScAddress, ScContractInstance, ScErrorCode, ScErrorType, ScMapEntry, ScVal, Storage, StorageType, Symbol,
    SymbolObject, U64Val, Val, VecObject, XdrFault, I256, U256,
};

fn dimension() -> BudgetDimension {
    BudgetDimension { models: [CostModel { const_term: 0, lin_term: 0 }; 29], limit: u64::MAX, total_count: 0 }
}

fn new_host() -> Host {
    Host::with_storage_and_budget(Storage::new(), Budget { cpu_insns: dimension(), mem_bytes: dimension() })
}

fn ledger() -> LedgerInfo {
    LedgerInfo {
        protocol_version: 20,
        sequence_number: 1000,
        timestamp: 1 << 60,
        network_id: [9u8; 32],
        base_reserve: 5,
        min_temp_entry_expiration: 16,
        min_persistent_entry_expiration: 4096,
        max_entry_expiration: 10000,
    }
}

fn hash(n: u128) -> Hash32 {
    Hash32(U256 { hi: 0, lo: n })
}

fn contract_frame(id: Hash32, args: Vec<Val>) -> Frame {
    Frame::TestContract { contract_id: id, fn_name: Symbol::Small(38), args, panic: None }
}

fn contract_host() -> Host {
    let mut h = new_host();
    h.set_ledger_info(ledger()).unwrap();
    h.push_frame(contract_frame(hash(1), vec![]), vec![]).unwrap();
    h
}

fn failed<T>(r: Result<T, HostError>, t: ScErrorType, c: ScErrorCode) -> bool {
    match r {
        Ok(_) => false,
        Err(e) => e.error == Error::from_type_and_code(t, c),
    }
}

fn bytes_of(h: &mut Host, b: BytesObject) -> Vec<u8> {
    let mut out = vec![0u8; h.bytes_len(b).unwrap() as usize];
    h.bytes_copy_to_slice(b, 0, &mut out).unwrap();
    out
}

fn hex(s: &str) -> Vec<u8> {
    (0..s.len() / 2).map(|i| u8::from_str_radix(&s[2 * i..2 * i + 2], 16).unwrap()).collect()
}

#[test]
fn source_account_is_set_and_removed() {
    let mut h = new_host();
    assert_eq!(h.source_account_address().unwrap(), None);
    let account = AccountId(U256 { hi: 1, lo: 2 });
    h.set_source_account(account).unwrap();
    assert_eq!(h.source_account_id().unwrap(), Some(account));
    let a = h.source_account_address().unwrap().unwrap();
    assert!(matches!(h.address_to_account_public_key(a).unwrap(), Val::Object(_)));
    h.remove_source_account().unwrap();
    assert_eq!(h.source_account_id().unwrap(), None);
}

#[test]
fn ledger_info_is_read_back() {
    let mut h = new_host();
    assert!(failed(h.get_ledger_protocol_version(), ScErrorType::Context, ScErrorCode::InternalError));
    assert!(failed(h.get_ledger_version(), ScErrorType::Context, ScErrorCode::InternalError));
    assert!(failed(h.get_ledger_sequence(), ScErrorType::Context, ScErrorCode::InternalError));
    assert!(failed(h.get_ledger_timestamp(), ScErrorType::Context, ScErrorCode::InternalError));
    assert!(failed(h.get_ledger_network_id(), ScErrorType::Context, ScErrorCode::InternalError));
    assert!(failed(h.get_max_expiration_ledger(), ScErrorType::Context, ScErrorCode::InternalError));
    assert!(failed(h.with_mut_ledger_info(|li| li), ScErrorType::Context, ScErrorCode::InternalError));
    h.set_ledger_info(ledger()).unwrap();
    assert_eq!(h.get_ledger_protocol_version().unwrap(), 20);
    assert_eq!(h.get_ledger_version().unwrap(), 20);
    assert_eq!(h.get_ledger_sequence().unwrap(), 1000);
    assert_eq!(h.get_max_expiration_ledger().unwrap(), 10999);
    match h.get_ledger_timestamp().unwrap() {
        U64Val::Object(o) => assert_eq!(h.obj_to_u64(o).unwrap(), 1 << 60),
        U64Val::Small(_) => panic!("too large"),
    }
    let id = h.get_ledger_network_id().unwrap();
    assert_eq!(bytes_of(&mut h, id), vec![9u8; 32]);
    h.with_mut_ledger_info(|li| LedgerInfo { sequence_number: 7, timestamp: 3, ..li }).unwrap();
    assert_eq!(h.with_ledger_info(|li| Ok(li.sequence_number)).unwrap(), 7);
    assert_eq!(h.get_ledger_timestamp().unwrap(), U64Val::Small(3));
    assert_eq!(LedgerInfo::default().sequence_number, 0);
}

#[test]
fn errors_are_raised_as_asked() {
    let mut h = new_host();
    let mine = Error::from_contract_error(3);
    assert_eq!(h.fail_with_error(mine), Err(HostError { error: mine, info: None }));
    let other = Error::from_type_and_code(ScErrorType::Storage, ScErrorCode::MissingValue);
    assert!(failed(h.fail_with_error(other), ScErrorType::Context, ScErrorCode::UnexpectedType));
    assert_eq!(h.error_from_error_val(other).error, other);
    assert!(h.check_same_env(true).is_ok());
    assert!(failed(h.check_same_env(false), ScErrorType::Context, ScErrorCode::InternalError));
    assert_eq!(h.dummy0().unwrap(), Val::Void);
    h.set_diagnostic_level(DiagnosticLevel::Debug);
    let bare: Result<(), HostError> = Err(HostError { error: other, info: None });
    assert_eq!(h.augment_err_result(bare).unwrap_err().info, Some(DebugInfo { events: 0 }));
    let known: Result<(), HostError> = Err(HostError { error: other, info: Some(DebugInfo { events: 5 }) });
    assert_eq!(h.augment_err_result(known).unwrap_err().info, Some(DebugInfo { events: 5 }));
    assert_eq!(h.augment_err_result(Ok(4)).unwrap(), 4);
}

#[test]
fn escalation_is_noted_in_test_contracts() {
    let mut h = contract_host();
    let e = HostError { error: Error::from_contract_error(3), info: None };
    assert_eq!(h.note_escalation(e).error, e.error);
    match &h.context[0].frame {
        Frame::TestContract { panic, .. } => assert_eq!(*panic, Some(e.error)),
        _ => panic!("other frame"),
    }
    assert_eq!(h.events.len(), 0);
    let mut h = new_host();
    assert_eq!(h.note_escalation(e).error, e.error);
    h.set_diagnostic_level(DiagnosticLevel::Debug);
    assert_eq!(h.note_escalation(e).info, Some(DebugInfo { events: 1 }));
    match &h.events[0] {
        Event::Diagnostic { error, message, args } => {
            assert_eq!(*error, Some(e.error));
            assert_eq!(message, "escalating error to panic");
            assert_eq!(args.len(), 0);
        }
        _ => panic!("no note"),
    }
}

#[test]
fn contract_events_are_recorded_and_externalized() {
    let mut h = contract_host();
    let topics = h.vec_new_from_slice(&[Val::U32(1)]).unwrap();
    let data = h.bytes_new_from_slice(&[5]).unwrap();
    h.contract_event(topics, data.to_val()).unwrap();
    assert!(failed(
        h.contract_event(VecObject { handle: 99 }, Val::Void),
        ScErrorType::Object,
        ScErrorCode::MissingValue
    ));
    let (_, events) = h.try_finish().unwrap();
    assert_eq!(events.0.len(), 1);
    match &events.0[0] {
        HostEvent::Contract { emitter, topics, data } => {
            assert_eq!(*emitter, Some(hash(1)));
            assert!(matches!(topics[0], ScVal::U32(1)));
            assert!(matches!(data, ScVal::Bytes(b) if b == &vec![5u8]));
        }
        _ => panic!("other event"),
    }
    let mut h = new_host();
    let topics = h.vec_new().unwrap();
    assert!(failed(h.contract_event(topics, Val::Void), ScErrorType::Context, ScErrorCode::MissingValue));
}

#[test]
fn events_that_nest_too_deep_stop_the_end() {
    let mut h = contract_host();
    let mut v = Val::Void;
    for _ in 0..100 {
        v = h.vec_new_from_slice(&[v]).unwrap().to_val();
    }
    let topics = h.vec_new().unwrap();
    h.contract_event(topics, v).unwrap();
    assert!(failed(h.try_finish(), ScErrorType::Context, ScErrorCode::ExceededLimit));
}

#[test]
fn contract_data_in_the_ledger() {
    let mut h = contract_host();
    for t in [StorageType::Temporary, StorageType::Persistent] {
        let k = h.symbol_from_str("key").unwrap().to_val();
        let v = h.vec_new_from_slice(&[Val::U32(4), Val::Void]).unwrap().to_val();
        assert!(!h.has_contract_data(k, t).unwrap());
        assert!(failed(h.get_contract_data(k, t), ScErrorType::Storage, ScErrorCode::MissingValue));
        h.put_contract_data(k, v, t).unwrap();
        assert!(h.has_contract_data(k, t).unwrap());
        let got = h.get_contract_data(k, t).unwrap();
        assert_eq!(h.obj_cmp(got, v).unwrap(), 0);
        h.put_contract_data(k, Val::U32(8), t).unwrap();
        assert_eq!(h.get_contract_data(k, t).unwrap(), Val::U32(8));
        h.del_contract_data(k, t).unwrap();
        assert!(!h.has_contract_data(k, t).unwrap());
        h.del_contract_data(k, t).unwrap();
    }
}

#[test]
fn instance_data_are_loaded_when_needed() {
    let mut h = new_host();
    h.set_ledger_info(ledger()).unwrap();
    let instance = vec![ScMapEntry { key: ScVal::U32(1), val: ScVal::Symbol(b"one".to_vec()) }];
    h.push_frame(contract_frame(hash(1), vec![]), instance).unwrap();
    let t = StorageType::Instance;
    let one = h.symbol_from_str("one").unwrap().to_val();
    assert_eq!(h.get_contract_data(Val::U32(1), t).unwrap(), one);
    assert!(!h.has_contract_data(Val::U32(2), t).unwrap());
    assert!(failed(h.get_contract_data(Val::U32(2), t), ScErrorType::Storage, ScErrorCode::MissingValue));
    h.put_contract_data(Val::U32(2), Val::Void, t).unwrap();
    assert_eq!(h.get_contract_data(Val::U32(2), t).unwrap(), Val::Void);
    assert_eq!(h.get_contract_data(Val::U32(1), t).unwrap(), one);
    h.del_contract_data(Val::U32(1), t).unwrap();
    assert!(!h.has_contract_data(Val::U32(1), t).unwrap());
    h.del_contract_data(Val::U32(1), t).unwrap();
    let mut h = new_host();
    assert!(failed(h.get_contract_data(Val::U32(1), t), ScErrorType::Context, ScErrorCode::MissingValue));
    h.push_frame(Frame::HostFunction, vec![]).unwrap();
    assert!(failed(h.get_contract_data(Val::U32(1), t), ScErrorType::Context, ScErrorCode::InternalError));
}

fn data_expiration(h: &Host, durability: ContractDataDurability) -> u32 {
    h.storage
        .get(&LedgerKey::ContractData { contract: hash(1), key: ScVal::U32(1), durability })
        .unwrap()
        .expiration_ledger
}

#[test]
fn contract_data_are_bumped() {
    let mut h = contract_host();
    let k = Val::U32(1);
    let (p, t) = (StorageType::Persistent, StorageType::Temporary);
    h.put_contract_data(k, Val::Void, p).unwrap();
    h.put_contract_data(k, Val::Void, t).unwrap();
    assert_eq!(data_expiration(&h, ContractDataDurability::Persistent), 1000 + 4095);
    assert_eq!(data_expiration(&h, ContractDataDurability::Temporary), 1000 + 15);
    // More than 100 ledgers are left: nothing happens.
    h.bump_contract_data(k, p, 100, 5000).unwrap();
    assert_eq!(data_expiration(&h, ContractDataDurability::Persistent), 1000 + 4095);
    h.bump_contract_data(k, p, 4095, 5000).unwrap();
    assert_eq!(data_expiration(&h, ContractDataDurability::Persistent), 6000);
    // Past the longest life persistent entries stop there, temporary ones fail.
    h.bump_contract_data(k, p, 20000, 20000).unwrap();
    assert_eq!(data_expiration(&h, ContractDataDurability::Persistent), 10999);
    assert!(failed(
        h.bump_contract_data(k, t, 20000, 20000),
        ScErrorType::Storage,
        ScErrorCode::InvalidAction
    ));
    // What was put again keeps its life.
    h.put_contract_data(k, Val::Bool(true), p).unwrap();
    assert_eq!(data_expiration(&h, ContractDataDurability::Persistent), 10999);
    assert!(failed(h.bump_contract_data(k, p, 2, 1), ScErrorType::Storage, ScErrorCode::InvalidInput));
    assert!(failed(
        h.bump_contract_data(Val::U32(9), p, 1, 2),
        ScErrorType::Storage,
        ScErrorCode::MissingValue
    ));
    assert!(failed(
        h.bump_contract_data(k, StorageType::Instance, 1, 2),
        ScErrorType::Storage,
        ScErrorCode::InvalidAction
    ));
    h.with_mut_ledger_info(|li| LedgerInfo { sequence_number: 2000, ..li }).unwrap();
    assert!(failed(h.bump_contract_data(k, t, 1, 2), ScErrorType::Storage, ScErrorCode::InternalError));
}

#[test]
fn wrong_entries_are_reported() {
    let mut h = contract_host();
    h.storage.put(
        LedgerKey::ContractData {
            contract: hash(1),
            key: ScVal::U32(1),
            durability: ContractDataDurability::Persistent,
        },
        LedgerEntry { data: LedgerEntryData::ContractCode(vec![]), expiration_ledger: 5000 },
    );
    let p = StorageType::Persistent;
    assert!(failed(h.get_contract_data(Val::U32(1), p), ScErrorType::Storage, ScErrorCode::InternalError));
    assert!(failed(
        h.put_contract_data(Val::U32(1), Val::Void, p),
        ScErrorType::Storage,
        ScErrorCode::InternalError
    ));
}

fn address(h: &mut Host, id: u128) -> AddressObject {
    let mut b = [0u8; 32];
    b[16..].copy_from_slice(&id.to_be_bytes());
    let o = h.bytes_new_from_slice(&b).unwrap();
    h.contract_id_to_address(o).unwrap()
}

#[test]
fn addresses_and_their_bytes() {
    let mut h = new_host();
    let key: Vec<u8> = (0u8..32).collect();
    let b = h.bytes_new_from_slice(&key).unwrap();
    let account = h.account_public_key_to_address(b).unwrap();
    let contract = h.contract_id_to_address(b).unwrap();
    match h.address_to_account_public_key(account).unwrap() {
        Val::Object(o) => assert_eq!(bytes_of(&mut h, BytesObject { handle: o.handle }), key),
        _ => panic!("no key"),
    }
    match h.address_to_contract_id(contract).unwrap() {
        Val::Object(o) => assert_eq!(bytes_of(&mut h, BytesObject { handle: o.handle }), key),
        _ => panic!("no id"),
    }
    assert_eq!(h.address_to_contract_id(account).unwrap(), Val::Void);
    assert_eq!(h.address_to_account_public_key(contract).unwrap(), Val::Void);
    let short = h.bytes_new_from_slice(&[1]).unwrap();
    assert!(failed(
        h.account_public_key_to_address(short),
        ScErrorType::Object,
        ScErrorCode::UnexpectedSize
    ));
    assert!(failed(h.contract_id_to_address(short), ScErrorType::Object, ScErrorCode::UnexpectedSize));
    assert!(failed(h.get_current_contract_address(), ScErrorType::Context, ScErrorCode::MissingValue));
    h.push_frame(contract_frame(hash(6), vec![]), vec![]).unwrap();
    let here = h.get_current_contract_address().unwrap();
    let six = address(&mut h, 6);
    assert_eq!(h.obj_cmp(here.to_val(), six.to_val()).unwrap(), 0);
}

fn upload(h: &mut Host, code: &[u8]) -> BytesObject {
    let code = h.bytes_new_from_slice(code).unwrap();
    h.upload_wasm(code, |_| Ok(())).unwrap()
}

#[test]
fn code_is_uploaded_once_and_checked() {
    let mut h = contract_host();
    let code = h.bytes_new_from_slice(b"code").unwrap();
    let bad = HostError {
        error: Error::from_type_and_code(ScErrorType::WasmVm, ScErrorCode::InvalidInput),
        info: None,
    };
    assert_eq!(h.upload_wasm(code, |_| Err(bad)).unwrap_err(), bad);
    assert_eq!(h.storage.entries.len(), 0);
    let id = h.upload_wasm(code, |c| if c == b"code" { Ok(()) } else { Err(bad) }).unwrap();
    let expected = h.compute_hash_sha256(code).unwrap();
    assert_eq!(bytes_of(&mut h, id), bytes_of(&mut h, expected));
    assert_eq!(h.storage.entries.len(), 1);
    // Code that is there is not checked again.
    h.upload_wasm(code, |_| Err(bad)).unwrap();
    assert_eq!(h.storage.entries.len(), 1);
}

#[test]
fn contract_ids_follow_from_their_preimages() {
    let mut h = contract_host();
    let deployer = address(&mut h, 6);
    let salt = h.bytes_new_from_slice(&[3u8; 32]).unwrap();
    let id = h.get_contract_id(deployer, salt).unwrap();
    // The envelope type of contract ids, the network, and where the id comes from.
    let mut preimage = vec![0, 0, 0, 8];
    preimage.extend([9u8; 32]);
    preimage.extend([0, 0, 0, 0, 0, 0, 0, 1]);
    let mut six = [0u8; 32];
    six[31] = 6;
    preimage.extend(six);
    preimage.extend([3u8; 32]);
    let p = h.bytes_new_from_slice(&preimage).unwrap();
    let digest = h.compute_hash_sha256(p).unwrap();
    let expected = h.contract_id_to_address(digest).unwrap();
    assert_eq!(h.obj_cmp(id.to_val(), expected.to_val()).unwrap(), 0);
    // An account as deployer.
    let key = h.bytes_new_from_slice(&[4u8; 32]).unwrap();
    let account = h.account_public_key_to_address(key).unwrap();
    let id = h.get_contract_id(account, salt).unwrap();
    let mut preimage = vec![0, 0, 0, 8];
    preimage.extend([9u8; 32]);
    preimage.extend([0u8; 12]);
    preimage.extend([4u8; 32]);
    preimage.extend([3u8; 32]);
    let p = h.bytes_new_from_slice(&preimage).unwrap();
    let digest = h.compute_hash_sha256(p).unwrap();
    let expected = h.contract_id_to_address(digest).unwrap();
    assert_eq!(h.obj_cmp(id.to_val(), expected.to_val()).unwrap(), 0);
    // The native asset.
    let native = h.bytes_new_from_slice(&[0u8; 4]).unwrap();
    let id = h.get_asset_contract_id(native).unwrap();
    let mut preimage = vec![0, 0, 0, 8];
    preimage.extend([9u8; 32]);
    preimage.extend([0, 0, 0, 1, 0, 0, 0, 0]);
    let p = h.bytes_new_from_slice(&preimage).unwrap();
    let digest = h.compute_hash_sha256(p).unwrap();
    let expected = h.contract_id_to_address(digest).unwrap();
    assert_eq!(h.obj_cmp(id.to_val(), expected.to_val()).unwrap(), 0);
    let junk = h.bytes_new_from_slice(&[1, 2, 3]).unwrap();
    assert!(failed(h.get_asset_contract_id(junk), ScErrorType::Value, ScErrorCode::InvalidInput));
    let short = h.bytes_new_from_slice(&[1]).unwrap();
    assert!(failed(h.get_contract_id(deployer, short), ScErrorType::Object, ScErrorCode::UnexpectedSize));
}

#[test]
fn contracts_are_made_once_and_need_their_code() {
    let mut h = contract_host();
    // The running contract agrees to what it does itself.
    let me = h.get_current_contract_address().unwrap();
    let salt = h.bytes_new_from_slice(&[3u8; 32]).unwrap();
    let missing = h.bytes_new_from_slice(&[8u8; 32]).unwrap();
    assert!(failed(h.create_contract(me, missing, salt), ScErrorType::Storage, ScErrorCode::MissingValue));
    let wasm = upload(&mut h, b"code");
    let a = h.create_contract(me, wasm, salt).unwrap();
    let expected = h.get_contract_id(me, salt).unwrap();
    assert_eq!(h.obj_cmp(a.to_val(), expected.to_val()).unwrap(), 0);
    assert!(failed(h.create_contract(me, wasm, salt), ScErrorType::Storage, ScErrorCode::ExistingValue));
    // Another deployer has to agree.
    let other = address(&mut h, 77);
    assert!(failed(h.create_contract(other, wasm, salt), ScErrorType::Auth, ScErrorCode::InvalidAction));
    let code_hash = wasm_hash(&mut h, wasm);
    h.set_authorization_entries(vec![AuthorizationEntry {
        credentials: Credentials::Address(ScAddress::Contract(hash(77))),
        function: AuthorizedFunctionEntry::CreateContract {
            deployer: ScAddress::Contract(hash(77)),
            salt: U256 { hi: u128::MAX / 255 * 3, lo: u128::MAX / 255 * 3 },
            wasm_hash: code_hash,
        },
    }])
    .unwrap();
    h.create_contract(other, wasm, salt).unwrap();
    // The contract and its code live on together.
    h.bump_contract_instance_and_code(a, 5000, 6000).unwrap();
    for (_, entry) in h.storage.entries.iter().take(2) {
        assert_eq!(entry.expiration_ledger, 7000);
    }
    let account = h.bytes_new_from_slice(&[4u8; 32]).unwrap();
    let account = h.account_public_key_to_address(account).unwrap();
    assert!(failed(
        h.bump_contract_instance_and_code(account, 1, 2),
        ScErrorType::Object,
        ScErrorCode::InvalidInput
    ));
    assert!(failed(
        h.bump_current_contract_instance_and_code(1, 2),
        ScErrorType::Storage,
        ScErrorCode::MissingValue
    ));
}

fn wasm_hash(h: &mut Host, b: BytesObject) -> Hash32 {
    let s = bytes_of(h, b);
    let mut hi = [0u8; 16];
    let mut lo = [0u8; 16];
    hi.copy_from_slice(&s[..16]);
    lo.copy_from_slice(&s[16..]);
    Hash32(U256 { hi: u128::from_be_bytes(hi), lo: u128::from_be_bytes(lo) })
}

#[test]
fn running_contract_changes_its_code() {
    let mut h = contract_host();
    let wasm = upload(&mut h, b"new code");
    let missing = h.bytes_new_from_slice(&[8u8; 32]).unwrap();
    assert!(failed(h.update_current_contract_wasm(missing), ScErrorType::Storage, ScErrorCode::MissingValue));
    assert!(failed(h.update_current_contract_wasm(wasm), ScErrorType::Storage, ScErrorCode::MissingValue));
    h.storage.put(
        LedgerKey::ContractInstance { contract: hash(1) },
        LedgerEntry {
            data: LedgerEntryData::ContractInstance(ScContractInstance {
                executable: ContractExecutable::Wasm(hash(5)),
                storage: vec![ScMapEntry { key: ScVal::U32(1), val: ScVal::Void }],
            }),
            expiration_ledger: 5000,
        },
    );
    h.update_current_contract_wasm(wasm).unwrap();
    let new = ContractExecutable::Wasm(wasm_hash(&mut h, wasm));
    match &h.events[0] {
        Event::ExecutableUpdate { contract_id, old_executable, new_executable } => {
            assert_eq!(*contract_id, hash(1));
            assert_eq!(*old_executable, ContractExecutable::Wasm(hash(5)));
            assert_eq!(*new_executable, new);
        }
        _ => panic!("other event"),
    }
    let entry = h.storage.get(&LedgerKey::ContractInstance { contract: hash(1) }).unwrap();
    assert_eq!(entry.expiration_ledger, 5000);
    match &entry.data {
        LedgerEntryData::ContractInstance(i) => {
            assert_eq!(i.executable, new);
            assert_eq!(i.storage.len(), 1);
        }
        _ => panic!("other entry"),
    }
    h.bump_current_contract_instance_and_code(4000, 6000).unwrap();
}

#[test]
fn agreements_are_used_once() {
    let mut h = new_host();
    let bob = ScAddress::Account(AccountId(U256 { hi: 0, lo: 9 }));
    h.set_source_account(AccountId(U256 { hi: 0, lo: 9 })).unwrap();
    let entry = |args: Vec<ScVal>| AuthorizationEntry {
        credentials: Credentials::SourceAccount,
        function: AuthorizedFunctionEntry::ContractFn {
            contract_id: hash(1),
            function_name: b"a".to_vec(),
            args,
        },
    };
    h.set_authorization_entries(vec![
        entry(vec![ScVal::U32(1)]),
        entry(vec![ScVal::ScVec(vec![ScVal::U32(2)])]),
    ])
    .unwrap();
    assert_eq!(h.authorization_manager.invocations[0].address, bob);
    let arg = h.vec_new_from_slice(&[Val::U32(2)]).unwrap().to_val();
    h.push_frame(contract_frame(hash(1), vec![arg]), vec![]).unwrap();
    let mut key = [0u8; 32];
    key[31] = 9;
    let key = h.bytes_new_from_slice(&key).unwrap();
    let addr = h.account_public_key_to_address(key).unwrap();
    h.require_auth(addr).unwrap();
    assert!(failed(h.require_auth(addr), ScErrorType::Auth, ScErrorCode::InvalidAction));
    let args = h.vec_new_from_slice(&[Val::U32(1)]).unwrap();
    h.require_auth_for_args(addr, args).unwrap();
    assert!(failed(h.require_auth_for_args(addr, args), ScErrorType::Auth, ScErrorCode::InvalidAction));
    // The caller of the running contract agrees to the call.
    h.pop_frame().unwrap();
    h.push_frame(contract_frame(hash(2), vec![]), vec![]).unwrap();
    h.push_frame(contract_frame(hash(1), vec![arg]), vec![]).unwrap();
    let caller = address(&mut h, 2);
    h.require_auth(caller).unwrap();
    h.remove_source_account().unwrap();
    assert!(failed(
        h.set_authorization_entries(vec![entry(vec![])]),
        ScErrorType::Auth,
        ScErrorCode::InternalError
    ));
}

#[test]
fn questions_are_noted_in_recording_mode() {
    let mut h = contract_host();
    h.switch_to_recording_auth(true).unwrap();
    assert_eq!(h.authorization_manager.mode, AuthorizationMode::Recording { disable_non_root_auth: true });
    let addr = address(&mut h, 50);
    h.require_auth(addr).unwrap();
    assert_eq!(h.authorization_manager.invocations.len(), 1);
    h.push_frame(contract_frame(hash(3), vec![]), vec![]).unwrap();
    assert!(failed(h.require_auth(addr), ScErrorType::Auth, ScErrorCode::InvalidAction));
    h.switch_to_recording_auth(false).unwrap();
    h.require_auth(addr).unwrap();
    let mut h = new_host();
    let addr = address(&mut h, 50);
    assert!(failed(h.require_auth(addr), ScErrorType::Context, ScErrorCode::MissingValue));
    h.push_frame(Frame::HostFunction, vec![]).unwrap();
    assert!(failed(h.require_auth(addr), ScErrorType::Context, ScErrorCode::InternalError));
}

#[test]
fn contracts_agree_in_advance() {
    let mut h = contract_host();
    let target = address(&mut h, 4);
    let name = h.symbol_from_str("go").unwrap();
    let args = h.vec_new_from_slice(&[Val::U32(6)]).unwrap();
    let call = h
        .map_new_from_slices(&["args", "contract", "fn_name"], &[args.to_val(), target.to_val(), name.to_val()])
        .unwrap();
    let none = h.vec_new().unwrap();
    let content = h
        .map_new_from_slices(&["context", "sub_invocations"], &[call.to_val(), none.to_val()])
        .unwrap();
    let tag = h.symbol_from_str("Contract").unwrap();
    let entry = h.vec_new_from_slice(&[tag.to_val(), content.to_val()]).unwrap();
    let entries = h.vec_new_from_slice(&[entry.to_val()]).unwrap();
    h.authorize_as_curr_contract(entries).unwrap();
    assert_eq!(h.authorization_manager.invocations.len(), 1);
    assert_eq!(h.authorization_manager.invocations[0].address, ScAddress::Contract(hash(1)));
    // Two calls down, the contract's agreement is asked for.
    h.push_frame(contract_frame(hash(3), vec![]), vec![]).unwrap();
    let args = vec![Val::U32(6)];
    h.push_frame(Frame::TestContract { contract_id: hash(4), fn_name: name, args, panic: None }, vec![]).unwrap();
    let me = address(&mut h, 1);
    h.require_auth(me).unwrap();
    assert!(failed(h.require_auth(me), ScErrorType::Auth, ScErrorCode::InvalidAction));
    // The making of a contract.
    let salt = h.bytes_new_from_slice(&[1u8; 32]).unwrap();
    let wasm = h.symbol_from_str("Wasm").unwrap();
    let executable = h.vec_new_from_slice(&[wasm.to_val(), salt.to_val()]).unwrap();
    let content = h.map_new_from_slices(&["executable", "salt"], &[executable.to_val(), salt.to_val()]).unwrap();
    let tag = h.symbol_from_str("CreateContractHostFn").unwrap();
    let entry = h.vec_new_from_slice(&[tag.to_val(), content.to_val()]).unwrap();
    let entries = h.vec_new_from_slice(&[entry.to_val()]).unwrap();
    h.authorize_as_curr_contract(entries).unwrap();
    assert_eq!(h.authorization_manager.invocations.len(), 2);
    // Anything else is no agreement.
    let junk = h.vec_new_from_slice(&[Val::U32(1)]).unwrap();
    assert!(failed(h.authorize_as_curr_contract(junk), ScErrorType::Value, ScErrorCode::UnexpectedType));
}

#[test]
fn calls_pass_on_their_outcome() {
    let mut h = contract_host();
    let target = address(&mut h, 4);
    let args = h.vec_new_from_slice(&[Val::U32(6)]).unwrap();
    let f = Symbol::Small(40);
    let (h, r) = h.call(target, f, args, |h, id, name, args| {
        assert_eq!((id, name, args), (hash(4), Symbol::Small(40), vec![Val::U32(6)]));
        (h, Ok(Val::U32(7)))
    });
    assert_eq!(r.unwrap(), Val::U32(7));
    let outcome = |e: Error| -> Result<Val, HostError> { Err(HostError { error: e, info: None }) };
    let contract_error = Error::from_contract_error(5);
    let (h, r) = h.try_call(target, f, args, |h, _, _, _| (h, outcome(contract_error)));
    assert_eq!(r.unwrap(), Val::Error(contract_error));
    let host_error = Error::from_type_and_code(ScErrorType::Storage, ScErrorCode::MissingValue);
    let (h, r) = h.try_call(target, f, args, |h, _, _, _| (h, outcome(host_error)));
    assert_eq!(
        r.unwrap(),
        Val::Error(Error::from_type_and_code(ScErrorType::Context, ScErrorCode::InvalidAction))
    );
    let fatal = Error::from_type_and_code(ScErrorType::Budget, ScErrorCode::ExceededLimit);
    let (h, r) = h.try_call(target, f, args, |h, _, _, _| (h, outcome(fatal)));
    assert_eq!(r.unwrap_err().error, fatal);
    let (h, r) = h.call(target, f, args, |h, _, _, _| (h, outcome(host_error)));
    assert_eq!(r.unwrap_err().error, host_error);
    let (_, r) = h.call(AddressObject { handle: 999 }, f, args, |h, _, _, _| (h, Ok(Val::Void)));
    assert!(failed(r, ScErrorType::Object, ScErrorCode::MissingValue));
}

#[test]
fn failed_calls_are_noted() {
    let mut h = contract_host();
    h.set_diagnostic_level(DiagnosticLevel::Debug);
    let target = address(&mut h, 4);
    let args = h.vec_new_from_slice(&[Val::U32(6)]).unwrap();
    let f = Symbol::Small(40);
    let e = Error::from_type_and_code(ScErrorType::Storage, ScErrorCode::MissingValue);
    let (h, r) = h.call(target, f, args, |h, _, _, _| (h, Ok(Val::Void)));
    assert_eq!(r.unwrap(), Val::Void);
    assert_eq!(h.events.len(), 0);
    let (h, r) = h.call(target, f, args, |h, _, _, _| (h, Err(HostError { error: e, info: None })));
    assert_eq!(r.unwrap_err().error, e);
    let (h, r) = h.try_call(target, f, args, |h, _, _, _| (h, Err(HostError { error: e, info: None })));
    // The caller is told of another error than the log.
    assert_eq!(
        r.unwrap(),
        Val::Error(Error::from_type_and_code(ScErrorType::Context, ScErrorCode::InvalidAction))
    );
    assert_eq!(h.events.len(), 2);
    for (i, note) in ["contract call failed", "contract try_call failed"].into_iter().enumerate() {
        match &h.events[i] {
            Event::Diagnostic { error, message, args: vals } => {
                assert_eq!(*error, Some(e));
                assert_eq!(message, note);
                assert_eq!(vals, &vec![f.to_val(), args.to_val()]);
            }
            _ => panic!("no note"),
        }
    }
    let (_, events) = h.try_finish().unwrap();
    match &events.0[1] {
        HostEvent::Diagnostic { error, .. } => assert_eq!(*error, Some(e)),
        _ => panic!("no note"),
    }
}

#[test]
fn running_contracts_are_not_called_again() {
    let mut h = contract_host();
    h.push_frame(contract_frame(hash(2), vec![]), vec![]).unwrap();
    let args = h.vec_new().unwrap();
    let f = Symbol::Small(40);
    for id in [1, 2] {
        let target = address(&mut h, id);
        let (after, r) = h.call(target, f, args, |_, _, _, _| panic!("run again"));
        assert!(failed(r, ScErrorType::Context, ScErrorCode::InvalidAction));
        let (after, r) = after.try_call(target, f, args, |_, _, _, _| panic!("run again"));
        assert_eq!(
            r.unwrap(),
            Val::Error(Error::from_type_and_code(ScErrorType::Context, ScErrorCode::InvalidAction))
        );
        h = after;
    }
    let target = address(&mut h, 3);
    let (_, r) = h.call(target, f, args, |h, _, _, _| (h, Ok(Val::U32(1))));
    assert_eq!(r.unwrap(), Val::U32(1));
}

#[test]
fn default_host_is_fresh_and_free() {
    let mut h = Host::default();
    assert_eq!(h.objects.len(), 0);
    assert_eq!(h.storage.entries.len(), 0);
    assert_eq!(h.source_account_id().unwrap(), None);
    assert!(failed(h.get_ledger_sequence(), ScErrorType::Context, ScErrorCode::InternalError));
    let b = h.bytes_new_from_slice(&[1, 2, 3]).unwrap();
    h.bytes_push(b, 4).unwrap();
    assert_eq!(h.budget_ref().cpu_insns.total_count, 0);
    assert_eq!(h.budget_ref().mem_bytes.total_count, 0);
}

fn priced(h: &mut Host, ty: ContractCostType, const_term: u64, per_unit: u64) {
    h.budget.cpu_insns.models[ty.number()] = CostModel { const_term, lin_term: 128 * per_unit };
}

fn spent(h: &Host) -> u64 {
    h.budget_ref().cpu_insns.total_count
}

#[test]
fn looking_up_objects_is_charged_for() {
    let mut h = contract_host();
    let b = h.bytes_new_from_slice(&[1, 2, 3]).unwrap();
    let c = h.bytes_new_from_slice(&[1, 2, 4]).unwrap();
    let v = h.vec_new_from_slice(&[Val::U32(1)]).unwrap();
    priced(&mut h, ContractCostType::VisitObject, 1, 0);
    assert_eq!(h.bytes_len(b).unwrap(), 3);
    assert_eq!(spent(&h), 1);
    assert_eq!(h.vec_get(v, 0).unwrap(), Val::U32(1));
    assert_eq!(spent(&h), 2);
    assert_eq!(h.obj_cmp(b.to_val(), c.to_val()).unwrap(), -1);
    assert_eq!(spent(&h), 4);
    h.bytes_append(b, c).unwrap();
    assert_eq!(spent(&h), 6);
    // Also where nothing is found.
    assert!(failed(h.bytes_len(BytesObject { handle: 999 }), ScErrorType::Object, ScErrorCode::MissingValue));
    assert_eq!(spent(&h), 7);
    h.budget.cpu_insns.limit = 7;
    assert!(failed(h.bytes_len(b), ScErrorType::Budget, ScErrorCode::ExceededLimit));
    assert!(failed(h.vec_len(v), ScErrorType::Budget, ScErrorCode::ExceededLimit));
    assert!(failed(h.serialize_to_bytes(Val::Void), ScErrorType::Budget, ScErrorCode::ExceededLimit));
    assert!(failed(h.deserialize_from_bytes(b), ScErrorType::Budget, ScErrorCode::ExceededLimit));
}

#[test]
fn work_on_contents_is_charged_for() {
    let mut h = contract_host();
    h.set_base_prng_seed([0u8; 32]).unwrap();
    let abc = h.bytes_new_from_slice(b"abc").unwrap();
    let v = h.vec_new_from_slice(&[Val::U32(1), Val::U32(2)]).unwrap();
    let m = h.map_new_from_slices(&["a", "b"], &[Val::U32(1), Val::U32(2)]).unwrap();
    priced(&mut h, ContractCostType::ComputeSha256Hash, 0, 1);
    h.compute_hash_sha256(abc).unwrap();
    assert_eq!(spent(&h), 3);
    priced(&mut h, ContractCostType::ComputeKeccak256Hash, 0, 1);
    h.compute_hash_keccak256(abc).unwrap();
    assert_eq!(spent(&h), 6);
    priced(&mut h, ContractCostType::ValSer, 0, 1);
    let form = h.serialize_to_bytes(Val::U32(7)).unwrap();
    assert_eq!(spent(&h), 14);
    priced(&mut h, ContractCostType::ValDeser, 0, 1);
    h.deserialize_from_bytes(form).unwrap();
    assert_eq!(spent(&h), 22);
    priced(&mut h, ContractCostType::ChaCha20DrawBytes, 0, 1);
    h.prng_bytes_new(10).unwrap();
    assert_eq!(spent(&h), 32);
    h.prng_u64_in_inclusive_range(1, 5).unwrap();
    assert_eq!(spent(&h), 40);
    // As many characters as both texts have are compared.
    priced(&mut h, ContractCostType::HostMemCmp, 0, 1);
    let sym = h.symbol_from_str("abcd").unwrap();
    assert!(!h.symbol_matches(b"abcdef", sym).unwrap());
    assert_eq!(spent(&h), 44);
    let mut vals = [Val::Void; 2];
    h.map_unpack_to_slice(m, &["a", "b"], &mut vals).unwrap();
    assert_eq!(spent(&h), 46);
    // A value takes eight bytes, a pair of them sixteen.
    priced(&mut h, ContractCostType::HostMemAlloc, 0, 1);
    h.vec_push_back(v, Val::U32(3)).unwrap();
    assert_eq!(spent(&h), 46 + 24);
    h.map_put(m, Val::U32(3), Val::Void).unwrap();
    assert_eq!(spent(&h), 46 + 24 + 48);
    h.map_keys(m).unwrap();
    assert_eq!(spent(&h), 46 + 24 + 48 + 16);
}

/// Values of every type, with their XDR forms.
fn values_and_forms() -> Vec<(ScVal, Vec<u8>)> {
    let mut account = vec![0, 0, 0, 18, 0, 0, 0, 0, 0, 0, 0, 0];
    account.extend([0u8; 15]);
    account.push(1);
    account.extend([0u8; 15]);
    account.push(2);
    let mut contract = vec![0, 0, 0, 18, 0, 0, 0, 1];
    contract.extend([0u8; 31]);
    contract.push(5);
    let wide = |tag: u8, words: [u8; 4]| {
        let mut out = vec![0, 0, 0, tag];
        for w in words {
            out.extend([0, 0, 0, 0, 0, 0, 0, w]);
        }
        out
    };
    let mut i256 = vec![0, 0, 0, 12];
    i256.extend([255u8; 32]);
    let mut i128 = vec![0, 0, 0, 10];
    i128.extend([255u8; 15]);
    i128.push(254);
    vec![
        (ScVal::Bool(true), vec![0, 0, 0, 0, 0, 0, 0, 1]),
        (ScVal::Void, vec![0, 0, 0, 1]),
        (ScVal::Error(Error::from_contract_error(77)), vec![0, 0, 0, 2, 0, 0, 0, 0, 0, 0, 0, 77]),
        (
            ScVal::Error(Error::from_type_and_code(ScErrorType::Storage, ScErrorCode::MissingValue)),
            vec![0, 0, 0, 2, 0, 0, 0, 3, 0, 0, 0, 3],
        ),
        (
            ScVal::Error(Error::from_type_and_code(ScErrorType::Auth, ScErrorCode::UnexpectedSize)),
            vec![0, 0, 0, 2, 0, 0, 0, 9, 0, 0, 0, 9],
        ),
        (ScVal::U32(7), vec![0, 0, 0, 3, 0, 0, 0, 7]),
        (ScVal::I32(-2), vec![0, 0, 0, 4, 255, 255, 255, 254]),
        (ScVal::U64(u64::MAX), vec![0, 0, 0, 5, 255, 255, 255, 255, 255, 255, 255, 255]),
        (ScVal::I64(-3), vec![0, 0, 0, 6, 255, 255, 255, 255, 255, 255, 255, 253]),
        (ScVal::Timepoint(8), vec![0, 0, 0, 7, 0, 0, 0, 0, 0, 0, 0, 8]),
        (ScVal::Duration(9), vec![0, 0, 0, 8, 0, 0, 0, 0, 0, 0, 0, 9]),
        (ScVal::U128((3 << 64) + 4), vec![0, 0, 0, 9, 0, 0, 0, 0, 0, 0, 0, 3, 0, 0, 0, 0, 0, 0, 0, 4]),
        (ScVal::I128(-2), i128),
        (ScVal::U256(U256 { hi: (1 << 64) + 2, lo: (3 << 64) + 4 }), wide(11, [1, 2, 3, 4])),
        (ScVal::I256(I256 { hi: -1, lo: u128::MAX }), i256),
        (ScVal::Bytes(vec![1, 2, 3]), vec![0, 0, 0, 13, 0, 0, 0, 3, 1, 2, 3, 0]),
        (ScVal::Text(b"text".to_vec()), vec![0, 0, 0, 14, 0, 0, 0, 4, b't', b'e', b'x', b't']),
        (ScVal::Symbol(b"ab".to_vec()), vec![0, 0, 0, 15, 0, 0, 0, 2, b'a', b'b', 0, 0]),
        (
            ScVal::ScVec(vec![ScVal::U32(7), ScVal::Void]),
            vec![0, 0, 0, 16, 0, 0, 0, 1, 0, 0, 0, 2, 0, 0, 0, 3, 0, 0, 0, 7, 0, 0, 0, 1],
        ),
        (
            ScVal::ScMap(vec![ScMapEntry { key: ScVal::U32(7), val: ScVal::Void }]),
            vec![0, 0, 0, 17, 0, 0, 0, 1, 0, 0, 0, 1, 0, 0, 0, 3, 0, 0, 0, 7, 0, 0, 0, 1],
        ),
        (ScVal::Address(ScAddress::Account(AccountId(U256 { hi: 1, lo: 2 }))), account),
        (ScVal::Address(ScAddress::Contract(hash(5))), contract),
    ]
}

#[test]
fn serialized_values_are_read_back() {
    for (t, form) in values_and_forms() {
        let mut h = new_host();
        let v = h.to_host_val(&t).unwrap();
        let b = h.serialize_to_bytes(v).unwrap();
        assert_eq!(bytes_of(&mut h, b), form);
        let w = h.deserialize_from_bytes(b).unwrap();
        assert!(sc_eq(&h.from_host_val(w).unwrap(), &t));
        assert!(sc_eq(&read_scval(&form).unwrap(), &t));
        // Another host reads the same from the form.
        let mut other = new_host();
        let b = other.bytes_new_from_slice(&form).unwrap();
        let w = other.deserialize_from_bytes(b).unwrap();
        assert!(sc_eq(&other.from_host_val(w).unwrap(), &t));
    }
}

#[test]
fn forms_of_no_value_are_refused() {
    let instance = vec![0, 0, 0, 20];
    let nonce = vec![0, 0, 0, 21, 0, 0, 0, 0, 0, 0, 0, 1];
    let (no_vec, no_map) = (vec![0, 0, 0, 16, 0, 0, 0, 0], vec![0, 0, 0, 17, 0, 0, 0, 0]);
    let (unknown, short, long) = (vec![0, 0, 0, 99], vec![0, 0, 0, 3, 0], vec![0, 0, 0, 1, 0, 0, 0, 1]);
    let huge = vec![0, 0, 0, 13, 255, 255, 255, 255];
    for form in [vec![], instance, nonce, no_vec, no_map, unknown, short, long, huge] {
        let mut h = new_host();
        assert_eq!(read_scval(&form).err(), Some(XdrFault::Malformed));
        let b = h.bytes_new_from_slice(&form).unwrap();
        assert!(failed(h.deserialize_from_bytes(b), ScErrorType::Value, ScErrorCode::InvalidInput));
        assert_eq!(h.objects.len(), 1);
    }
    // Forms of trees that are no values of a host: a symbol with a space, and keys
    // out of order.
    let mut h = new_host();
    let b = h.bytes_new_from_slice(&[0, 0, 0, 15, 0, 0, 0, 1, b' ', 0, 0, 0]).unwrap();
    assert!(failed(h.deserialize_from_bytes(b), ScErrorType::Value, ScErrorCode::InvalidInput));
    let mut form = vec![0, 0, 0, 17, 0, 0, 0, 1, 0, 0, 0, 2];
    form.extend([0, 0, 0, 3, 0, 0, 0, 2, 0, 0, 0, 1]);
    form.extend([0, 0, 0, 3, 0, 0, 0, 1, 0, 0, 0, 1]);
    let b = h.bytes_new_from_slice(&form).unwrap();
    assert!(failed(h.deserialize_from_bytes(b), ScErrorType::Object, ScErrorCode::InvalidInput));
    assert!(failed(
        h.deserialize_from_bytes(BytesObject { handle: 999 }),
        ScErrorType::Object,
        ScErrorCode::MissingValue
    ));
}

/// The form of vectors in vectors, with a void in the innermost.
fn nested_form(levels: usize) -> Vec<u8> {
    let mut form = vec![];
    for _ in 0..levels {
        form.extend([0, 0, 0, 16, 0, 0, 0, 1, 0, 0, 0, 1]);
    }
    form.extend([0, 0, 0, 1]);
    form
}

#[test]
fn deep_values_are_neither_written_nor_read() {
    let mut h = new_host();
    let mut v = Val::Void;
    for _ in 0..99 {
        v = h.vec_new_from_slice(&[v]).unwrap().to_val();
    }
    let b = h.serialize_to_bytes(v).unwrap();
    assert_eq!(bytes_of(&mut h, b), nested_form(99));
    let w = h.deserialize_from_bytes(b).unwrap();
    assert!(sc_eq(&h.from_host_val(v).unwrap(), &h.from_host_val(w).unwrap()));
    v = h.vec_new_from_slice(&[v]).unwrap().to_val();
    assert!(failed(h.serialize_to_bytes(v), ScErrorType::Context, ScErrorCode::ExceededLimit));
    let b = h.bytes_new_from_slice(&nested_form(100)).unwrap();
    assert!(failed(h.deserialize_from_bytes(b), ScErrorType::Context, ScErrorCode::ExceededLimit));
    assert_eq!(read_scval(&nested_form(1000)).err(), Some(XdrFault::TooDeep));
    let b = h.bytes_new_from_slice(&nested_form(1000)).unwrap();
    assert!(failed(h.deserialize_from_bytes(b), ScErrorType::Context, ScErrorCode::ExceededLimit));
}

#[test]
fn what_has_no_form_is_not_serialized() {
    let mut h = new_host();
    let odd = Val::Error(Error { type_: ScErrorType::Storage, code: 1000 });
    assert!(failed(h.serialize_to_bytes(odd), ScErrorType::Value, ScErrorCode::InvalidInput));
    assert!(failed(h.serialize_to_bytes(BytesObject { handle: 9 }.to_val()), ScErrorType::Object, ScErrorCode::MissingValue));
    // What was or was not written, and what was or was not read, decides.
    assert!(failed(h.bytes_from_written(Err(XdrFault::TooDeep)), ScErrorType::Context, ScErrorCode::ExceededLimit));
    assert!(failed(h.bytes_from_written(Err(XdrFault::Malformed)), ScErrorType::Value, ScErrorCode::InvalidInput));
    let b = h.bytes_from_written(Ok(vec![4, 5])).unwrap();
    assert_eq!(bytes_of(&mut h, b), vec![4, 5]);
    assert!(failed(h.val_from_parsed(Err(XdrFault::TooDeep)), ScErrorType::Context, ScErrorCode::ExceededLimit));
    assert!(failed(h.val_from_parsed(Err(XdrFault::Malformed)), ScErrorType::Value, ScErrorCode::InvalidInput));
    assert_eq!(h.val_from_parsed(Ok(ScVal::U32(3))).unwrap(), Val::U32(3));
}

#[test]
fn frames_are_opened_and_closed() {
    let mut h = new_host();
    assert!(failed(h.pop_frame(), ScErrorType::Context, ScErrorCode::MissingValue));
    let missing = BytesObject { handle: 9 }.to_val();
    assert!(failed(
        h.push_frame(contract_frame(hash(1), vec![missing]), vec![]),
        ScErrorType::Object,
        ScErrorCode::MissingValue
    ));
    let named = Frame::Token { contract_id: hash(1), fn_name: Symbol::Object(SymbolObject { handle: 9 }), args: vec![] };
    assert!(failed(h.push_frame(named, vec![]), ScErrorType::Object, ScErrorCode::MissingValue));
    assert_eq!(h.context.len(), 0);
    h.push_frame(contract_frame(hash(1), vec![Val::U32(1)]), vec![]).unwrap();
    h.push_frame(contract_frame(hash(2), vec![]), vec![]).unwrap();
    assert_eq!(h.get_current_contract_id_internal().unwrap(), hash(2));
    h.pop_frame().unwrap();
    assert_eq!(h.get_current_contract_id_internal().unwrap(), hash(1));
}

#[test]
fn hashes() {
    let mut h = new_host();
    let abc = h.bytes_new_from_slice(b"abc").unwrap();
    let d = h.compute_hash_sha256(abc).unwrap();
    assert_eq!(
        bytes_of(&mut h, d),
        hex("ba7816bf8f01cfea414140de5dae2223b00361a396177a9cb410ff61f20015ad")
    );
    let empty = h.bytes_new().unwrap();
    let d = h.compute_hash_keccak256(empty).unwrap();
    assert_eq!(
        bytes_of(&mut h, d),
        hex("c5d2460186f7233c927e7db2dcc703c0e500b653ca82273b7bfad8045d85a470")
    );
}

#[test]
fn ed25519_signatures() {
    let mut h = new_host();
    let key = hex("d75a980182b10ab7d54bfed3c964073a0ee172f3daa62325af021a68f707511a");
    let sig = hex(
        "e5564300c360ac729086e2cc806e828a84877f1eb8e5d974d873e065224901555fb8821590a33bacc61e39701cf9b46bd25bf5f0595bbe24655141438e7a100b",
    );
    let k = h.bytes_new_from_slice(&key).unwrap();
    let s = h.bytes_new_from_slice(&sig).unwrap();
    let msg = h.bytes_new().unwrap();
    h.verify_sig_ed25519(k, msg, s).unwrap();
    let other = h.bytes_new_from_slice(&[1]).unwrap();
    assert!(failed(h.verify_sig_ed25519(k, other, s), ScErrorType::Crypto, ScErrorCode::InvalidInput));
    assert!(failed(h.verify_sig_ed25519(msg, msg, s), ScErrorType::Object, ScErrorCode::UnexpectedSize));
    assert!(failed(h.verify_sig_ed25519(k, msg, k), ScErrorType::Object, ScErrorCode::UnexpectedSize));
    // A y-coordinate that no point has.
    let mut no_point = [0u8; 32];
    no_point[0] = 2;
    let no_key = h.bytes_new_from_slice(&no_point).unwrap();
    assert!(failed(h.verify_sig_ed25519(no_key, msg, s), ScErrorType::Crypto, ScErrorCode::InvalidInput));
}

#[test]
fn secp256k1_recovery() {
    let mut h = new_host();
    let digest = hex("ce0677bb30baa8cf067c88db9811f4333d131bf8bcf12fe7065d211dce971008");
    let sig = hex(
        "90f27b8b488db00b00606796d2987f6a5f59ae62ea05effe84fef5b8b0e549984a691139ad57a3f0b906637673aa2f63d1f55cb1a69199d4009eea23ceaddc93",
    );
    let d = h.bytes_new_from_slice(&digest).unwrap();
    let s = h.bytes_new_from_slice(&sig).unwrap();
    let key = h.recover_key_ecdsa_secp256k1(d, s, 1).unwrap();
    assert_eq!(
        bytes_of(&mut h, key),
        hex(
            "04e32df42865e97135acfb65f3bae71bdc86f4d49150ad6a440b6f15878109880a0a2b2667f7e725ceea70c673093bf67663e0312623c8e091b13cf2c0f11ef652"
        )
    );
    assert!(failed(h.recover_key_ecdsa_secp256k1(d, s, 4), ScErrorType::Crypto, ScErrorCode::InvalidInput));
    assert!(failed(h.recover_key_ecdsa_secp256k1(s, s, 1), ScErrorType::Object, ScErrorCode::UnexpectedSize));
    assert!(failed(h.recover_key_ecdsa_secp256k1(d, d, 1), ScErrorType::Object, ScErrorCode::UnexpectedSize));
    // Both numbers of a signature are above zero and below the order of the curve.
    let order = hex("fffffffffffffffffffffffffffffffebaaedce6af48a03bbfd25e8cd0364141");
    let mut large = sig[..32].to_vec();
    large.extend(order);
    let large = h.bytes_new_from_slice(&large).unwrap();
    assert!(failed(h.recover_key_ecdsa_secp256k1(d, large, 1), ScErrorType::Crypto, ScErrorCode::InvalidInput));
    let zeros = h.bytes_new_from_slice(&[0u8; 64]).unwrap();
    assert!(failed(h.recover_key_ecdsa_secp256k1(d, zeros, 1), ScErrorType::Crypto, ScErrorCode::InvalidInput));
}

#[test]
fn random_numbers_follow_from_the_seed() {
    let mut h = contract_host();
    assert!(failed(h.prng_bytes_new(4), ScErrorType::Context, ScErrorCode::MissingValue));
    h.set_base_prng_seed([0u8; 32]).unwrap();
    let a = h.prng_bytes_new(8).unwrap();
    assert_eq!(h.bytes_len(a).unwrap(), 8);
    let zeros = h.bytes_new_from_slice(&[0u8; 32]).unwrap();
    h.prng_reseed(zeros).unwrap();
    // The start of the ChaCha20 stream of the zero key.
    let b = h.prng_bytes_new(8).unwrap();
    assert_eq!(bytes_of(&mut h, b), hex("76b8e0ada0f13d90"));
    let c = h.prng_bytes_new(8).unwrap();
    assert_eq!(bytes_of(&mut h, c), hex("405d6ae55386bd28"));
    h.prng_reseed(zeros).unwrap();
    let x = h.prng_u64_in_inclusive_range(10, 20).unwrap();
    h.prng_reseed(zeros).unwrap();
    assert_eq!(h.prng_u64_in_inclusive_range(10, 20).unwrap(), x);
    assert!((10..=20).contains(&x));
    assert_eq!(h.prng_u64_in_inclusive_range(5, 5).unwrap(), 5);
    assert!(failed(h.prng_u64_in_inclusive_range(2, 1), ScErrorType::Value, ScErrorCode::InvalidInput));
    let short = h.bytes_new_from_slice(&[0u8; 31]).unwrap();
    assert!(failed(h.prng_reseed(short), ScErrorType::Value, ScErrorCode::UnexpectedSize));
    let items: Vec<Val> = (0..20).map(Val::U32).collect();
    let v = h.vec_new_from_slice(&items).unwrap();
    let s = h.prng_vec_shuffle(v).unwrap();
    let shuffled: Vec<Val> = (0..20).map(|i| h.vec_get(s, i).unwrap()).collect();
    assert_ne!(shuffled, items);
    for x in items {
        assert!(shuffled.contains(&x));
    }
}

#[test]
fn outcomes_of_outside_work_are_passed_on() {
    let mut h = contract_host();
    assert!(h.verify_sig_ed25519_internal(true).is_ok());
    assert!(failed(h.verify_sig_ed25519_internal(false), ScErrorType::Crypto, ScErrorCode::InvalidInput));
    let key = h.recover_key_ecdsa_secp256k1_internal(Some(vec![4, 5])).unwrap();
    assert_eq!(bytes_of(&mut h, key), vec![4, 5]);
    assert!(failed(
        h.recover_key_ecdsa_secp256k1_internal(None),
        ScErrorType::Crypto,
        ScErrorCode::InvalidInput
    ));
    let mut digest = vec![0u8; 32];
    digest[31] = 3;
    let b = h.store_wasm(b"code".to_vec(), digest.clone()).unwrap();
    assert_eq!(bytes_of(&mut h, b), digest);
    match &h.storage.get(&LedgerKey::ContractCode { hash: hash(3) }).unwrap().data {
        LedgerEntryData::ContractCode(c) => assert_eq!(c, b"code"),
        _ => panic!("other entry"),
    }
    h.create_contract_with_id(hash(8), ContractExecutable::Wasm(hash(3))).unwrap();
    assert!(failed(
        h.create_contract_with_id(hash(8), ContractExecutable::Token),
        ScErrorType::Storage,
        ScErrorCode::ExistingValue
    ));
    let s = [Val::U32(0), Val::U32(1), Val::U32(2)];
    assert_eq!(
        soroban_env_host::host_prng::reorder_vals(&s, &[2, 0, 1]),
        vec![Val::U32(2), Val::U32(0), Val::U32(1)]
    );
    let m = soroban_env_host::token::metadata::issued_metadata(b"AB\0\0", b"KEY");
    assert_eq!((m.name, m.symbol), (b"AB:KEY".to_vec(), b"AB".to_vec()));
    let e = HostError { error: Error::from_contract_error(5), info: None };
    assert_eq!(soroban_env_host::host_call::outcome_of_try_call(Err(e)), Ok(Val::Error(e.error)));
}
