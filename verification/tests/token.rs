use soroban_env_host::token::contract::{check_non_native, check_nonnegative_amount, init_asset_with_id};
use soroban_env_host::xdr::Asset;
use soroban_env_host::{
    AccountFlags, AccountId, AuthorizationEntry, AuthorizedFunctionEntry, Budget, BudgetDimension, BytesObject,
    ContractError, CostModel, Credentials, Error, Event, Frame, Hash32, Host, HostError, HostObject, LedgerEntry,
    LedgerEntryData, LedgerInfo, LedgerKey, ScAddress, ScErrorCode, ScErrorType, Storage, StringObject, Symbol, Token,
    TokenEvent, TokenTrait, Val, U256,
};

fn dimension() -> BudgetDimension {
    BudgetDimension { models: [CostModel { const_term: 0, lin_term: 0 }; 29], limit: u64::MAX, total_count: 0 }
}

fn new_host() -> Host {
    let mut h =
        Host::with_storage_and_budget(Storage::new(), Budget { cpu_insns: dimension(), mem_bytes: dimension() });
    h.set_ledger_info(LedgerInfo {
        protocol_version: 20,
        sequence_number: 1000,
        timestamp: 5,
        network_id: [9u8; 32],
        base_reserve: 5,
        min_temp_entry_expiration: 16,
        min_persistent_entry_expiration: 4096,
        max_entry_expiration: 1_000_000,
    })
    .unwrap();
    h
}

fn failed<T>(r: Result<T, HostError>, t: ScErrorType, c: ScErrorCode) -> bool {
    match r {
        Ok(_) => false,
        Err(e) => e.error == Error::from_type_and_code(t, c),
    }
}

fn refused<T>(r: Result<T, HostError>, c: ContractError) -> bool {
    match r {
        Ok(_) => false,
        Err(e) => e.error == Error::from_contract_error(c.number()),
    }
}

fn account(n: u128) -> ScAddress {
    ScAddress::Account(AccountId(U256 { hi: 0, lo: n }))
}

fn holder(n: u128) -> ScAddress {
    ScAddress::Contract(Hash32(U256 { hi: 0, lo: n }))
}

/// The serialized asset with a code of four bytes and the issuer with key 7.
fn credit(code: &[u8; 4]) -> Vec<u8> {
    let mut s = vec![0, 0, 0, 1];
    s.extend(code);
    s.extend([0u8; 4]);
    let mut key = [0u8; 32];
    key[31] = 7;
    s.extend(key);
    s
}

fn run(h: &mut Host, id: Hash32) {
    let frame = Frame::Token { contract_id: id, fn_name: Symbol::Small(38), args: vec![] };
    h.push_frame(frame, vec![]).unwrap();
}

fn contract_id(h: &mut Host, asset: BytesObject) -> Hash32 {
    let a = h.get_asset_contract_id(asset).unwrap();
    let b = match h.address_to_contract_id(a).unwrap() {
        Val::Object(o) => BytesObject { handle: o.handle },
        _ => panic!("no contract"),
    };
    let mut s = [0u8; 32];
    h.bytes_copy_to_slice(b, 0, &mut s).unwrap();
    let mut hi = [0u8; 16];
    let mut lo = [0u8; 16];
    hi.copy_from_slice(&s[..16]);
    lo.copy_from_slice(&s[16..]);
    Hash32(U256 { hi: u128::from_be_bytes(hi), lo: u128::from_be_bytes(lo) })
}

/// A host in which the token of an asset was made and runs.
fn token_host(asset: &[u8], flags: AccountFlags) -> (Host, Hash32) {
    let mut h = new_host();
    h.storage.put(
        LedgerKey::Account { id: AccountId(U256 { hi: 0, lo: 7 }) },
        LedgerEntry { data: LedgerEntryData::Account(flags), expiration_ledger: u32::MAX },
    );
    let b = h.bytes_new_from_slice(asset).unwrap();
    let id = contract_id(&mut h, b);
    h.create_asset_contract(b).unwrap();
    assert_eq!(h.context.len(), 0);
    run(&mut h, id);
    (h, id)
}

fn no_flags() -> AccountFlags {
    AccountFlags { auth_required: false, auth_revocable: false, clawback_enabled: false }
}

/// Lets each of some addresses, and nobody else, agree to one call of the running
/// token.
fn agree_all(h: &mut Host, id: Hash32, addresses: &[ScAddress]) {
    let entry = |address: &ScAddress| AuthorizationEntry {
        credentials: Credentials::Address(*address),
        function: AuthorizedFunctionEntry::ContractFn {
            contract_id: id,
            function_name: b"a".to_vec(),
            args: vec![],
        },
    };
    h.set_authorization_entries(addresses.iter().map(entry).collect()).unwrap();
}

fn agree(h: &mut Host, id: Hash32, address: ScAddress) {
    agree_all(h, id, &[address]);
}

fn text(h: &mut Host, s: StringObject) -> Vec<u8> {
    let mut out = vec![0u8; h.string_len(s).unwrap() as usize];
    h.string_copy_to_slice(s, 0, &mut out).unwrap();
    out
}

#[test]
fn issued_token_is_made() {
    let (mut h, _) = token_host(&credit(b"USD\0"), no_flags());
    assert_eq!(Token::admin(&h).unwrap(), account(7));
    assert_eq!(Token::decimals(&h).unwrap(), 7);
    let symbol = Token::symbol(&mut h).unwrap();
    assert_eq!(text(&mut h, symbol), b"USD".to_vec());
    let name = Token::name(&mut h).unwrap();
    let name = text(&mut h, name);
    assert_eq!(name.len(), 4 + 56);
    assert_eq!(&name[..5], b"USD:G");
    let again = h.bytes_new_from_slice(&credit(b"USD\0")).unwrap();
    assert!(refused(Token::init_asset(&mut h, again), ContractError::AlreadyInitializedError));
}

#[test]
fn zero_key_has_its_known_text() {
    let mut s = vec![0, 0, 0, 2];
    s.extend(b"LONGCODE\0\0\0\0");
    s.extend([0u8; 36]);
    let (mut h, _) = token_host(&s, no_flags());
    let name = Token::name(&mut h).unwrap();
    assert_eq!(
        text(&mut h, name),
        b"LONGCODE:GAAAAAAAAAAAAAAAAAAAAAAAAAAAAAAAAAAAAAAAAAAAAAAAAAAAAWHF".to_vec()
    );
}

#[test]
fn token_of_another_asset_is_refused() {
    let mut h = new_host();
    run(&mut h, Hash32(U256 { hi: 0, lo: 1 }));
    let b = h.bytes_new_from_slice(&credit(b"USD\0")).unwrap();
    assert!(refused(Token::init_asset(&mut h, b), ContractError::InternalError));
    let junk = h.bytes_new_from_slice(&[1, 2]).unwrap();
    assert!(failed(Token::init_asset(&mut h, junk), ScErrorType::Value, ScErrorCode::InvalidInput));
    assert!(failed(h.create_asset_contract(junk), ScErrorType::Value, ScErrorCode::InvalidInput));
    // Before it is made, a token has neither asset nor name.
    assert!(failed(Token::name(&mut h), ScErrorType::Storage, ScErrorCode::MissingValue));
    assert!(failed(check_non_native(&h), ScErrorType::Storage, ScErrorCode::MissingValue));
    // A code that is not text.
    let mut h = new_host();
    let b = h.bytes_new_from_slice(&credit(&[0xff, 0xff, 0, 0])).unwrap();
    assert!(failed(h.create_asset_contract(b), ScErrorType::Value, ScErrorCode::UnexpectedType));
}

#[test]
fn asset_contract_is_made_once() {
    let mut h = new_host();
    let b = h.bytes_new_from_slice(&[0u8; 4]).unwrap();
    h.create_asset_contract(b).unwrap();
    assert!(failed(h.create_asset_contract(b), ScErrorType::Storage, ScErrorCode::ExistingValue));
}

#[test]
fn native_token_has_no_admin() {
    let (mut h, id) = token_host(&[0u8; 4], no_flags());
    let name = Token::name(&mut h).unwrap();
    assert_eq!(text(&mut h, name), b"native".to_vec());
    assert!(failed(Token::admin(&h), ScErrorType::Storage, ScErrorCode::MissingValue));
    agree(&mut h, id, account(7));
    assert!(failed(Token::mint(&mut h, holder(1), 5), ScErrorType::Storage, ScErrorCode::MissingValue));
    assert!(failed(Token::set_admin(&mut h, holder(1)), ScErrorType::Storage, ScErrorCode::MissingValue));
    assert!(failed(
        Token::set_authorized(&mut h, holder(1), true),
        ScErrorType::Storage,
        ScErrorCode::MissingValue
    ));
    assert!(Token::clawback(&mut h, holder(1), 5).is_err());
    assert!(refused(Token::burn(&mut h, holder(1), 5), ContractError::OperationNotSupportedError));
    assert!(refused(Token::burn_from(&mut h, holder(1), holder(2), 5), ContractError::OperationNotSupportedError));
    assert!(refused(check_non_native(&h), ContractError::OperationNotSupportedError));
}

#[test]
fn amounts_are_minted_moved_and_burned() {
    let (mut h, id) = token_host(&credit(b"USD\0"), no_flags());
    agree(&mut h, id, account(7));
    Token::mint(&mut h, holder(1), 100).unwrap();
    assert_eq!(Token::balance(&mut h, holder(1)).unwrap(), 100);
    assert_eq!(Token::balance(&mut h, holder(2)).unwrap(), 0);
    // Nobody agreed.
    assert!(failed(
        Token::transfer(&mut h, holder(1), holder(2), 30),
        ScErrorType::Auth,
        ScErrorCode::InvalidAction
    ));
    agree(&mut h, id, holder(1));
    Token::transfer(&mut h, holder(1), holder(2), 30).unwrap();
    assert_eq!(Token::balance(&mut h, holder(1)).unwrap(), 70);
    assert_eq!(Token::spendable_balance(&mut h, holder(2)).unwrap(), 30);
    agree(&mut h, id, holder(1));
    Token::transfer(&mut h, holder(1), holder(1), 70).unwrap();
    assert_eq!(Token::balance(&mut h, holder(1)).unwrap(), 70);
    agree(&mut h, id, holder(1));
    assert!(refused(Token::transfer(&mut h, holder(1), holder(2), 71), ContractError::BalanceError));
    agree(&mut h, id, holder(5));
    assert!(refused(Token::transfer(&mut h, holder(5), holder(2), 1), ContractError::BalanceError));
    agree(&mut h, id, holder(2));
    Token::burn(&mut h, holder(2), 10).unwrap();
    assert_eq!(Token::balance(&mut h, holder(2)).unwrap(), 20);
    agree(&mut h, id, account(7));
    assert!(refused(Token::mint(&mut h, holder(1), i128::MAX), ContractError::BalanceError));
    match &h.events[0] {
        Event::Token { contract_id, event } => {
            assert_eq!(*contract_id, id);
            assert_eq!(*event, TokenEvent::Mint { admin: account(7), to: holder(1), amount: 100 });
        }
        _ => panic!("other event"),
    }
    match &h.events[1] {
        Event::Token { event, .. } => {
            assert_eq!(*event, TokenEvent::Transfer { from: holder(1), to: holder(2), amount: 30 });
        }
        _ => panic!("other event"),
    }
}

#[test]
fn negative_amounts_are_refused() {
    let (mut h, id) = token_host(&credit(b"USD\0"), no_flags());
    agree_all(&mut h, id, &[account(7), holder(1)]);
    let e = ContractError::NegativeAmountError;
    assert!(refused(Token::mint(&mut h, holder(1), -1), e));
    assert!(refused(Token::transfer(&mut h, holder(1), holder(2), -1), e));
    assert!(refused(Token::transfer_from(&mut h, holder(1), holder(1), holder(2), -1), e));
    assert!(refused(Token::approve(&mut h, holder(1), holder(2), -1, 2000), e));
    assert!(refused(Token::burn(&mut h, holder(1), -1), e));
    assert!(refused(Token::burn_from(&mut h, holder(1), holder(1), -1), e));
    assert!(refused(Token::clawback(&mut h, holder(1), -1), e));
    assert!(refused(check_nonnegative_amount(&h, -1), e));
    assert!(check_nonnegative_amount(&h, 0).is_ok());
    assert!(h.authorization_manager.invocations.iter().all(|i| !i.is_exhausted));
    assert_eq!(h.events.len(), 0);
}

#[test]
fn allowances_are_spent_and_expire() {
    let (mut h, id) = token_host(&credit(b"USD\0"), no_flags());
    agree(&mut h, id, account(7));
    Token::mint(&mut h, holder(1), 100).unwrap();
    agree(&mut h, id, holder(1));
    Token::approve(&mut h, holder(1), holder(2), 50, 1500).unwrap();
    assert_eq!(Token::allowance(&mut h, holder(1), holder(2)).unwrap(), 50);
    agree(&mut h, id, holder(2));
    Token::transfer_from(&mut h, holder(2), holder(1), holder(3), 20).unwrap();
    assert_eq!(Token::allowance(&mut h, holder(1), holder(2)).unwrap(), 30);
    assert_eq!(Token::balance(&mut h, holder(3)).unwrap(), 20);
    agree(&mut h, id, holder(2));
    assert!(refused(
        Token::transfer_from(&mut h, holder(2), holder(1), holder(3), 31),
        ContractError::AllowanceError
    ));
    agree(&mut h, id, holder(2));
    Token::burn_from(&mut h, holder(2), holder(1), 10).unwrap();
    assert_eq!(Token::allowance(&mut h, holder(1), holder(2)).unwrap(), 20);
    assert_eq!(Token::balance(&mut h, holder(1)).unwrap(), 70);
    // Nobody else has more or less, and nobody else may take more or less.
    assert_eq!(Token::balance(&mut h, holder(2)).unwrap(), 0);
    assert_eq!(Token::balance(&mut h, holder(3)).unwrap(), 20);
    assert_eq!(Token::allowance(&mut h, holder(1), holder(3)).unwrap(), 0);
    assert_eq!(Token::allowance(&mut h, holder(2), holder(1)).unwrap(), 0);
    // The time for it passes.
    h.with_mut_ledger_info(|li| LedgerInfo { sequence_number: 1501, ..li }).unwrap();
    assert_eq!(Token::allowance(&mut h, holder(1), holder(2)).unwrap(), 0);
    agree(&mut h, id, holder(1));
    assert!(refused(Token::approve(&mut h, holder(1), holder(2), 5, 1500), ContractError::AllowanceError));
    agree(&mut h, id, holder(1));
    assert!(refused(
        Token::approve(&mut h, holder(1), holder(2), 5, 2_000_000),
        ContractError::AllowanceError
    ));
    // Nothing can be allowed until any time.
    agree(&mut h, id, holder(1));
    Token::approve(&mut h, holder(1), holder(2), 0, 0).unwrap();
}

#[test]
fn issuer_is_asked_where_it_wants_to_be() {
    let flags = AccountFlags { auth_required: true, auth_revocable: true, clawback_enabled: true };
    let (mut h, id) = token_host(&credit(b"USD\0"), flags);
    assert!(!Token::authorized(&mut h, holder(1)).unwrap());
    agree(&mut h, id, account(7));
    assert!(refused(Token::mint(&mut h, holder(1), 5), ContractError::BalanceDeauthorizedError));
    agree(&mut h, id, account(7));
    Token::set_authorized(&mut h, holder(1), true).unwrap();
    assert!(Token::authorized(&mut h, holder(1)).unwrap());
    agree(&mut h, id, account(7));
    Token::mint(&mut h, holder(1), 5).unwrap();
    agree(&mut h, id, account(7));
    Token::set_authorized(&mut h, holder(1), false).unwrap();
    agree(&mut h, id, holder(1));
    assert!(refused(
        Token::burn(&mut h, holder(1), 5),
        ContractError::BalanceDeauthorizedError
    ));
    // The administrator can take it all the same.
    agree(&mut h, id, account(7));
    Token::clawback(&mut h, holder(1), 5).unwrap();
    assert_eq!(Token::balance(&mut h, holder(1)).unwrap(), 0);
    agree(&mut h, id, account(7));
    assert!(refused(Token::clawback(&mut h, holder(9), 5), ContractError::BalanceError));
}

#[test]
fn issuer_that_gave_up_its_rights_cannot_use_them() {
    let (mut h, id) = token_host(&credit(b"USD\0"), no_flags());
    agree(&mut h, id, account(7));
    Token::mint(&mut h, holder(1), 5).unwrap();
    agree(&mut h, id, account(7));
    assert!(refused(
        Token::set_authorized(&mut h, holder(1), false),
        ContractError::OperationNotSupportedError
    ));
    assert!(refused(Token::clawback(&mut h, holder(1), 5), ContractError::BalanceError));
}

#[test]
fn missing_issuer_is_reported() {
    let mut h = new_host();
    let b = h.bytes_new_from_slice(&credit(b"USD\0")).unwrap();
    let id = contract_id(&mut h, b);
    h.create_asset_contract(b).unwrap();
    run(&mut h, id);
    assert!(refused(Token::authorized(&mut h, holder(1)), ContractError::AccountMissingError));
}

#[test]
fn administrator_is_replaced() {
    let (mut h, id) = token_host(&credit(b"USD\0"), no_flags());
    agree(&mut h, id, account(7));
    Token::set_admin(&mut h, holder(9)).unwrap();
    assert_eq!(Token::admin(&h).unwrap(), holder(9));
    agree(&mut h, id, account(7));
    assert!(failed(Token::mint(&mut h, holder(1), 5), ScErrorType::Auth, ScErrorCode::InvalidAction));
    agree(&mut h, id, holder(9));
    Token::mint(&mut h, holder(1), 5).unwrap();
    // Using the token gives it more life: a week, in ledgers.
    let entry = h.storage.get(&LedgerKey::ContractInstance { contract: id }).unwrap();
    assert_eq!(entry.expiration_ledger, 1000 + 7 * 17280);
}

#[test]
fn token_is_made_for_the_expected_id_only() {
    let mut h = new_host();
    let one = Hash32(U256 { hi: 0, lo: 1 });
    let two = Hash32(U256 { hi: 0, lo: 2 });
    run(&mut h, one);
    let asset = || Asset::CreditAlphanum4 { asset_code: b"EUR\0".to_vec(), issuer: vec![0u8; 32] };
    assert!(refused(init_asset_with_id(&mut h, one, two, asset()), ContractError::InternalError));
    let objects = h.objects.len();
    init_asset_with_id(&mut h, one, one, asset()).unwrap();
    // The code and the issuer became objects.
    assert_eq!(h.objects.len(), objects + 2);
    match (&h.objects[objects], &h.objects[objects + 1]) {
        (HostObject::Text(code), HostObject::Bytes(issuer)) => {
            assert_eq!(code, &b"EUR\0".to_vec());
            assert_eq!(issuer, &vec![0u8; 32]);
        }
        _ => panic!("other objects"),
    }
    assert_eq!(Token::admin(&h).unwrap(), account(0));
    let symbol = Token::symbol(&mut h).unwrap();
    assert_eq!(text(&mut h, symbol), b"EUR".to_vec());
    let mut h = new_host();
    run(&mut h, two);
    init_asset_with_id(&mut h, two, two, Asset::Native).unwrap();
    assert_eq!(h.objects.len(), 0);
    assert!(failed(Token::admin(&h), ScErrorType::Storage, ScErrorCode::MissingValue));
}
