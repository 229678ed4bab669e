//! When the token contract does what it is asked to, and what has come of it then, by
//! the entries that it keeps.

use super::admin::administrator;
use super::asset_info::{asset_info, issuer_flags};
use super::balance::authorized;
use super::contract::{
    acts, asset_of_bytes, bump_step, guard, init_guard, inits, moves, performs, running_id, tells_admin,
    tells_allowance, tells_authorized, tells_balance, tells_name, tells_symbol, Action,
};
use super::instance::{token_error, Entries};
use super::laws::{is_contract_key, law_bump_step, same_under};
use super::metadata::{metadata, trimmed};
use crate::auth_laws::{given, is_caller, is_for_call, is_running_call, law_known_address_needs_agreement, one_is_used};
use crate::bignum::be_bytes;
use crate::collection_laws::at;
use crate::error::{ContractError, Fault, HostError};
use crate::host::{AuthorizationMode, Host, TokenEvent};
use crate::host_auth::asks_of;
use crate::host_contract::{asset_contract_id, bump_instance_and_code};
use crate::host_frame::current_contract;
use crate::ledger_laws::{running, runs_a_contract};
use crate::model::{val_ok, AccountId, BlobKind, Hash32, ObjModel, ScAddress};
use crate::storage::{
    AccountFlags, AllowanceValue, AssetModel, BalanceValue, KeyModel, TokenModel,
};
use crate::val::{spec_handle_to_index, BytesObject, StringObject, Val, MAX_OBJECTS};
use crate::xdr::{account_strkey, asset_of_xdr, AssetBytes};
use vstd::prelude::*;
use vstd::utf8::valid_utf8;

verus! {

/// What a token keeps with its instance, by its entry.
pub open spec fn instance_at(m: Entries, c: Hash32) -> Option<TokenModel> {
    if m.contains_key(KeyModel::TokenInstance(c)) && m[KeyModel::TokenInstance(c)].data is TokenInstance {
        Some(m[KeyModel::TokenInstance(c)].data->TokenInstance_0)
    } else {
        None
    }
}

/// What a holder has, by its entry.
pub open spec fn balance_at(m: Entries, c: Hash32, a: ScAddress) -> Option<BalanceValue> {
    if m.contains_key(KeyModel::TokenBalance(c, a)) && m[KeyModel::TokenBalance(c, a)].data is TokenBalance {
        Some(m[KeyModel::TokenBalance(c, a)].data->TokenBalance_0)
    } else {
        None
    }
}

/// How much a holder has, by its entry: nothing without one.
pub open spec fn amount_at(m: Entries, c: Hash32, a: ScAddress) -> int {
    match balance_at(m, c, a) {
        Some(b) => b.amount as int,
        None => 0,
    }
}

/// What a holder allowed a spender, by its entry.
pub open spec fn allowance_at(m: Entries, c: Hash32, from: ScAddress, spender: ScAddress) -> Option<AllowanceValue> {
    let key = KeyModel::TokenAllowance(c, from, spender);
    if m.contains_key(key) && m[key].data is TokenAllowance {
        Some(m[key].data->TokenAllowance_0)
    } else {
        None
    }
}

/// How much a spender may take at a ledger: what it was allowed, up to and with the
/// last ledger for it, and nothing after that.
pub open spec fn usable(m: Entries, c: Hash32, from: ScAddress, spender: ScAddress, sequence: u32) -> int {
    match allowance_at(m, c, from, spender) {
        Some(a) => if sequence <= a.expiration_ledger {
            a.amount as int
        } else {
            0
        },
        None => 0,
    }
}

/// What the issuer of a token demands, by the entry of its account: nothing of the
/// native token.
pub open spec fn demands_at(m: Entries, c: Hash32) -> Option<AccountFlags> {
    match instance_at(m, c) {
        Some(t) => match t.asset_info {
            Some(AssetModel::Native) => Some(
                AccountFlags { auth_required: false, auth_revocable: false, clawback_enabled: false },
            ),
            Some(AssetModel::AlphaNum4(_, issuer)) => flags_at(m, issuer),
            Some(AssetModel::AlphaNum12(_, issuer)) => flags_at(m, issuer),
            None => None,
        },
        None => None,
    }
}

pub open spec fn flags_at(m: Entries, a: AccountId) -> Option<AccountFlags> {
    if m.contains_key(KeyModel::Account(a)) && m[KeyModel::Account(a)].data is Account {
        Some(m[KeyModel::Account(a)].data->Account_0)
    } else {
        None
    }
}

/// Whether a holder may use what it has: by its entry or, without one, if the issuer
/// does not want to be asked first.
pub open spec fn may_use(m: Entries, c: Hash32, a: ScAddress) -> bool {
    match balance_at(m, c, a) {
        Some(b) => b.authorized,
        None => demands_at(m, c) is Some && !demands_at(m, c)->Some_0.auth_required,
    }
}

/// Whether a host runs a token that can work: its contract is live, the ledger is
/// known, and its entries are what they should be.
pub open spec fn is_ready(host: Host, c: Hash32) -> bool {
    let (m, key) = (host.storage@, KeyModel::ContractInstance(c));
    &&& runs_a_contract(host)
    &&& running(host) == c
    &&& host.ledger is Some
    &&& m.contains_key(key)
    &&& m[key].data is ContractInstance
    &&& m[key].data->ContractInstance_0 is Token
    &&& m[key].expiration_ledger >= host.ledger->Some_0.sequence_number
    &&& forall|k: KeyModel| #[trigger]
        m.contains_key(k) ==> {
            &&& k is TokenBalance ==> m[k].data is TokenBalance
            &&& k is TokenAllowance ==> m[k].data is TokenAllowance
            &&& k is TokenInstance ==> m[k].data is TokenInstance
            &&& k is Account ==> m[k].data is Account
        }
    &&& instance_at(m, c) is Some
    &&& instance_at(m, c)->Some_0.asset_info is Some
    &&& demands_at(m, c) is Some
}

/// Whether two sets of entries are the same but for one key and for how long contracts
/// live.
pub open spec fn only(m: Entries, n: Entries, key: KeyModel) -> bool {
    forall|k: KeyModel| k != key && !is_contract_key(k) ==> #[trigger] same_under(m, n, k)
}

/// Likewise, but for two keys.
pub open spec fn only_two(m: Entries, n: Entries, key: KeyModel, other: KeyModel) -> bool {
    forall|k: KeyModel| k != key && k != other && !is_contract_key(k) ==> #[trigger] same_under(m, n, k)
}

proof fn lemma_ready(host: Host, c: Hash32)
    requires
        is_ready(host, c),
    ensures
        bump_step(host, c).1 is None,
        forall|k: KeyModel| !is_contract_key(k) ==> #[trigger] same_under(host.storage@, bump_step(host, c).0, k),
        running_id(host) == c,
        current_contract(host) is Ok,
{
    law_bump_step(host, c);
    reveal(bump_instance_and_code);
}

/// What the entries of a ready token say is what its functions read.
pub proof fn law_entries_are_what_is_read(
    pre: Host,
    c: Hash32,
    a: ScAddress,
    spender: ScAddress,
    posts: (Host, Host, Host),
    amount: Result<i128, HostError>,
    may: Result<bool, HostError>,
    allowed: Result<i128, HostError>,
)
    requires
        is_ready(pre, c),
        tells_balance(pre, posts.0, a, amount),
        tells_authorized(pre, posts.1, a, may),
        tells_allowance(pre, posts.2, a, spender, allowed),
    ensures
        amount is Ok && amount->Ok_0 == amount_at(pre.storage@, c, a),
        may == Ok::<bool, HostError>(may_use(pre.storage@, c, a)),
        allowed is Ok && allowed->Ok_0 == usable(pre.storage@, c, a, spender, pre.ledger->Some_0.sequence_number),
{
    lemma_ready(pre, c);
    let m = bump_step(pre, c).0;
    assert(same_under(pre.storage@, m, KeyModel::TokenBalance(c, a)));
    assert(same_under(pre.storage@, m, KeyModel::TokenAllowance(c, a, spender)));
    lemma_same_demands(pre.storage@, m, c);
    lemma_demands(pre.setting(), m, c);
}

proof fn lemma_same_demands(m: Entries, n: Entries, c: Hash32)
    requires
        forall|k: KeyModel| k is TokenInstance || k is Account ==> #[trigger] same_under(m, n, k),
    ensures
        instance_at(n, c) == instance_at(m, c),
        demands_at(n, c) == demands_at(m, c),
{
    assert(same_under(m, n, KeyModel::TokenInstance(c)));
    if let Some(t) = instance_at(m, c) {
        match t.asset_info {
            Some(AssetModel::AlphaNum4(_, issuer)) => assert(same_under(m, n, KeyModel::Account(issuer))),
            Some(AssetModel::AlphaNum12(_, issuer)) => assert(same_under(m, n, KeyModel::Account(issuer))),
            _ => {},
        }
    }
}

proof fn lemma_demands(w: crate::host::Setting, m: Entries, c: Hash32)
    requires
        demands_at(m, c) is Some,
    ensures
        issuer_flags(w, m, c) == Ok::<AccountFlags, HostError>(demands_at(m, c)->Some_0),
{
}

/// An approval succeeds if and only if nothing is allowed, or the last ledger for it
/// has not passed and is not later than entries may live. Then the spender may take
/// the amount until that ledger, the entry lives as long, and no other entry of the
/// token changes.
pub proof fn law_approval_allows(
    pre: Host,
    post: Host,
    c: Hash32,
    from: ScAddress,
    spender: ScAddress,
    amount: i128,
    expiration_ledger: u32,
    res: Result<(), HostError>,
)
    requires
        is_ready(pre, c),
        amount >= 0,
        acts(pre, post, Ok(()), Action::Approve { from, spender, amount, expiration_ledger }, from, res),
    ensures
        ({
            let li = pre.ledger->Some_0;
            let in_time = li.sequence_number <= expiration_ledger && (expiration_ledger == li.sequence_number
                || expiration_ledger < li.sequence_number + li.max_entry_expiration);
            let key = KeyModel::TokenAllowance(c, from, spender);
            &&& amount == 0 || in_time ==> res is Ok
            &&& amount > 0 && !in_time ==> res == Err::<(), HostError>(
                token_error(pre.setting(), ContractError::AllowanceError),
            )
            &&& res is Ok ==> {
                &&& allowance_at(post.storage@, c, from, spender) == Some(AllowanceValue { amount, expiration_ledger })
                &&& amount > 0 ==> post.storage@[key].expiration_ledger >= expiration_ledger
                &&& only(pre.storage@, post.storage@, key)
            }
            &&& res is Err ==> only(pre.storage@, post.storage@, KeyModel::ContractInstance(c))
        }),
{
    lemma_ready(pre, c);
    let m = bump_step(pre, c).0;
    let key = KeyModel::TokenAllowance(c, from, spender);
    assert(same_under(pre.storage@, m, key));
    assert forall|k: KeyModel| k != key && !is_contract_key(k) implies #[trigger] same_under(
        pre.storage@,
        post.storage@,
        k,
    ) by {
        assert(same_under(pre.storage@, m, k));
    }
}

/// Whether a holder can be taken an amount from: it may use what it has, and has as
/// much.
pub open spec fn can_spend(m: Entries, c: Hash32, a: ScAddress, amount: int) -> bool {
    may_use(m, c, a) && amount_at(m, c, a) >= amount
}

/// Whether a holder can be given an amount: it may use what it has, and the sum fits.
pub open spec fn can_receive(m: Entries, c: Hash32, a: ScAddress, amount: int) -> bool {
    may_use(m, c, a) && amount_at(m, c, a) + amount <= i128::MAX
}

proof fn lemma_spend(host: Host, m: Entries, c: Hash32, a: ScAddress, amount: i128)
    requires
        is_ready(host, c),
        amount >= 0,
        same_under(host.storage@, m, KeyModel::TokenBalance(c, a)),
        forall|k: KeyModel| k is TokenInstance || k is Account ==> #[trigger] same_under(host.storage@, m, k),
    ensures
        ({
            let out = super::balance::spent(host.setting(), m, c, a, amount);
            &&& can_spend(host.storage@, c, a, amount as int) <==> out is Ok
            &&& out matches Ok(n) ==> {
                &&& amount_at(n, c, a) == amount_at(m, c, a) - amount
                &&& may_use(m, c, a) == may_use(n, c, a)
                &&& balance_at(m, c, a) is Some ==> balance_at(n, c, a) is Some && balance_at(n, c, a)->Some_0.authorized
                    == balance_at(m, c, a)->Some_0.authorized && balance_at(n, c, a)->Some_0.clawback == balance_at(
                    m,
                    c,
                    a,
                )->Some_0.clawback
                &&& only(m, n, KeyModel::TokenBalance(c, a))
                &&& n.contains_key(KeyModel::TokenBalance(c, a)) ==> n[KeyModel::TokenBalance(c, a)].data is TokenBalance
            }
            &&& out is Err && !may_use(host.storage@, c, a) ==> out->Err_0 == token_error(
                host.setting(),
                ContractError::BalanceDeauthorizedError,
            )
            &&& out is Err && may_use(host.storage@, c, a) ==> out->Err_0 == token_error(
                host.setting(),
                ContractError::BalanceError,
            )
        }),
{
    lemma_same_demands(host.storage@, m, c);
    lemma_demands(host.setting(), m, c);
}

proof fn lemma_receive(host: Host, m: Entries, c: Hash32, a: ScAddress, amount: i128)
    requires
        is_ready(host, c),
        amount >= 0,
        m.contains_key(KeyModel::TokenBalance(c, a)) ==> m[KeyModel::TokenBalance(c, a)].data is TokenBalance,
        forall|k: KeyModel| k is TokenInstance || k is Account ==> #[trigger] same_under(host.storage@, m, k),
    ensures
        ({
            let out = super::balance::received(host.setting(), m, c, a, amount);
            &&& can_receive(m, c, a, amount as int) <==> out is Ok
            &&& out matches Ok(n) ==> {
                &&& amount_at(n, c, a) == amount_at(m, c, a) + amount
                &&& balance_at(n, c, a) is Some
                &&& balance_at(n, c, a)->Some_0.authorized
                &&& balance_at(n, c, a)->Some_0.clawback == match balance_at(m, c, a) {
                    Some(b) => b.clawback,
                    None => demands_at(host.storage@, c)->Some_0.clawback_enabled,
                }
                &&& only(m, n, KeyModel::TokenBalance(c, a))
            }
            &&& out is Err && !may_use(m, c, a) ==> out->Err_0 == token_error(
                host.setting(),
                ContractError::BalanceDeauthorizedError,
            )
            &&& out is Err && may_use(m, c, a) ==> out->Err_0 == token_error(
                host.setting(),
                ContractError::BalanceError,
            )
        }),
{
    lemma_same_demands(host.storage@, m, c);
    lemma_demands(host.setting(), m, c);
}

/// A transfer succeeds if and only if the sender may use what it has and has as much,
/// and the receiver may use what it has and has room for it. Then the amount has gone
/// from the one to the other, and nothing else of the token has changed.
pub proof fn law_transfer_moves(
    pre: Host,
    post: Host,
    c: Hash32,
    from: ScAddress,
    to: ScAddress,
    amount: i128,
    res: Result<(), HostError>,
)
    requires
        is_ready(pre, c),
        amount >= 0,
        acts(pre, post, Ok(()), Action::Transfer { from, to, amount }, from, res),
    ensures
        ({
            let (m, n) = (pre.storage@, post.storage@);
            &&& res is Ok <==> can_spend(m, c, from, amount as int) && (from == to || can_receive(
                m,
                c,
                to,
                amount as int,
            ))
            &&& res is Ok && from != to ==> {
                &&& amount_at(n, c, from) == amount_at(m, c, from) - amount
                &&& amount_at(n, c, to) == amount_at(m, c, to) + amount
            }
            &&& res is Ok && from == to ==> amount_at(n, c, from) == amount_at(m, c, from)
            &&& res is Ok ==> only_two(m, n, KeyModel::TokenBalance(c, from), KeyModel::TokenBalance(c, to))
            &&& !may_use(m, c, from) ==> res == Err::<(), HostError>(
                token_error(pre.setting(), ContractError::BalanceDeauthorizedError),
            )
            &&& may_use(m, c, from) && amount_at(m, c, from) < amount ==> res == Err::<(), HostError>(
                token_error(pre.setting(), ContractError::BalanceError),
            )
        }),
{
    lemma_ready(pre, c);
    let m = bump_step(pre, c).0;
    lemma_move(pre, m, c, from, to, amount);
    lemma_through(pre.storage@, m, post.storage@, c, from, to);
}

proof fn lemma_through(m: Entries, mid: Entries, n: Entries, c: Hash32, from: ScAddress, to: ScAddress)
    requires
        forall|k: KeyModel| !is_contract_key(k) ==> #[trigger] same_under(m, mid, k),
    ensures
        only_two(mid, n, KeyModel::TokenBalance(c, from), KeyModel::TokenBalance(c, to)) ==> only_two(
            m,
            n,
            KeyModel::TokenBalance(c, from),
            KeyModel::TokenBalance(c, to),
        ),
        amount_at(mid, c, from) == amount_at(m, c, from),
        amount_at(mid, c, to) == amount_at(m, c, to),
{
    let (kf, kt) = (KeyModel::TokenBalance(c, from), KeyModel::TokenBalance(c, to));
    assert(same_under(m, mid, kf) && same_under(m, mid, kt));
    if only_two(mid, n, kf, kt) {
        assert forall|k: KeyModel| k != kf && k != kt && !is_contract_key(k) implies #[trigger] same_under(m, n, k) by {
            assert(same_under(m, mid, k));
            assert(same_under(mid, n, k));
        }
    }
}

proof fn lemma_move(host: Host, m: Entries, c: Hash32, from: ScAddress, to: ScAddress, amount: i128)
    requires
        is_ready(host, c),
        amount >= 0,
        forall|k: KeyModel| k is TokenInstance || k is Account || k is TokenBalance ==> #[trigger] same_under(
            host.storage@,
            m,
            k,
        ),
    ensures
        ({
            let out = moves(host.setting(), (m, None), c, from, to, amount);
            let n = out.0;
            &&& out.1 is None <==> can_spend(host.storage@, c, from, amount as int) && (from == to || can_receive(
                host.storage@,
                c,
                to,
                amount as int,
            ))
            &&& out.1 is None && from != to ==> {
                &&& amount_at(n, c, from) == amount_at(m, c, from) - amount
                &&& amount_at(n, c, to) == amount_at(m, c, to) + amount
            }
            &&& out.1 is None && from == to ==> amount_at(n, c, from) == amount_at(m, c, from)
            &&& out.1 is None ==> only_two(m, n, KeyModel::TokenBalance(c, from), KeyModel::TokenBalance(c, to))
            &&& !may_use(host.storage@, c, from) ==> out.1 == Some(
                token_error(host.setting(), ContractError::BalanceDeauthorizedError),
            )
            &&& may_use(host.storage@, c, from) && amount_at(host.storage@, c, from) < amount ==> out.1 == Some(
                token_error(host.setting(), ContractError::BalanceError),
            )
        }),
{
    let (kf, kt) = (KeyModel::TokenBalance(c, from), KeyModel::TokenBalance(c, to));
    let w = host.setting();
    assert(same_under(host.storage@, m, kf) && same_under(host.storage@, m, kt));
    lemma_spend(host, m, c, from, amount);
    lemma_same_demands(host.storage@, m, c);
    if let Ok(mid) = super::balance::spent(w, m, c, from, amount) {
        assert forall|k: KeyModel| k is TokenInstance || k is Account implies #[trigger] same_under(
            host.storage@,
            mid,
            k,
        ) by {
            assert(same_under(host.storage@, m, k));
            assert(same_under(m, mid, k));
        }
        lemma_same_demands(host.storage@, mid, c);
        if from != to {
            assert(same_under(m, mid, kt));
        }
        lemma_receive(host, mid, c, to, amount);
        if let Ok(n) = super::balance::received(w, mid, c, to, amount) {
            if from != to {
                assert(same_under(mid, n, kf));
            }
            assert forall|k: KeyModel| k != kf && k != kt && !is_contract_key(k) implies #[trigger] same_under(
                m,
                n,
                k,
            ) by {
                assert(same_under(m, mid, k));
                assert(same_under(mid, n, k));
            }
        }
    }
}

/// Whether a spender can use an amount of its allowance at all: as much is allowed and
/// the time for it has not passed, the whole of it included. What is left of it must
/// not be allowed for longer than entries may live.
pub open spec fn can_use(host: Host, c: Hash32, from: ScAddress, spender: ScAddress, amount: int) -> bool {
    let li = host.ledger->Some_0;
    usable(host.storage@, c, from, spender, li.sequence_number) >= amount
}

pub open spec fn outlives_entries(host: Host, c: Hash32, from: ScAddress, spender: ScAddress) -> bool {
    let li = host.ledger->Some_0;
    match allowance_at(host.storage@, c, from, spender) {
        Some(a) => a.expiration_ledger > li.sequence_number && a.expiration_ledger >= li.sequence_number
            + li.max_entry_expiration,
        None => false,
    }
}

proof fn lemma_use(host: Host, m: Entries, c: Hash32, from: ScAddress, spender: ScAddress, amount: i128)
    requires
        is_ready(host, c),
        amount >= 0,
        forall|k: KeyModel| !is_contract_key(k) ==> #[trigger] same_under(host.storage@, m, k),
    ensures
        ({
            let out = super::allowance::spent_allowance(host.setting(), m, c, from, spender, amount);
            let seq = host.ledger->Some_0.sequence_number;
            &&& can_use(host, c, from, spender, amount as int) && !outlives_entries(host, c, from, spender) ==> out is Ok
            &&& can_use(host, c, from, spender, amount as int) && usable(host.storage@, c, from, spender, seq)
                == amount ==> out is Ok
            &&& !can_use(host, c, from, spender, amount as int) ==> out == Err::<Entries, HostError>(
                token_error(host.setting(), ContractError::AllowanceError),
            )
            &&& out matches Ok(n) ==> {
                &&& usable(n, c, from, spender, seq) == usable(host.storage@, c, from, spender, seq) - amount
                &&& only(m, n, KeyModel::TokenAllowance(c, from, spender))
                &&& amount > 0 ==> allowance_at(n, c, from, spender) is Some && allowance_at(host.storage@, c, from, spender)
                    is Some && allowance_at(n, c, from, spender)->Some_0.expiration_ledger == allowance_at(
                    host.storage@,
                    c,
                    from,
                    spender,
                )->Some_0.expiration_ledger
            }
        }),
{
    assert(same_under(host.storage@, m, KeyModel::TokenAllowance(c, from, spender)));
}

/// A transfer by a spender succeeds if it is allowed as much, all of it included, and
/// the transfer would succeed; it is refused if less is allowed. Then the amount has
/// gone from the one holder to the other, the spender may take that much less, until
/// the same ledger, and nothing else of the token has changed.
pub proof fn law_transfer_from_moves(
    pre: Host,
    post: Host,
    c: Hash32,
    spender: ScAddress,
    from: ScAddress,
    to: ScAddress,
    amount: i128,
    res: Result<(), HostError>,
)
    requires
        is_ready(pre, c),
        amount >= 0,
        acts(pre, post, Ok(()), Action::TransferFrom { spender, from, to, amount }, spender, res),
    ensures
        ({
            let (m, n) = (pre.storage@, post.storage@);
            let seq = pre.ledger->Some_0.sequence_number;
            let goes = can_spend(m, c, from, amount as int) && (from == to || can_receive(m, c, to, amount as int));
            &&& can_use(pre, c, from, spender, amount as int) && !outlives_entries(pre, c, from, spender) && goes
                ==> res is Ok
            &&& usable(m, c, from, spender, seq) == amount && goes ==> res is Ok
            &&& !can_use(pre, c, from, spender, amount as int) ==> res == Err::<(), HostError>(
                token_error(pre.setting(), ContractError::AllowanceError),
            )
            &&& res is Ok ==> goes && can_use(pre, c, from, spender, amount as int)
            &&& res is Ok ==> usable(n, c, from, spender, seq) == usable(m, c, from, spender, seq) - amount
            &&& res is Ok && from != to ==> {
                &&& amount_at(n, c, from) == amount_at(m, c, from) - amount
                &&& amount_at(n, c, to) == amount_at(m, c, to) + amount
            }
            &&& res is Ok && from == to ==> amount_at(n, c, from) == amount_at(m, c, from)
            &&& res is Ok ==> forall|k: KeyModel|
                k != KeyModel::TokenAllowance(c, from, spender) && k != KeyModel::TokenBalance(c, from) && k
                    != KeyModel::TokenBalance(c, to) && !is_contract_key(k) ==> #[trigger] same_under(m, n, k)
        }),
{
    lemma_ready(pre, c);
    let m = bump_step(pre, c).0;
    lemma_use(pre, m, c, from, spender, amount);
    if let Ok(used) = super::allowance::spent_allowance(pre.setting(), m, c, from, spender, amount) {
        assert forall|k: KeyModel| k is TokenInstance || k is Account || k is TokenBalance implies #[trigger] same_under(
            pre.storage@,
            used,
            k,
        ) by {
            assert(same_under(pre.storage@, m, k));
            assert(same_under(m, used, k));
        }
        lemma_move(pre, used, c, from, to, amount);
        assert(same_under(pre.storage@, used, KeyModel::TokenBalance(c, from)));
        assert(same_under(pre.storage@, used, KeyModel::TokenBalance(c, to)));
        let n = moves(pre.setting(), (used, None), c, from, to, amount).0;
        if moves(pre.setting(), (used, None), c, from, to, amount).1 is None {
            assert(same_under(used, n, KeyModel::TokenAllowance(c, from, spender)));
            assert forall|k: KeyModel|
                k != KeyModel::TokenAllowance(c, from, spender) && k != KeyModel::TokenBalance(c, from) && k
                    != KeyModel::TokenBalance(c, to) && !is_contract_key(k) implies #[trigger] same_under(
                pre.storage@,
                n,
                k,
            ) by {
                assert(same_under(pre.storage@, m, k));
                assert(same_under(m, used, k));
                assert(same_under(used, n, k));
            }
        }
    }
}

/// Burning by a spender, likewise: the amount has gone from the holder to nobody.
pub proof fn law_burn_from_takes(
    pre: Host,
    post: Host,
    c: Hash32,
    spender: ScAddress,
    from: ScAddress,
    amount: i128,
    res: Result<(), HostError>,
)
    requires
        is_ready(pre, c),
        amount >= 0,
        acts(pre, post, Ok(()), Action::BurnFrom { spender, from, amount }, spender, res),
    ensures
        ({
            let (m, n) = (pre.storage@, post.storage@);
            let seq = pre.ledger->Some_0.sequence_number;
            let goes = can_spend(m, c, from, amount as int);
            &&& can_use(pre, c, from, spender, amount as int) && !outlives_entries(pre, c, from, spender) && goes
                ==> res is Ok
            &&& usable(m, c, from, spender, seq) == amount && goes ==> res is Ok
            &&& !can_use(pre, c, from, spender, amount as int) ==> res == Err::<(), HostError>(
                token_error(pre.setting(), ContractError::AllowanceError),
            )
            &&& res is Ok ==> goes && can_use(pre, c, from, spender, amount as int)
            &&& res is Ok ==> usable(n, c, from, spender, seq) == usable(m, c, from, spender, seq) - amount
            &&& res is Ok ==> amount_at(n, c, from) == amount_at(m, c, from) - amount
            &&& res is Ok ==> only_two(
                m,
                n,
                KeyModel::TokenAllowance(c, from, spender),
                KeyModel::TokenBalance(c, from),
            )
        }),
{
    lemma_ready(pre, c);
    let m = bump_step(pre, c).0;
    lemma_use(pre, m, c, from, spender, amount);
    if let Ok(used) = super::allowance::spent_allowance(pre.setting(), m, c, from, spender, amount) {
        assert forall|k: KeyModel| k is TokenInstance || k is Account || k is TokenBalance implies #[trigger] same_under(
            pre.storage@,
            used,
            k,
        ) by {
            assert(same_under(pre.storage@, m, k));
            assert(same_under(m, used, k));
        }
        assert(same_under(pre.storage@, used, KeyModel::TokenBalance(c, from)));
        lemma_spend(pre, used, c, from, amount);
        if let Ok(n) = super::balance::spent(pre.setting(), used, c, from, amount) {
            assert(same_under(used, n, KeyModel::TokenAllowance(c, from, spender)));
            assert forall|k: KeyModel|
                k != KeyModel::TokenAllowance(c, from, spender) && k != KeyModel::TokenBalance(c, from)
                    && !is_contract_key(k) implies #[trigger] same_under(pre.storage@, n, k) by {
                assert(same_under(pre.storage@, m, k));
                assert(same_under(m, used, k));
                assert(same_under(used, n, k));
            }
        }
    }
}

/// Burning succeeds if and only if the holder may use what it has and has as much. Then
/// it has that much less, and nothing else of the token has changed.
pub proof fn law_burn_takes(
    pre: Host,
    post: Host,
    c: Hash32,
    from: ScAddress,
    amount: i128,
    res: Result<(), HostError>,
)
    requires
        is_ready(pre, c),
        amount >= 0,
        acts(pre, post, Ok(()), Action::Burn { from, amount }, from, res),
    ensures
        res is Ok <==> can_spend(pre.storage@, c, from, amount as int),
        res is Ok ==> amount_at(post.storage@, c, from) == amount_at(pre.storage@, c, from) - amount,
        res is Ok ==> only(pre.storage@, post.storage@, KeyModel::TokenBalance(c, from)),
{
    lemma_ready(pre, c);
    let m = bump_step(pre, c).0;
    let key = KeyModel::TokenBalance(c, from);
    assert(same_under(pre.storage@, m, key));
    lemma_spend(pre, m, c, from, amount);
    if let Ok(n) = super::balance::spent(pre.setting(), m, c, from, amount) {
        assert forall|k: KeyModel| k != key && !is_contract_key(k) implies #[trigger] same_under(pre.storage@, n, k) by {
            assert(same_under(pre.storage@, m, k));
            assert(same_under(m, n, k));
        }
    }
}

/// A clawback, once it may be done, succeeds if and only if the holder has as much,
/// whether or not it may use it. Then it has that much less, may use what is left as
/// little or as much as before, and nothing else of the token has changed.
pub proof fn law_clawback_takes(
    pre: Host,
    post: Host,
    c: Hash32,
    from: ScAddress,
    amount: i128,
    admin: ScAddress,
    res: Result<(), HostError>,
)
    requires
        is_ready(pre, c),
        amount >= 0,
        acts(pre, post, Ok(()), Action::Clawback { from, amount }, admin, res),
    ensures
        res is Ok <==> amount_at(pre.storage@, c, from) >= amount,
        res is Ok ==> amount_at(post.storage@, c, from) == amount_at(pre.storage@, c, from) - amount,
        res is Ok && balance_at(pre.storage@, c, from) is Some ==> {
            let (b, a) = (balance_at(pre.storage@, c, from)->Some_0, balance_at(post.storage@, c, from));
            a is Some && a->Some_0.authorized == b.authorized && a->Some_0.clawback == b.clawback
        },
        res is Ok ==> only(pre.storage@, post.storage@, KeyModel::TokenBalance(c, from)),
        res is Err ==> res == Err::<(), HostError>(token_error(pre.setting(), ContractError::BalanceError)),
{
    lemma_ready(pre, c);
    let m = bump_step(pre, c).0;
    let key = KeyModel::TokenBalance(c, from);
    assert(same_under(pre.storage@, m, key));
    if let Ok(n) = super::balance::taken(pre.setting(), m, c, from, amount) {
        assert forall|k: KeyModel| k != key && !is_contract_key(k) implies #[trigger] same_under(pre.storage@, n, k) by {
            assert(same_under(pre.storage@, m, k));
        }
    }
}

/// Minting succeeds if and only if the receiver may use what it has and has room for the
/// amount. Then it has that much more, and nothing else of the token has changed. A
/// receiver that is new may use what it has, and can be clawed back from if the issuer
/// wants that of new holders.
pub proof fn law_mint_gives(
    pre: Host,
    post: Host,
    c: Hash32,
    to: ScAddress,
    amount: i128,
    admin: ScAddress,
    res: Result<(), HostError>,
)
    requires
        is_ready(pre, c),
        amount >= 0,
        acts(pre, post, Ok(()), Action::Mint { to, amount }, admin, res),
    ensures
        res is Ok <==> can_receive(pre.storage@, c, to, amount as int),
        res is Ok ==> {
            let (b, a) = (balance_at(pre.storage@, c, to), balance_at(post.storage@, c, to));
            &&& amount_at(post.storage@, c, to) == amount_at(pre.storage@, c, to) + amount
            &&& a is Some
            &&& a->Some_0.authorized
            &&& b is Some ==> a->Some_0.clawback == b->Some_0.clawback
            &&& b is None ==> a->Some_0.clawback == demands_at(pre.storage@, c)->Some_0.clawback_enabled
        },
        res is Ok ==> only(pre.storage@, post.storage@, KeyModel::TokenBalance(c, to)),
        !may_use(pre.storage@, c, to) ==> res == Err::<(), HostError>(
            token_error(pre.setting(), ContractError::BalanceDeauthorizedError),
        ),
{
    lemma_ready(pre, c);
    let m = bump_step(pre, c).0;
    let key = KeyModel::TokenBalance(c, to);
    assert(same_under(pre.storage@, m, key));
    lemma_same_demands(pre.storage@, m, c);
    lemma_receive(pre, m, c, to, amount);
    if let Ok(n) = super::balance::received(pre.setting(), m, c, to, amount) {
        assert forall|k: KeyModel| k != key && !is_contract_key(k) implies #[trigger] same_under(pre.storage@, n, k) by {
            assert(same_under(pre.storage@, m, k));
            assert(same_under(m, n, k));
        }
    }
}

/// Letting a holder use what it has always succeeds, and taking that away does if and
/// only if the issuer kept the right to. Then the holder may use it or not, as was said;
/// it has as much as before, and can be clawed back from as before, or as the issuer
/// wants of new holders; nothing else of the token has changed.
pub proof fn law_authorization_is_set(
    pre: Host,
    post: Host,
    c: Hash32,
    addr: ScAddress,
    authorize: bool,
    admin: ScAddress,
    res: Result<(), HostError>,
)
    requires
        is_ready(pre, c),
        acts(pre, post, Ok(()), Action::SetAuthorized { addr, authorize }, admin, res),
    ensures
        res is Ok <==> authorize || demands_at(pre.storage@, c)->Some_0.auth_revocable,
        res is Ok ==> {
            let (b, a) = (balance_at(pre.storage@, c, addr), balance_at(post.storage@, c, addr));
            &&& a is Some
            &&& a->Some_0.authorized == authorize
            &&& may_use(post.storage@, c, addr) == authorize
            &&& amount_at(post.storage@, c, addr) == amount_at(pre.storage@, c, addr)
            &&& b is Some ==> a->Some_0.clawback == b->Some_0.clawback
            &&& b is None ==> a->Some_0.clawback == demands_at(pre.storage@, c)->Some_0.clawback_enabled
            &&& only(pre.storage@, post.storage@, KeyModel::TokenBalance(c, addr))
            &&& authorized(post.setting(), post.storage@, c, addr) == Ok::<bool, HostError>(authorize)
        },
        res is Err ==> res == Err::<(), HostError>(
            token_error(pre.setting(), ContractError::OperationNotSupportedError),
        ),
{
    lemma_ready(pre, c);
    let m = bump_step(pre, c).0;
    let key = KeyModel::TokenBalance(c, addr);
    assert(same_under(pre.storage@, m, key));
    lemma_same_demands(pre.storage@, m, c);
    lemma_demands(pre.setting(), m, c);
    if let Ok(n) = super::balance::with_authorization(pre.setting(), m, c, addr, authorize) {
        assert forall|k: KeyModel| k != key && !is_contract_key(k) implies #[trigger] same_under(pre.storage@, n, k) by {
            assert(same_under(pre.storage@, m, k));
        }
    }
}

/// A new administrator takes the place of the old one; the asset, the name and the
/// symbol stay, and nothing else of the token has changed.
pub proof fn law_administrator_is_set(
    pre: Host,
    post: Host,
    c: Hash32,
    new_admin: ScAddress,
    admin: ScAddress,
    res: Result<(), HostError>,
)
    requires
        is_ready(pre, c),
        acts(pre, post, Ok(()), Action::SetAdmin { new_admin }, admin, res),
    ensures
        res is Ok,
        ({
            let (t, u) = (instance_at(pre.storage@, c), instance_at(post.storage@, c));
            &&& u is Some
            &&& u->Some_0.admin == Some(new_admin)
            &&& u->Some_0.asset_info == t->Some_0.asset_info
            &&& u->Some_0.metadata == t->Some_0.metadata
        }),
        only(pre.storage@, post.storage@, KeyModel::TokenInstance(c)),
        administrator(post.setting(), post.storage@, c) == Ok::<ScAddress, HostError>(new_admin),
{
    lemma_ready(pre, c);
    let m = bump_step(pre, c).0;
    let key = KeyModel::TokenInstance(c);
    assert(same_under(pre.storage@, m, key));
    assert forall|k: KeyModel| k != key && !is_contract_key(k) implies #[trigger] same_under(
        pre.storage@,
        post.storage@,
        k,
    ) by {
        assert(same_under(pre.storage@, m, k));
    }
}

/// Who has to agree to an action of a token: the holder or the spender who acts, and
/// for the administrator's actions the one that the token has.
pub open spec fn actor_of(m: Entries, c: Hash32, action: Action) -> Option<ScAddress> {
    match action {
        Action::Approve { from, .. } => Some(from),
        Action::Transfer { from, .. } => Some(from),
        Action::TransferFrom { spender, .. } => Some(spender),
        Action::Burn { from, .. } => Some(from),
        Action::BurnFrom { spender, .. } => Some(spender),
        Action::Clawback { .. } => instance_at(m, c)->Some_0.admin,
        Action::SetAuthorized { .. } => instance_at(m, c)->Some_0.admin,
        Action::Mint { .. } => instance_at(m, c)->Some_0.admin,
        Action::SetAdmin { .. } => instance_at(m, c)->Some_0.admin,
    }
}

/// What succeeds was agreed to by the one who has to agree: by an agreement to the very
/// call, which is used up by it, unless the one called the token itself. Where the
/// administrator has to, there is one; what is burned is no native token; what is clawed
/// back may be.
pub proof fn law_actor_agreed(
    pre: Host,
    post: Host,
    c: Hash32,
    action: Action,
    name: Seq<u8>,
    args: Seq<Val>,
)
    requires
        pre.wf(),
        is_ready(pre, c),
        performs(pre, post, action, Ok(())),
        pre.authorization_manager.mode == AuthorizationMode::Enforcing,
        is_running_call(pre, c, name, args),
    ensures
        actor_of(pre.storage@, c, action) is Some,
        ({
            let who = actor_of(pre.storage@, c, action)->Some_0;
            is_caller(pre, who) || exists|i: int| #[trigger]
                one_is_used(given(pre), given(post), i) && is_for_call(pre.objs(), given(pre)[i], who, c, name, args)
        }),
        action is Burn || action is BurnFrom ==> !(instance_at(pre.storage@, c)->Some_0.asset_info->Some_0 is Native),
        action matches Action::Clawback { from, .. } ==> balance_at(pre.storage@, c, from) is Some && balance_at(
            pre.storage@,
            c,
            from,
        )->Some_0.clawback,
{
    lemma_ready(pre, c);
    let who = guard(pre, action)->Ok_0;
    assert(actor_of(pre.storage@, c, action) == Some(who));
    let (mid, asked) = choose|mid: Host, asked: Result<(), HostError>| #[trigger]
        asks_of(pre, mid, who, asked) && acts(mid, post, asked, action, who, Ok(()));
    if !is_caller(pre, who) {
        law_known_address_needs_agreement(pre, mid, who, c, name, args);
        assert(given(post) == given(mid));
    }
}

/// What can be asked at all, and is agreed to, is done: its outcome is that of the action
/// itself.
pub proof fn law_agreed_action_is_done(
    pre: Host,
    post: Host,
    c: Hash32,
    action: Action,
    res: Result<(), HostError>,
)
    requires
        is_ready(pre, c),
        performs(pre, post, action, res),
        super::contract::amount_of(action) >= 0,
        actor_of(pre.storage@, c, action) is Some,
        action is Burn || action is BurnFrom ==> !(instance_at(pre.storage@, c)->Some_0.asset_info->Some_0 is Native),
        action matches Action::Clawback { from, .. } ==> balance_at(pre.storage@, c, from) is Some && balance_at(
            pre.storage@,
            c,
            from,
        )->Some_0.clawback,
    ensures
        exists|mid: Host, asked: Result<(), HostError>| #[trigger]
            asks_of(pre, mid, actor_of(pre.storage@, c, action)->Some_0, asked) && acts(
                mid,
                post,
                asked,
                action,
                actor_of(pre.storage@, c, action)->Some_0,
                res,
            ),
{
    lemma_ready(pre, c);
    assert(guard(pre, action) == Ok::<ScAddress, HostError>(actor_of(pre.storage@, c, action)->Some_0));
}

/// An action that was done is reported, once, at the end of the log, with the one who
/// did it, whom it was done to, and how much it was about.
pub proof fn law_action_is_reported(pre: Host, post: Host, c: Hash32, action: Action, who: ScAddress)
    requires
        is_ready(pre, c),
        acts(pre, post, Ok(()), action, who, Ok(())),
    ensures
        post.events@.len() == pre.events@.len() + 1,
        post.events@.drop_last() == pre.events@,
        post.events@.last() is Token,
        post.events@.last()->Token_contract_id == c,
        ({
            let e = post.events@.last()->event;
            match action {
                Action::Approve { from, spender, amount, expiration_ledger } => e == (TokenEvent::Approve {
                    from,
                    spender,
                    amount,
                    expiration_ledger,
                }),
                Action::Transfer { from, to, amount } => e == (TokenEvent::Transfer { from, to, amount }),
                Action::TransferFrom { from, to, amount, .. } => e == (TokenEvent::Transfer { from, to, amount }),
                Action::Burn { from, amount } => e == (TokenEvent::Burn { from, amount }),
                Action::BurnFrom { from, amount, .. } => e == (TokenEvent::Burn { from, amount }),
                Action::Clawback { from, amount } => e == (TokenEvent::Clawback { admin: who, from, amount }),
                Action::SetAuthorized { addr, authorize } => e == (TokenEvent::SetAuthorized {
                    admin: who,
                    id: addr,
                    authorize,
                }),
                Action::Mint { to, amount } => e == (TokenEvent::Mint { admin: who, to, amount }),
                Action::SetAdmin { new_admin } => e == (TokenEvent::SetAdmin { admin: who, new_admin }),
            }
        }),
{
    lemma_ready(pre, c);
    assert(post.events@.drop_last() =~= pre.events@);
}

/// Using a token gives its contract at least six days of life, in ledgers, and seven if
/// it had no more than six.
pub proof fn law_use_keeps_token_alive(pre: Host, post: Host, c: Hash32, action: Action, who: ScAddress)
    requires
        is_ready(pre, c),
        acts(pre, post, Ok(()), action, who, Ok(())),
        pre.ledger->Some_0.max_entry_expiration > 7 * 17280,
        pre.ledger->Some_0.sequence_number + 7 * 17280 <= u32::MAX,
    ensures
        ({
            let key = KeyModel::ContractInstance(c);
            let (before, after) = (pre.storage@[key].expiration_ledger, post.storage@[key].expiration_ledger);
            let seq = pre.ledger->Some_0.sequence_number;
            &&& post.storage@.contains_key(key)
            &&& before - seq <= 6 * 17280 ==> after == seq + 7 * 17280
            &&& before - seq > 6 * 17280 ==> after == before
        }),
{
    lemma_ready(pre, c);
    reveal(bump_instance_and_code);
}

/// The symbol of a token of an issued asset is the code without the zeros that fill it
/// up, and its name is the symbol, a colon and the issuer's key as text. The native token
/// is called native.
pub proof fn law_names_follow_from_asset(a: AssetModel)
    ensures
        ({
            let (name, symbol) = super::metadata::name_and_symbol(a);
            &&& a is Native ==> name == symbol && name =~= seq![0x6eu8, 0x61u8, 0x74u8, 0x69u8, 0x76u8, 0x65u8]
            &&& !(a is Native) ==> {
                let (code, issuer) = match a {
                    AssetModel::AlphaNum4(code, issuer) => (code, issuer),
                    AssetModel::AlphaNum12(code, issuer) => (code, issuer),
                    AssetModel::Native => (Seq::<u8>::empty(), AccountId(crate::bignum::U256 { hi: 0, lo: 0 })),
                };
                &&& symbol.len() <= code.len()
                &&& forall|i: int| 0 <= i < symbol.len() ==> #[trigger] symbol[i] == code[i]
                &&& forall|i: int| symbol.len() <= i < code.len() ==> #[trigger] code[i] == 0
                &&& symbol.len() > 0 ==> symbol.last() != 0
                &&& name == symbol + seq![0x3au8] + account_strkey(be_bytes(issuer.0@, 32))
            }
        }),
{
    match a {
        AssetModel::AlphaNum4(code, issuer) => {
            lemma_trimmed(code);
            assert(trimmed(code).push(0x3a) =~= trimmed(code) + seq![0x3au8]);
        },
        AssetModel::AlphaNum12(code, issuer) => {
            lemma_trimmed(code);
            assert(trimmed(code).push(0x3a) =~= trimmed(code) + seq![0x3au8]);
        },
        AssetModel::Native => {},
    }
}

proof fn lemma_trimmed(code: Seq<u8>)
    ensures
        trimmed(code).len() <= code.len(),
        forall|i: int| 0 <= i < trimmed(code).len() ==> #[trigger] trimmed(code)[i] == code[i],
        forall|i: int| trimmed(code).len() <= i < code.len() ==> #[trigger] code[i] == 0,
        trimmed(code).len() > 0 ==> trimmed(code).last() != 0,
    decreases code.len(),
{
    if code.len() > 0 && code.last() == 0 {
        lemma_trimmed(code.drop_last());
        assert forall|i: int| trimmed(code).len() <= i < code.len() implies #[trigger] code[i] == 0 by {
            if i < code.len() - 1 {
                assert(code.drop_last()[i] == 0);
            }
        }
    }
}

/// What an asset is, by its bytes: native, or a code with an issuer that has the bytes for its
/// key.
pub proof fn law_assets_of_bytes(a: AssetBytes)
    ensures
        a is Native <==> asset_of_bytes(a) is Native,
        a matches AssetBytes::CreditAlphanum4(code, issuer) ==> issuer.len() == 32 ==> {
            &&& asset_of_bytes(a) is AlphaNum4
            &&& asset_of_bytes(a)->AlphaNum4_0 == code
            &&& be_bytes(asset_of_bytes(a)->AlphaNum4_1.0@, 32) == issuer
        },
        a matches AssetBytes::CreditAlphanum12(code, issuer) ==> issuer.len() == 32 ==> {
            &&& asset_of_bytes(a) is AlphaNum12
            &&& asset_of_bytes(a)->AlphaNum12_0 == code
            &&& be_bytes(asset_of_bytes(a)->AlphaNum12_1.0@, 32) == issuer
        },
{
    match a {
        AssetBytes::CreditAlphanum4(_, issuer) => if issuer.len() == 32 {
            crate::host_address::law_address_bytes_round_trip(issuer);
        },
        AssetBytes::CreditAlphanum12(_, issuer) => if issuer.len() == 32 {
            crate::host_address::law_address_bytes_round_trip(issuer);
        },
        AssetBytes::Native => {},
    }
}

/// A contract that became a token was none, and has the id that is the asset's. It stands for
/// the asset, has the name and the symbol of the asset, and has the issuer, if there is one,
/// for its administrator. No other entry changes.
pub proof fn law_token_is_made(pre: Host, post: Host, asset: BytesObject)
    requires
        pre.wf(),
        inits(pre, post, asset, Ok(())),
    ensures
        runs_a_contract(pre),
        ({
            let bytes = pre.objs()[spec_handle_to_index(asset.handle)]->Blob_1;
            let (m, n, c) = (pre.storage@, post.storage@, running(pre));
            &&& asset_contract_id(pre, bytes) == Ok::<Hash32, Fault>(c)
            &&& instance_at(m, c) matches Some(t) ==> t.asset_info is None
            &&& asset_of_xdr(bytes) is Some
            &&& instance_at(n, c) is Some
            &&& ({
                let (a, t) = (asset_of_bytes(asset_of_xdr(bytes)->Some_0), instance_at(n, c)->Some_0);
                &&& t.asset_info == Some(a)
                &&& t.metadata == Some(super::metadata::name_and_symbol(a))
                &&& a matches AssetModel::AlphaNum4(_, issuer) ==> t.admin == Some(ScAddress::Account(issuer))
                &&& a matches AssetModel::AlphaNum12(_, issuer) ==> t.admin == Some(ScAddress::Account(issuer))
                &&& a is Native && instance_at(m, c) is None ==> t.admin is None
            })
            &&& only(m, n, KeyModel::TokenInstance(c))
        }),
{
    let h = init_guard(pre, asset).0;
    let a = init_guard(pre, asset).1->Ok_0;
    super::contract::lemma_token_written(h, post, running(pre), a);
    assert(running_id(pre) == running(pre));
}

/// The name, the symbol and the administrator that are told are those that the token keeps
/// with its instance; amounts have seven decimal places.
pub proof fn law_instance_is_told(
    pre: Host,
    named: Host,
    name: StringObject,
    signed: Host,
    symbol: StringObject,
    admin: ScAddress,
)
    requires
        tells_name(pre, named, Ok(name)),
        tells_symbol(pre, signed, Ok(symbol)),
        tells_admin(pre, Ok(admin)),
    ensures
        runs_a_contract(pre),
        instance_at(pre.storage@, running(pre)) is Some,
        ({
            let t = instance_at(pre.storage@, running(pre))->Some_0;
            &&& t.metadata is Some
            &&& at(named, name.handle) == ObjModel::Blob(BlobKind::Text, t.metadata->Some_0.0)
            &&& at(signed, symbol.handle) == ObjModel::Blob(BlobKind::Text, t.metadata->Some_0.1)
            &&& t.admin == Some(admin)
        }),
        named.storage == pre.storage && signed.storage == pre.storage,
        super::metadata::DECIMAL == 7,
{
}

/// Where work is free and there is room for two objects, a contract whose id is the asset's,
/// and that is no token yet, can become one if the ledger is known and the code of the asset
/// is a text.
pub proof fn law_token_can_be_made(pre: Host, post: Host, asset: BytesObject, res: Result<(), HostError>)
    requires
        pre.wf(),
        val_ok(pre.objs(), asset.to_val()),
        inits(pre, post, asset, res),
        pre.budget.is_free(),
        pre.objs().len() + 2 < MAX_OBJECTS,
        runs_a_contract(pre),
        pre.ledger is Some,
        !pre.storage@.contains_key(KeyModel::TokenInstance(running(pre))),
        asset_of_xdr(pre.objs()[spec_handle_to_index(asset.handle)]->Blob_1) is Some,
        asset_contract_id(pre, pre.objs()[spec_handle_to_index(asset.handle)]->Blob_1) == Ok::<Hash32, Fault>(
            running(pre),
        ),
        match asset_of_xdr(pre.objs()[spec_handle_to_index(asset.handle)]->Blob_1)->Some_0 {
            AssetBytes::Native => true,
            AssetBytes::CreditAlphanum4(code, _) => valid_utf8(code) && code.len() <= u32::MAX,
            AssetBytes::CreditAlphanum12(code, _) => valid_utf8(code) && code.len() <= u32::MAX,
        },
    ensures
        res is Ok,
{
    assert forall|ty: crate::budget::ContractCostType, input: Option<u64>| #[trigger]
        crate::host::charge(pre, ty, input) == (pre, Ok::<(), HostError>(())) by {
        crate::collection_laws::law_free_work_is_allowed(pre, ty, input);
    }
    let h = init_guard(pre, asset).0;
    assert(h == pre);
    let a = init_guard(pre, asset).1->Ok_0;
    let t = super::contract::admin_steps(pre, running(pre), a);
    if super::contract::code_of(a) is Some {
        assert(t.1 is None);
        let code = super::contract::code_of(a)->Some_0;
        let issuer = super::asset_info::issuer_of(a)->Some_0;
        crate::bignum::lemma_be_bytes_len(issuer.0@, 32);
        let (named, mid, made) = choose|named: Host, mid: Host, made: Result<(), HostError>| #[trigger]
            super::contract::makes_asset_objects(named, mid, code, issuer, made) && crate::host_ledger::sets_storage(
                pre,
                named,
                t.0,
            ) && match made {
                Err(e) => post == mid && res == Err::<(), HostError>(e),
                Ok(_) => crate::host_ledger::sets_storage(
                    mid,
                    post,
                    super::contract::init_steps(pre, running(pre), a).0,
                ) && res == super::contract::outcome_of(super::contract::init_steps(pre, running(pre), a)),
            };
        lemma_free_objects(named, mid, code, issuer, made);
    }
}

proof fn lemma_free_objects(pre: Host, post: Host, code: Seq<u8>, issuer: AccountId, made: Result<(), HostError>)
    requires
        pre.budget.is_free(),
        pre.objs().len() + 2 < MAX_OBJECTS,
        code.len() <= u32::MAX,
        super::contract::makes_asset_objects(pre, post, code, issuer, made),
    ensures
        made is Ok,
{
    crate::bignum::lemma_be_bytes_len(issuer.0@, 32);
    let (mid, text) = choose|mid: Host, text: Result<u32, HostError>| #[trigger]
        crate::host_object::stores_copy(pre, mid, BlobKind::Text, code, text) && match text {
            Err(e) => post == mid && made == Err::<(), HostError>(e),
            Ok(_) => exists|key: Result<u32, HostError>| #[trigger]
                crate::host_object::stores_copy(mid, post, BlobKind::Bytes, be_bytes(issuer.0@, 32), key) && made
                    == match key {
                    Ok(_) => Ok::<(), HostError>(()),
                    Err(e) => Err(e),
                },
        };
    lemma_free_copy(pre, mid, BlobKind::Text, code, text);
    let key = choose|key: Result<u32, HostError>| #[trigger]
        crate::host_object::stores_copy(mid, post, BlobKind::Bytes, be_bytes(issuer.0@, 32), key) && made
            == match key {
            Ok(_) => Ok::<(), HostError>(()),
            Err(e) => Err(e),
        };
    lemma_free_copy(mid, post, BlobKind::Bytes, be_bytes(issuer.0@, 32), key);
}

proof fn lemma_free_copy(pre: Host, post: Host, kind: BlobKind, s: Seq<u8>, res: Result<u32, HostError>)
    requires
        pre.budget.is_free(),
        pre.objs().len() + 1 < MAX_OBJECTS,
        s.len() <= u32::MAX,
        crate::host_object::stores_copy(pre, post, kind, s, res),
    ensures
        res is Ok,
        post.budget.is_free(),
        post.objs().len() == pre.objs().len() + 1,
{
    assert forall|ty: crate::budget::ContractCostType, input: Option<u64>| #[trigger]
        crate::host::charge(pre, ty, input) == (pre, Ok::<(), HostError>(())) by {
        crate::collection_laws::law_free_work_is_allowed(pre, ty, input);
    }
}

} // verus!
