//! What holds of the token contract as a whole.

use super::admin::administrator;
use super::allowance::{law_spending_allowance, live_allowance, spent_allowance};
use super::asset_info::{asset_info, issuer_of};
use super::balance::{balance_amount, law_giving, law_taking};
use super::contract::{
    acts, amount_of, bump_step, guard, init_guard, inits, is_admin_action, lemma_token_written, moves, performs,
    running_id, steps, Action,
};
use super::instance::{token_error, Entries};
use super::metadata::{metadata, name_and_symbol};
use crate::error::{ContractError, HostError};
use crate::host::Host;
use crate::host_auth::asks_of;
use crate::host_contract::bump_instance_and_code;
use crate::host_frame::current_contract;
use crate::model::{Hash32, ScAddress};
use crate::storage::{AssetModel, KeyModel};
use crate::val::BytesObject;
use vstd::prelude::*;

verus! {

/// How much a holder has of a token.
pub open spec fn holding(host: Host, c: Hash32, a: ScAddress) -> int {
    balance_amount(host.setting(), host.storage@, c, a)->Ok_0 as int
}

pub open spec fn is_contract_key(k: KeyModel) -> bool {
    k is ContractInstance || k is ContractCode
}

/// Whether two sets of ledger entries have the same under a key.
pub open spec fn same_under(m: Entries, n: Entries, k: KeyModel) -> bool {
    &&& m.contains_key(k) == n.contains_key(k)
    &&& m.contains_key(k) ==> m[k] == n[k]
}

/// More life for a contract changes nothing but when the contract and its code
/// expire.
pub proof fn law_bump_step(host: Host, id: Hash32)
    ensures
        forall|k: KeyModel| !is_contract_key(k) ==> #[trigger] same_under(host.storage@, bump_step(host, id).0, k),
{
    reveal(bump_instance_and_code);
}

/// A transfer moves an amount: the sender has that much less and the receiver
/// that much more, and nobody else has more or less. What is sent to oneself
/// changes nothing.
pub proof fn law_transfer_moves_an_amount(
    pre: Host,
    post: Host,
    from: ScAddress,
    to: ScAddress,
    amount: i128,
    other: ScAddress,
)
    requires
        amount >= 0,
        acts(pre, post, Ok(()), Action::Transfer { from, to, amount }, from, Ok(())),
        other != from,
        other != to,
    ensures
        from != to ==> holding(post, running_id(pre), from) == holding(pre, running_id(pre), from) - amount,
        from != to ==> holding(post, running_id(pre), to) == holding(pre, running_id(pre), to) + amount,
        from == to ==> holding(post, running_id(pre), from) == holding(pre, running_id(pre), from),
        same_under(pre.storage@, post.storage@, KeyModel::TokenBalance(running_id(pre), other)),
{
    let id = running_id(pre);
    law_bump_step(pre, id);
    let s = bump_step(pre, id);
    assert(same_under(pre.storage@, s.0, KeyModel::TokenBalance(id, from)));
    assert(same_under(pre.storage@, s.0, KeyModel::TokenBalance(id, to)));
    assert(same_under(pre.storage@, s.0, KeyModel::TokenBalance(id, other)));
    lemma_moves(pre, s.0, id, from, to, amount, other);
}

proof fn lemma_moves(
    host: Host,
    m: Entries,
    id: Hash32,
    from: ScAddress,
    to: ScAddress,
    amount: i128,
    other: ScAddress,
)
    requires
        amount >= 0,
        moves(host.setting(), (m, None), id, from, to, amount).1 is None,
        other != from,
        other != to,
    ensures
        ({
            let w = host.setting();
            let out = moves(w, (m, None), id, from, to, amount).0;
            let before = |a: ScAddress| balance_amount(w, m, id, a)->Ok_0 as int;
            let after = |a: ScAddress| balance_amount(w, out, id, a)->Ok_0 as int;
            &&& from != to ==> after(from) == before(from) - amount && after(to) == before(to) + amount
            &&& from == to ==> after(from) == before(from)
            &&& same_under(m, out, KeyModel::TokenBalance(id, other))
        }),
{
    let w = host.setting();
    let mid = super::balance::spent(w, m, id, from, amount)->Ok_0;
    law_taking(w, m, id, from, amount);
    law_giving(w, mid, id, to, amount);
    let out = moves(w, (m, None), id, from, to, amount).0;
    assert(mid.contains_key(KeyModel::TokenBalance(id, other)) == m.contains_key(KeyModel::TokenBalance(id, other)));
    assert(out.contains_key(KeyModel::TokenBalance(id, other)) == mid.contains_key(KeyModel::TokenBalance(id, other)));
    assert(mid.contains_key(KeyModel::TokenBalance(id, to)) == m.contains_key(KeyModel::TokenBalance(id, to)) || from
        == to);
    assert(out.contains_key(KeyModel::TokenBalance(id, from)) == mid.contains_key(KeyModel::TokenBalance(id, from))
        || from == to);
}

/// A transfer by a spender moves an amount as any transfer does, and the spender
/// may take that much less after it. Nobody else has more or less, and nobody else
/// may take more or less.
pub proof fn law_transfer_from_uses_allowance(
    pre: Host,
    post: Host,
    spender: ScAddress,
    from: ScAddress,
    to: ScAddress,
    amount: i128,
    other: ScAddress,
    granted: (ScAddress, ScAddress),
)
    requires
        amount >= 0,
        acts(pre, post, Ok(()), Action::TransferFrom { spender, from, to, amount }, spender, Ok(())),
        other != from,
        other != to,
        granted != (from, spender),
    ensures
        allowance_falls(pre, post, running_id(pre), from, spender, amount),
        from != to ==> holding(post, running_id(pre), from) == holding(pre, running_id(pre), from) - amount,
        from != to ==> holding(post, running_id(pre), to) == holding(pre, running_id(pre), to) + amount,
        from == to ==> holding(post, running_id(pre), from) == holding(pre, running_id(pre), from),
        same_under(pre.storage@, post.storage@, KeyModel::TokenBalance(running_id(pre), other)),
        same_under(pre.storage@, post.storage@, KeyModel::TokenAllowance(running_id(pre), granted.0, granted.1)),
{
    let id = running_id(pre);
    let w = pre.setting();
    let (bf, bt) = (KeyModel::TokenBalance(id, from), KeyModel::TokenBalance(id, to));
    let m = bump_step(pre, id).0;
    let n = spent_allowance(w, m, id, from, spender, amount)->Ok_0;
    lemma_spends_allowance(pre, id, from, spender, amount, bf);
    lemma_spends_allowance(pre, id, from, spender, amount, bt);
    lemma_spends_allowance(pre, id, from, spender, amount, KeyModel::TokenBalance(id, other));
    lemma_spends_allowance(pre, id, from, spender, amount, KeyModel::TokenAllowance(id, granted.0, granted.1));
    lemma_moves(pre, n, id, from, to, amount, other);
    lemma_moves_keep_allowance(pre, n, id, from, to, amount, from, spender);
    lemma_moves_keep_allowance(pre, n, id, from, to, amount, granted.0, granted.1);
}

/// Burning by a spender takes an amount from a holder as any burning does, and the
/// spender may take that much less after it. Nobody else has more or less, and
/// nobody else may take more or less.
pub proof fn law_burn_from_uses_allowance(
    pre: Host,
    post: Host,
    spender: ScAddress,
    from: ScAddress,
    amount: i128,
    other: ScAddress,
    granted: (ScAddress, ScAddress),
)
    requires
        amount >= 0,
        acts(pre, post, Ok(()), Action::BurnFrom { spender, from, amount }, spender, Ok(())),
        other != from,
        granted != (from, spender),
    ensures
        allowance_falls(pre, post, running_id(pre), from, spender, amount),
        holding(post, running_id(pre), from) == holding(pre, running_id(pre), from) - amount,
        same_under(pre.storage@, post.storage@, KeyModel::TokenBalance(running_id(pre), other)),
        same_under(pre.storage@, post.storage@, KeyModel::TokenAllowance(running_id(pre), granted.0, granted.1)),
{
    let id = running_id(pre);
    let w = pre.setting();
    let m = bump_step(pre, id).0;
    let n = spent_allowance(w, m, id, from, spender, amount)->Ok_0;
    let out = post.storage@;
    let (held, kept) = (KeyModel::TokenBalance(id, other), KeyModel::TokenAllowance(id, granted.0, granted.1));
    lemma_spends_allowance(pre, id, from, spender, amount, KeyModel::TokenBalance(id, from));
    lemma_spends_allowance(pre, id, from, spender, amount, held);
    lemma_spends_allowance(pre, id, from, spender, amount, kept);
    law_taking(w, n, id, from, amount);
    assert(out.contains_key(held) == n.contains_key(held));
    assert(out.contains_key(kept) == n.contains_key(kept));
    let used = KeyModel::TokenAllowance(id, from, spender);
    assert(out.contains_key(used) == n.contains_key(used));
}

/// What a spender may take of a holder's has become less by an amount.
pub open spec fn allowance_falls(
    pre: Host,
    post: Host,
    id: Hash32,
    from: ScAddress,
    spender: ScAddress,
    amount: i128,
) -> bool {
    let before = live_allowance(pre.setting(), pre.storage@, id, from, spender);
    let after = live_allowance(post.setting(), post.storage@, id, from, spender);
    before is Ok && after is Ok && after->Ok_0.amount == before->Ok_0.amount - amount
}

proof fn lemma_spends_allowance(
    host: Host,
    id: Hash32,
    from: ScAddress,
    spender: ScAddress,
    amount: i128,
    k: KeyModel,
)
    requires
        amount >= 0,
        spent_allowance(host.setting(), bump_step(host, id).0, id, from, spender, amount) is Ok,
        k != KeyModel::TokenAllowance(id, from, spender),
        !is_contract_key(k),
    ensures
        ({
            let w = host.setting();
            let n = spent_allowance(w, bump_step(host, id).0, id, from, spender, amount)->Ok_0;
            let before = live_allowance(w, host.storage@, id, from, spender);
            let after = live_allowance(w, n, id, from, spender);
            &&& before is Ok && after is Ok
            &&& after->Ok_0.amount == before->Ok_0.amount - amount
            &&& same_under(host.storage@, n, k)
        }),
{
    let w = host.setting();
    let m = bump_step(host, id).0;
    law_bump_step(host, id);
    assert(same_under(host.storage@, m, KeyModel::TokenAllowance(id, from, spender)));
    assert(same_under(host.storage@, m, k));
    law_spending_allowance(w, m, id, from, spender, amount);
    let n = spent_allowance(w, m, id, from, spender, amount)->Ok_0;
    assert(n.contains_key(k) == m.contains_key(k));
}

proof fn lemma_moves_keep_allowance(
    host: Host,
    m: Entries,
    id: Hash32,
    from: ScAddress,
    to: ScAddress,
    amount: i128,
    owner: ScAddress,
    spender: ScAddress,
)
    requires
        amount >= 0,
        moves(host.setting(), (m, None), id, from, to, amount).1 is None,
    ensures
        same_under(
            m,
            moves(host.setting(), (m, None), id, from, to, amount).0,
            KeyModel::TokenAllowance(id, owner, spender),
        ),
{
    let w = host.setting();
    let k = KeyModel::TokenAllowance(id, owner, spender);
    let mid = super::balance::spent(w, m, id, from, amount)->Ok_0;
    law_taking(w, m, id, from, amount);
    law_giving(w, mid, id, to, amount);
    let out = moves(w, (m, None), id, from, to, amount).0;
    assert(mid.contains_key(k) == m.contains_key(k));
    assert(out.contains_key(k) == mid.contains_key(k));
}

/// Minting gives the receiver an amount, and takes it from nobody.
pub proof fn law_mint_gives_an_amount(
    pre: Host,
    post: Host,
    to: ScAddress,
    amount: i128,
    who: ScAddress,
    other: ScAddress,
)
    requires
        amount >= 0,
        acts(pre, post, Ok(()), Action::Mint { to, amount }, who, Ok(())),
        other != to,
    ensures
        holding(post, running_id(pre), to) == holding(pre, running_id(pre), to) + amount,
        same_under(pre.storage@, post.storage@, KeyModel::TokenBalance(running_id(pre), other)),
{
    let id = running_id(pre);
    law_bump_step(pre, id);
    let s = bump_step(pre, id);
    assert(same_under(pre.storage@, s.0, KeyModel::TokenBalance(id, to)));
    assert(same_under(pre.storage@, s.0, KeyModel::TokenBalance(id, other)));
    law_giving(pre.setting(), s.0, id, to, amount);
    assert(post.storage@.contains_key(KeyModel::TokenBalance(id, other)) == s.0.contains_key(
        KeyModel::TokenBalance(id, other),
    ));
}

/// Burning and clawback take an amount from a holder, and give it to nobody.
pub proof fn law_burn_and_clawback_take_an_amount(
    pre: Host,
    post: Host,
    action: Action,
    from: ScAddress,
    amount: i128,
    who: ScAddress,
    other: ScAddress,
)
    requires
        amount >= 0,
        action == (Action::Burn { from, amount }) || action == (Action::Clawback { from, amount }),
        acts(pre, post, Ok(()), action, who, Ok(())),
        other != from,
    ensures
        holding(post, running_id(pre), from) == holding(pre, running_id(pre), from) - amount,
        same_under(pre.storage@, post.storage@, KeyModel::TokenBalance(running_id(pre), other)),
{
    let id = running_id(pre);
    law_bump_step(pre, id);
    let s = bump_step(pre, id);
    assert(same_under(pre.storage@, s.0, KeyModel::TokenBalance(id, from)));
    assert(same_under(pre.storage@, s.0, KeyModel::TokenBalance(id, other)));
    law_taking(pre.setting(), s.0, id, from, amount);
    assert(post.storage@.contains_key(KeyModel::TokenBalance(id, other)) == s.0.contains_key(
        KeyModel::TokenBalance(id, other),
    ));
}

/// A negative amount is refused, whatever was to be done with it, and nothing
/// changes.
pub proof fn law_negative_amounts_are_refused(pre: Host, post: Host, action: Action, res: Result<(), HostError>)
    requires
        amount_of(action) < 0,
        performs(pre, post, action, res),
    ensures
        post == pre,
        res == Err::<(), HostError>(token_error(pre.setting(), ContractError::NegativeAmountError)),
{
}

/// Without an administrator, whatever the administrator would have to agree to
/// fails, and nothing changes.
pub proof fn law_without_admin_nothing_is_administered(pre: Host, post: Host, action: Action, res: Result<(), HostError>)
    requires
        is_admin_action(action),
        current_contract(pre) is Ok,
        administrator(pre.setting(), pre.storage@, running_id(pre)) is Err,
        performs(pre, post, action, res),
    ensures
        post == pre,
        res is Err,
{
}

/// Nothing but the administrator's actions makes or changes the administrator: a
/// token without one stays without one, whatever is asked of it.
pub proof fn law_no_admin_stays_no_admin(pre: Host, post: Host, action: Action, res: Result<(), HostError>)
    requires
        pre.wf(),
        current_contract(pre) is Ok,
        administrator(pre.setting(), pre.storage@, running_id(pre)) is Err,
        performs(pre, post, action, res),
    ensures
        administrator(post.setting(), post.storage@, running_id(pre)) is Err,
{
    if let Ok(who) = guard(pre, action) {
        let (mid, asked) = choose|mid: Host, asked: Result<(), HostError>| #[trigger]
            asks_of(pre, mid, who, asked) && acts(mid, post, asked, action, who, res);
        if asked is Ok {
            let id = running_id(pre);
            assert(running_id(mid) == id);
            law_bump_step(mid, id);
            assert(same_under(mid.storage@, bump_step(mid, id).0, KeyModel::TokenInstance(id)));
            lemma_steps_keep_instance(mid, id, action);
        }
    }
}

proof fn lemma_steps_keep_instance(host: Host, id: Hash32, action: Action)
    requires
        !is_admin_action(action),
    ensures
        same_under(
            bump_step(host, id).0,
            steps(host, id, action).0,
            KeyModel::TokenInstance(id),
        ),
{
}

/// The native token is made without an administrator: if the contract had none
/// before, whatever checks the administrator fails for it from then on.
pub proof fn law_native_token_is_not_administered(
    pre: Host,
    made: Host,
    asset_bytes: BytesObject,
    post: Host,
    action: Action,
    res: Result<(), HostError>,
)
    requires
        pre.wf(),
        administrator(pre.setting(), pre.storage@, running_id(pre)) is Err,
        init_guard(pre, asset_bytes).1 == Ok::<AssetModel, HostError>(AssetModel::Native),
        inits(pre, made, asset_bytes, Ok(())),
        is_admin_action(action),
        performs(made, post, action, res),
    ensures
        administrator(made.setting(), made.storage@, running_id(made)) is Err,
        post == made,
        res is Err,
{
    lemma_token_written(init_guard(pre, asset_bytes).0, made, running_id(pre), AssetModel::Native);
    assert(running_id(made) == running_id(pre));
    assert(current_contract(made) is Ok);
}

/// A token that was made for an asset stands for it, has its issuer for
/// administrator, has the name and the symbol that follow from it, and cannot be
/// made again.
pub proof fn law_new_token_is_read_back(
    pre: Host,
    made: Host,
    asset_bytes: BytesObject,
    a: AssetModel,
    again: BytesObject,
)
    requires
        pre.wf(),
        init_guard(pre, asset_bytes).1 == Ok::<AssetModel, HostError>(a),
        inits(pre, made, asset_bytes, Ok(())),
    ensures
        asset_info(made.setting(), made.storage@, running_id(pre)) == Ok::<AssetModel, HostError>(a),
        metadata(made.setting(), made.storage@, running_id(pre)) == Ok::<(Seq<u8>, Seq<u8>), HostError>(
            name_and_symbol(a),
        ),
        issuer_of(a) matches Some(issuer) ==> administrator(made.setting(), made.storage@, running_id(pre)) == Ok::<
            ScAddress,
            HostError,
        >(ScAddress::Account(issuer)),
        init_guard(made, again) == (
            made,
            Err::<AssetModel, HostError>(
                token_error(made.setting(), ContractError::AlreadyInitializedError),
            ),
        ),
{
    lemma_token_written(init_guard(pre, asset_bytes).0, made, running_id(pre), a);
    assert(running_id(made) == running_id(pre));
}

} // verus!
