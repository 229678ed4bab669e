//! What becomes of contract data, and how long entries live.

use crate::error::{HostError, ScErrorCode, ScErrorType};
use crate::host::{Host, LedgerInfo, DEFAULT_HOST_DEPTH_LIMIT};
use crate::host_contract::{bump_instance_and_code, bumps};
use crate::host_convert::{adds, flat_entries, lemma_tree_vals, pair_up, tree_val, tree_vals};
use crate::host_ledger::{
    bump_entry, bumps_datum, deletes_instance_datum, drops_datum, finds_instance_datum, first_expiration, gets_datum,
    has_datum,
    instance_map, loads_instance, puts_datum, puts_instance_datum,
};
use crate::host_map::{law_map_insert, law_map_remove, lookup, within_depth};
use crate::model::{deep, deep_seq, map_ok, nesting, val_ok, Deep, Hash32};
use crate::scval::{sc_deep, ScVal};
use crate::storage::{ContractDataDurability, ContractExecutable, DataModel, EntryModel, KeyModel, StorageType};
use crate::val::Val;
use vstd::prelude::*;

verus! {

/// The id of the contract that is running.
pub open spec fn running(host: Host) -> Hash32 {
    host.context@.last().frame.contract_call()->Some_0.0
}

/// Whether a contract is running.
pub open spec fn runs_a_contract(host: Host) -> bool {
    host.context@.len() > 0 && host.context@.last().frame.contract_call() is Some
}

/// The key of the ledger entry of a datum of the running contract: it has the
/// contract, what the key of the datum denotes, and whether it is temporary.
pub open spec fn entry_key(host: Host, k: Val, t: StorageType) -> KeyModel {
    KeyModel::ContractData(
        running(host),
        deep(host.objs(), k),
        if t is Temporary {
            ContractDataDurability::Temporary
        } else {
            ContractDataDurability::Persistent
        },
    )
}

/// Whether two sets of entries are the same but for one key.
pub open spec fn same_but(m: Map<KeyModel, EntryModel>, n: Map<KeyModel, EntryModel>, key: KeyModel) -> bool {
    forall|k: KeyModel|
        k != key ==> (#[trigger] n.contains_key(k) <==> m.contains_key(k)) && (m.contains_key(k) ==> n[k] == m[k])
}

/// A datum that was put into the ledger is there, under its key and no other. An
/// entry that was there lives as long as before; a new one lives for the least number
/// of ledgers that entries of its type do, the present one counted.
pub proof fn law_put_datum_is_there(pre: Host, post: Host, k: Val, v: Val, t: StorageType)
    requires
        !(t is Instance),
        puts_datum(pre, post, k, v, t, Ok(())),
    ensures
        runs_a_contract(pre),
        ({
            let key = entry_key(pre, k, t);
            &&& post.storage@.contains_key(key)
            &&& post.storage@[key].data == DataModel::ContractData(deep(pre.objs(), v))
            &&& same_but(pre.storage@, post.storage@, key)
            &&& pre.storage@.contains_key(key) ==> post.storage@[key].expiration_ledger
                == pre.storage@[key].expiration_ledger
            &&& !pre.storage@.contains_key(key) ==> {
                let li = pre.ledger->Some_0;
                let min = if t is Temporary {
                    li.min_temp_entry_expiration
                } else {
                    li.min_persistent_entry_expiration
                };
                &&& pre.ledger is Some
                &&& min > 0 && li.sequence_number + min - 1 <= u32::MAX ==> post.storage@[key].expiration_ledger
                    == li.sequence_number + min - 1
            }
        }),
        post == (Host { storage: post.storage, ..pre }),
{
}

/// A good datum can be put into the ledger by a running contract, if neither the key
/// nor the datum nests too deep.
pub proof fn law_good_datum_can_be_put(
    pre: Host,
    post: Host,
    k: Val,
    v: Val,
    t: StorageType,
    res: Result<(), HostError>,
)
    requires
        !(t is Instance),
        puts_datum(pre, post, k, v, t, res),
        val_ok(pre.objs(), k),
        val_ok(pre.objs(), v),
        runs_a_contract(pre),
        pre.ledger is Some,
        nesting(deep(pre.objs(), k)) <= DEFAULT_HOST_DEPTH_LIMIT,
        nesting(deep(pre.objs(), v)) <= DEFAULT_HOST_DEPTH_LIMIT,
        pre.storage@.contains_key(entry_key(pre, k, t)) ==> pre.storage@[entry_key(pre, k, t)].data is ContractData,
    ensures
        res is Ok,
{
}

/// Whether a datum is there is whether its entry is, and what is read is what the
/// entry denotes. Reading changes no entry.
pub proof fn law_datum_is_what_its_entry_is(
    pre: Host,
    asked: Host,
    there: bool,
    read: Host,
    k: Val,
    t: StorageType,
    res: Result<Val, HostError>,
)
    requires
        pre.wf(),
        !(t is Instance),
        has_datum(pre, asked, k, t, Ok(there)),
        gets_datum(pre, read, k, t, res),
    ensures
        asked == pre,
        there <==> pre.storage@.contains_key(entry_key(pre, k, t)),
        read.storage == pre.storage,
        !there ==> res == Err::<Val, HostError>(pre.spec_err((ScErrorType::Storage, ScErrorCode::MissingValue))),
        res is Ok ==> there && pre.storage@[entry_key(pre, k, t)].data == DataModel::ContractData(
            deep(read.objs(), res->Ok_0),
        ),
{
    let key = entry_key(pre, k, t);
    if res is Ok {
        let d = pre.storage@[key].data->ContractData_0;
        let tree = choose|tree: ScVal| #[trigger]
            sc_deep(tree) == d && adds(pre, read, res, tree_val(pre.objs(), tree, DEFAULT_HOST_DEPTH_LIMIT as nat));
        crate::host_convert::law_tree_val(pre.objs(), tree, DEFAULT_HOST_DEPTH_LIMIT as nat);
    }
}

/// A running contract can always be told whether a datum with a good key that does
/// not nest too deep is there, and can always drop it.
pub proof fn law_good_key_can_be_asked_for(
    pre: Host,
    asked: Host,
    there: Result<bool, HostError>,
    dropped: Host,
    res: Result<(), HostError>,
    k: Val,
    t: StorageType,
)
    requires
        !(t is Instance),
        has_datum(pre, asked, k, t, there),
        drops_datum(pre, dropped, k, t, res),
        val_ok(pre.objs(), k),
        runs_a_contract(pre),
        nesting(deep(pre.objs(), k)) <= DEFAULT_HOST_DEPTH_LIMIT,
    ensures
        there is Ok,
        res is Ok,
{
}

/// A datum that was dropped has no entry any more, and all other entries are as they
/// were.
pub proof fn law_dropped_datum_has_no_entry(pre: Host, post: Host, k: Val, t: StorageType)
    requires
        !(t is Instance),
        drops_datum(pre, post, k, t, Ok(())),
    ensures
        !post.storage@.contains_key(entry_key(pre, k, t)),
        same_but(pre.storage@, post.storage@, entry_key(pre, k, t)),
        post == (Host { storage: post.storage, ..pre }),
{
}

/// How long an entry lives after a bump that succeeded. One that had at most `low`
/// ledgers left has `high` left now, or as many as entries may have; one that had
/// more lives as long as before; none lives shorter than before, and none longer
/// than was asked for or than entries may.
pub open spec fn is_bumped(before: u32, after: u32, li: LedgerInfo, low: u32, high: u32) -> bool {
    let wanted = li.sequence_number + high;
    let last = li.sequence_number + (if li.max_entry_expiration > 0 {
        li.max_entry_expiration - 1
    } else {
        0
    });
    &&& before >= li.sequence_number
    &&& after >= before
    &&& before - li.sequence_number > low ==> after == before
    &&& before - li.sequence_number <= low ==> after >= wanted || after >= last || after == u32::MAX
    &&& after > before ==> after <= wanted && after <= last
}

/// A bump of a datum gives its entry the life that was asked for, be it temporary or
/// persistent, and changes nothing else.
pub proof fn law_bumped_datum_lives_on(pre: Host, post: Host, k: Val, t: StorageType, low: u32, high: u32)
    requires
        bumps_datum(pre, post, k, t, low, high, Ok(())),
    ensures
        !(t is Instance),
        pre.ledger is Some,
        low <= high,
        ({
            let key = entry_key(pre, k, t);
            let (before, after) = (pre.storage@, post.storage@);
            &&& before.contains_key(key) && after.contains_key(key)
            &&& after[key].data == before[key].data
            &&& is_bumped(before[key].expiration_ledger, after[key].expiration_ledger, pre.ledger->Some_0, low, high)
            &&& same_but(before, after, key)
        }),
        post == (Host { storage: post.storage, ..pre }),
{
    lemma_bumped(pre, pre.storage@, entry_key(pre, k, t), low, high);
}

proof fn lemma_bumped(host: Host, m: Map<KeyModel, EntryModel>, key: KeyModel, low: u32, high: u32)
    requires
        bump_entry(host, m, key, low, high) is Ok,
    ensures
        host.ledger is Some,
        low <= high,
        m.contains_key(key),
        ({
            let out = bump_entry(host, m, key, low, high)->Ok_0;
            &&& out.contains_key(key)
            &&& out[key].data == m[key].data
            &&& is_bumped(m[key].expiration_ledger, out[key].expiration_ledger, host.ledger->Some_0, low, high)
            &&& same_but(m, out, key)
        }),
{
}

/// A live datum of a running contract can be bumped where `low` is at most `high`; a
/// temporary one must not be asked to live longer than entries may.
pub proof fn law_live_datum_can_be_bumped(
    pre: Host,
    post: Host,
    k: Val,
    t: StorageType,
    low: u32,
    high: u32,
    res: Result<(), HostError>,
)
    requires
        bumps_datum(pre, post, k, t, low, high, res),
        !(t is Instance),
        val_ok(pre.objs(), k),
        runs_a_contract(pre),
        nesting(deep(pre.objs(), k)) <= DEFAULT_HOST_DEPTH_LIMIT,
        pre.ledger is Some,
        low <= high,
        pre.storage@.contains_key(entry_key(pre, k, t)),
        pre.storage@[entry_key(pre, k, t)].expiration_ledger >= pre.ledger->Some_0.sequence_number,
    ensures
        t is Persistent ==> res is Ok,
        t is Temporary && high < pre.ledger->Some_0.max_entry_expiration ==> res is Ok,
        t is Temporary && high >= pre.ledger->Some_0.max_entry_expiration && pre.ledger->Some_0.max_entry_expiration > 0
            && pre.ledger->Some_0.sequence_number + high <= u32::MAX ==> res == Err::<(), HostError>(
            pre.spec_err((ScErrorType::Storage, ScErrorCode::InvalidAction)),
        ),
{
}

/// A bump of a contract gives its instance the life that was asked for and, if it has
/// code of its own, the code too; nothing else is changed.
pub proof fn law_bumped_contract_lives_on(pre: Host, post: Host, id: Hash32, low: u32, high: u32)
    requires
        bumps(pre, post, id, low, high, Ok(())),
    ensures
        pre.ledger is Some,
        low <= high,
        ({
            let (before, after) = (pre.storage@, post.storage@);
            let key = KeyModel::ContractInstance(id);
            let li = pre.ledger->Some_0;
            &&& before.contains_key(key) && after.contains_key(key)
            &&& after[key].data == before[key].data
            &&& before[key].data is ContractInstance
            &&& is_bumped(before[key].expiration_ledger, after[key].expiration_ledger, li, low, high)
            &&& before[key].data->ContractInstance_0 matches ContractExecutable::Wasm(hash) ==> {
                let code = KeyModel::ContractCode(hash);
                &&& before.contains_key(code) && after.contains_key(code)
                &&& after[code].data == before[code].data
                &&& is_bumped(before[code].expiration_ledger, after[code].expiration_ledger, li, low, high)
                &&& forall|k: KeyModel|
                    k != key && k != code ==> (#[trigger] after.contains_key(k) <==> before.contains_key(k)) && (
                    before.contains_key(k) ==> after[k] == before[k])
            }
            &&& before[key].data->ContractInstance_0 is Token ==> same_but(before, after, key)
        }),
        post == (Host { storage: post.storage, ..pre }),
{
    reveal(bump_instance_and_code);
    let key = KeyModel::ContractInstance(id);
    lemma_bumped(pre, pre.storage@, key, low, high);
    let m = bump_entry(pre, pre.storage@, key, low, high)->Ok_0;
    if let DataModel::ContractInstance(ContractExecutable::Wasm(hash), _) = m[key].data {
        let code = KeyModel::ContractCode(hash);
        lemma_bumped(pre, m, code, low, high);
        assert(m.contains_key(code) <==> pre.storage@.contains_key(code));
        assert(post.storage@.contains_key(key) <==> m.contains_key(key));
        assert forall|k: KeyModel| k != key && k != code implies (#[trigger] post.storage@.contains_key(k)
            <==> pre.storage@.contains_key(k)) && (pre.storage@.contains_key(k) ==> post.storage@[k]
            == pre.storage@[k]) by {
            assert(m.contains_key(k) <==> pre.storage@.contains_key(k));
        }
    }
}

/// A contract that is live, and whose code is, can be bumped where `low` is at most
/// `high`.
pub proof fn law_live_contract_can_be_bumped(
    pre: Host,
    post: Host,
    id: Hash32,
    low: u32,
    high: u32,
    res: Result<(), HostError>,
)
    requires
        bumps(pre, post, id, low, high, res),
        pre.ledger is Some,
        low <= high,
        ({
            let (m, key) = (pre.storage@, KeyModel::ContractInstance(id));
            &&& m.contains_key(key)
            &&& m[key].data is ContractInstance
            &&& m[key].expiration_ledger >= pre.ledger->Some_0.sequence_number
            &&& m[key].data->ContractInstance_0 matches ContractExecutable::Wasm(hash) ==> m.contains_key(
                KeyModel::ContractCode(hash),
            ) && m[KeyModel::ContractCode(hash)].expiration_ledger >= pre.ledger->Some_0.sequence_number
        }),
    ensures
        res is Ok,
{
    reveal(bump_instance_and_code);
}

/// When the data of an instance are first needed, each becomes a key and a value that
/// denote what the ledger has of it, in the same order.
pub proof fn law_instance_data_are_loaded(pre: Host, post: Host, i: int)
    requires
        pre.wf(),
        loads_instance(pre, post, Ok(())),
        pre.context@.last().storage is None,
        0 <= i < pre.context@.last().instance@.len(),
    ensures
        instance_map(post).len() == pre.context@.last().instance@.len(),
        deep(post.objs(), instance_map(post)[i].0) == sc_deep(pre.context@.last().instance@[i].key),
        deep(post.objs(), instance_map(post)[i].1) == sc_deep(pre.context@.last().instance@[i].val),
        post.storage == pre.storage,
{
    let entries = pre.context@.last().instance@;
    let flat = flat_entries(entries);
    let levels = DEFAULT_HOST_DEPTH_LIMIT as nat;
    let out = tree_vals(pre.objs(), flat, 2 * entries.len(), levels);
    lemma_tree_vals(pre.objs(), flat, 2 * entries.len(), levels);
    let vals = out.1->Ok_0;
    assert(deep_seq(out.0, vals)[2 * i] == sc_deep(flat[2 * i]));
    assert(deep_seq(out.0, vals)[2 * i + 1] == sc_deep(flat[2 * i + 1]));
    assert(flat[2 * i] == entries[i].key && flat[2 * i + 1] == entries[i].val);
    assert(pair_up(vals)[i] == (vals[2 * i], vals[2 * i + 1]));
}

/// Whether the data of the running instance were made into values.
pub open spec fn is_loaded(host: Host) -> bool {
    runs_a_contract(host) && host.context@.last().storage is Some
}

/// A datum that was put with the instance is what is read under its key, is said to
/// be there, and changes what is read under no other key; ledger entries do not
/// change. Keys are those that can be compared with all others.
pub proof fn law_instance_datum_put_is_read(
    pre: Host,
    post: Host,
    k: Val,
    v: Val,
    asked: Host,
    there: Result<bool, HostError>,
    read: Host,
    res: Result<Val, HostError>,
)
    requires
        pre.wf(),
        is_loaded(pre),
        val_ok(pre.objs(), k),
        val_ok(pre.objs(), v),
        puts_datum(pre, post, k, v, StorageType::Instance, Ok(())),
        within_depth(post.objs(), instance_map(post), deep(post.objs(), k)),
        has_datum(post, asked, k, StorageType::Instance, there),
        gets_datum(post, read, k, StorageType::Instance, res),
    ensures
        there == Ok::<bool, HostError>(true),
        res == Ok::<Val, HostError>(v),
        post.storage == pre.storage,
        post.objs() == pre.objs(),
        forall|d: Deep|
            d != deep(pre.objs(), k) ==> #[trigger] lookup(post.objs(), instance_map(post), d) == lookup(
                pre.objs(),
                instance_map(pre),
                d,
            ),
{
    lemma_loaded(pre);
    let (mid, loaded) = choose|mid: Host, loaded: Result<(), HostError>| #[trigger]
        loads_instance(pre, mid, loaded) && puts_instance_datum(mid, post, loaded, k, v, Ok(()));
    law_map_insert(pre.objs(), instance_map(pre), k, v);
    lemma_finds(post, asked, k);
    lemma_finds(post, read, k);
}

/// A datum that was dropped from the instance is not there, and nothing else is
/// changed by that.
pub proof fn law_instance_datum_dropped_is_gone(
    pre: Host,
    post: Host,
    k: Val,
    asked: Host,
    there: Result<bool, HostError>,
    read: Host,
    res: Result<Val, HostError>,
)
    requires
        pre.wf(),
        is_loaded(pre),
        val_ok(pre.objs(), k),
        drops_datum(pre, post, k, StorageType::Instance, Ok(())),
        within_depth(post.objs(), instance_map(post), deep(post.objs(), k)),
        has_datum(post, asked, k, StorageType::Instance, there),
        gets_datum(post, read, k, StorageType::Instance, res),
    ensures
        there == Ok::<bool, HostError>(false),
        res == Err::<Val, HostError>(post.spec_err((ScErrorType::Storage, ScErrorCode::MissingValue))),
        post.storage == pre.storage,
        post.objs() == pre.objs(),
        forall|d: Deep|
            d != deep(pre.objs(), k) ==> #[trigger] lookup(post.objs(), instance_map(post), d) == lookup(
                pre.objs(),
                instance_map(pre),
                d,
            ),
{
    lemma_loaded(pre);
    let (mid, loaded) = choose|mid: Host, loaded: Result<(), HostError>| #[trigger]
        loads_instance(pre, mid, loaded) && deletes_instance_datum(mid, post, loaded, k, Ok(()));
    if lookup(pre.objs(), instance_map(pre), deep(pre.objs(), k)) is Some {
        law_map_remove(pre.objs(), instance_map(pre), k);
    }
    lemma_finds(post, asked, k);
    lemma_finds(post, read, k);
}

proof fn lemma_loaded(host: Host)
    requires
        host.wf(),
        is_loaded(host),
    ensures
        map_ok(host.objs(), instance_map(host)),
{
    assert(host.context@[host.context@.len() - 1].ok(host.objs()));
}

proof fn lemma_finds(host: Host, post: Host, k: Val)
    requires
        is_loaded(host),
        within_depth(host.objs(), instance_map(host), deep(host.objs(), k)),
    ensures
        forall|mid: Host, loaded: Result<(), HostError>, found: Result<Option<Val>, HostError>|
            #[trigger] loads_instance(host, mid, loaded) && #[trigger] finds_instance_datum(mid, post, loaded, k, found)
                ==> mid == host && found == Ok::<Option<Val>, HostError>(
                lookup(host.objs(), instance_map(host), deep(host.objs(), k)),
            ),
{
}

/// Asking for an instance datum and reading it change nothing once the data are loaded.
pub proof fn law_asking_changes_nothing(
    pre: Host,
    asked: Host,
    read: Host,
    k: Val,
    there: Result<bool, HostError>,
    res: Result<Val, HostError>,
)
    requires
        is_loaded(pre),
        has_datum(pre, asked, k, StorageType::Instance, there),
        gets_datum(pre, read, k, StorageType::Instance, res),
    ensures
        asked == pre,
        read == pre,
{
}

/// The first expiration of an entry: it lives for the least number of ledgers that entries of
/// its durability do, the present one counted.
pub proof fn law_first_expiration(li: LedgerInfo)
    ensures
        ({
            let seq = li.sequence_number;
            let (t, p) = (li.min_temp_entry_expiration, li.min_persistent_entry_expiration);
            let temporary = first_expiration(Some(li), ContractDataDurability::Temporary);
            let persistent = first_expiration(Some(li), ContractDataDurability::Persistent);
            &&& temporary is Ok && persistent is Ok
            &&& t == 0 ==> temporary->Ok_0 == seq
            &&& t > 0 && seq + t - 1 <= u32::MAX ==> temporary->Ok_0 == seq + t - 1
            &&& p == 0 ==> persistent->Ok_0 == seq
            &&& p > 0 && seq + p - 1 <= u32::MAX ==> persistent->Ok_0 == seq + p - 1
        }),
        first_expiration(None, ContractDataDurability::Temporary) is Err,
        first_expiration(None, ContractDataDurability::Persistent) is Err,
{
}

} // verus!
