//! Contract data in the ledger and with the contract instance.

use crate::error::{Fault, HostError, ScErrorCode, ScErrorType};
use crate::host::{fails, Context, Frame, Host, LedgerInfo, DEFAULT_HOST_DEPTH_LIMIT};
use crate::host_context::{last_expiration, no_ledger, saturated_sum};
use crate::host_convert::{
    adds, flat_entries, lemma_entries_by_denotation, lemma_tree_vals, pair_up, sets_objs, tree_val, tree_vals,
};
use crate::host_frame::{current_contract, no_frame};
use crate::host_map::{depth_fault, law_map_insert, lookup, map_fault, map_insert, map_remove, within_depth};
use crate::host_object::val_fault;
use crate::model::{deep, extends, map_ok, nesting, val_ok, Deep, ObjModel};
use crate::round_trip::{law_value_comes_back, size};
use crate::scval::{sc_copy, sc_deep, ScVal};
use crate::storage::{
    data_copy, ContractDataDurability, DataModel, EntryModel, KeyModel, LedgerEntry, LedgerEntryData, LedgerKey,
    StorageType,
};
use crate::val::{Val, MAX_OBJECTS};
use vstd::prelude::*;

verus! {

/// Only the ledger entries have changed, to the given ones.
pub open spec fn sets_storage(pre: Host, post: Host, m: Map<KeyModel, EntryModel>) -> bool {
    &&& post.wf()
    &&& post.storage@ == m
    &&& post == (Host { storage: post.storage, ..pre })
}

/// The ledger key of a datum of the running contract.
pub open spec fn data_key(host: Host, k: Val, durability: ContractDataDurability) -> Result<KeyModel, Fault> {
    match current_contract(host) {
        Err(f) => Err(f),
        Ok(id) => if nesting(deep(host.objs(), k)) > DEFAULT_HOST_DEPTH_LIMIT {
            Err(depth_fault())
        } else {
            Ok(KeyModel::ContractData(id, deep(host.objs(), k), durability))
        },
    }
}

/// When an entry that is made now expires.
pub open spec fn first_expiration(ledger: Option<LedgerInfo>, durability: ContractDataDurability) -> Result<
    u32,
    Fault,
> {
    match ledger {
        None => Err(no_ledger()),
        Some(li) => {
            let min = match durability {
                ContractDataDurability::Temporary => li.min_temp_entry_expiration,
                ContractDataDurability::Persistent => li.min_persistent_entry_expiration,
            };
            Ok(
                saturated_sum(
                    li.sequence_number as int,
                    if min > 0 {
                        min - 1
                    } else {
                        0
                    },
                ),
            )
        },
    }
}

/// A datum is put into the ledger. An entry that is there keeps its expiration.
pub open spec fn puts_data(
    pre: Host,
    post: Host,
    k: Val,
    v: Val,
    durability: ContractDataDurability,
    res: Result<(), HostError>,
) -> bool {
    match data_key(pre, k, durability) {
        Err(f) => fails(pre, post, res, f),
        Ok(key) => if pre.storage@.contains_key(key) && !(pre.storage@[key].data is ContractData) {
            fails(pre, post, res, (ScErrorType::Storage, ScErrorCode::InternalError))
        } else if nesting(deep(pre.objs(), v)) > DEFAULT_HOST_DEPTH_LIMIT {
            fails(pre, post, res, depth_fault())
        } else {
            let expiration = if pre.storage@.contains_key(key) {
                Ok(pre.storage@[key].expiration_ledger)
            } else {
                first_expiration(pre.ledger, durability)
            };
            match expiration {
                Err(f) => fails(pre, post, res, f),
                Ok(expiration_ledger) => {
                    &&& res == Ok::<(), HostError>(())
                    &&& sets_storage(
                        pre,
                        post,
                        pre.storage@.insert(
                            key,
                            EntryModel { data: DataModel::ContractData(deep(pre.objs(), v)), expiration_ledger },
                        ),
                    )
                },
            }
        },
    }
}

/// A datum is read from the ledger: a value that denotes it is made.
pub open spec fn gets_data(
    pre: Host,
    post: Host,
    k: Val,
    durability: ContractDataDurability,
    res: Result<Val, HostError>,
) -> bool {
    match data_key(pre, k, durability) {
        Err(f) => fails(pre, post, res, f),
        Ok(key) => if !pre.storage@.contains_key(key) {
            fails(pre, post, res, (ScErrorType::Storage, ScErrorCode::MissingValue))
        } else {
            match pre.storage@[key].data {
                DataModel::ContractData(d) => exists|t: ScVal| #[trigger]
                    sc_deep(t) == d && adds(
                        pre,
                        post,
                        res,
                        tree_val(pre.objs(), t, DEFAULT_HOST_DEPTH_LIMIT as nat),
                    ),
                _ => fails(pre, post, res, (ScErrorType::Storage, ScErrorCode::InternalError)),
            }
        },
    }
}

/// The data that are kept with the running instance, once they are loaded.
pub open spec fn instance_map(host: Host) -> Seq<(Val, Val)> {
    host.context@.last().storage->Some_0@
}

/// The data that are kept with the running instance have changed, to the given
/// ones, and nothing else but the table of objects.
pub open spec fn sets_instance(pre: Host, post: Host, objs: Seq<ObjModel>, m: Seq<(Val, Val)>) -> bool {
    &&& post.wf()
    &&& pre.context@.len() > 0
    &&& post.context@.len() == pre.context@.len()
    &&& post.context@.drop_last() == pre.context@.drop_last()
    &&& post.context@.last() == (Context { storage: post.context@.last().storage, ..pre.context@.last() })
    &&& post.context@.last().storage is Some
    &&& instance_map(post) == m
    &&& post.objs() == objs
    &&& post == (Host { context: post.context, objects: post.objects, ..pre })
}

/// The data that are kept with the running instance are made into values, unless
/// that was done before.
pub open spec fn loads_instance(pre: Host, post: Host, res: Result<(), HostError>) -> bool {
    if pre.context@.len() == 0 {
        fails(pre, post, res, no_frame())
    } else if pre.context@.last().frame is HostFunction {
        fails(pre, post, res, (ScErrorType::Context, ScErrorCode::InternalError))
    } else if pre.context@.last().storage is Some {
        post == pre && res == Ok::<(), HostError>(())
    } else {
        let entries = pre.context@.last().instance@;
        let out = tree_vals(
            pre.objs(),
            flat_entries(entries),
            2 * entries.len(),
            DEFAULT_HOST_DEPTH_LIMIT as nat,
        );
        match out.1 {
            Err(f) => sets_objs(pre, post, out.0) && res == Err::<(), HostError>(pre.spec_err(f)),
            Ok(vals) => match map_fault(out.0, pair_up(vals), pair_up(vals).len() as int) {
                Some(f) => sets_objs(pre, post, out.0) && res == Err::<(), HostError>(pre.spec_err(f)),
                None => sets_instance(pre, post, out.0, pair_up(vals)) && res == Ok::<(), HostError>(()),
            },
        }
    }
}

/// With the data of the running instance at hand, a datum of it is set.
pub open spec fn puts_instance_datum(
    pre: Host,
    post: Host,
    loaded: Result<(), HostError>,
    k: Val,
    v: Val,
    res: Result<(), HostError>,
) -> bool {
    match loaded {
        Err(e) => post == pre && res == loaded,
        Ok(_) => {
            ||| {
                &&& res == Ok::<(), HostError>(())
                &&& sets_instance(pre, post, pre.objs(), map_insert(pre.objs(), instance_map(pre), k, v))
            }
            ||| fails(pre, post, res, depth_fault()) && !within_depth(
                pre.objs(),
                instance_map(pre),
                deep(pre.objs(), k),
            )
        },
    }
}

/// With the data of the running instance at hand, a datum of it is removed, if
/// it is there.
pub open spec fn deletes_instance_datum(
    pre: Host,
    post: Host,
    loaded: Result<(), HostError>,
    k: Val,
    res: Result<(), HostError>,
) -> bool {
    match loaded {
        Err(e) => post == pre && res == loaded,
        Ok(_) => {
            ||| {
                &&& res == Ok::<(), HostError>(())
                &&& if lookup(pre.objs(), instance_map(pre), deep(pre.objs(), k)) is Some {
                    sets_instance(pre, post, pre.objs(), map_remove(pre.objs(), instance_map(pre), k))
                } else {
                    post == pre
                }
            }
            ||| fails(pre, post, res, depth_fault()) && !within_depth(
                pre.objs(),
                instance_map(pre),
                deep(pre.objs(), k),
            )
        },
    }
}

/// With the data of the running instance at hand, a datum of it is looked up.
pub open spec fn finds_instance_datum(
    pre: Host,
    post: Host,
    loaded: Result<(), HostError>,
    k: Val,
    res: Result<Option<Val>, HostError>,
) -> bool {
    &&& post == pre
    &&& match loaded {
        Err(e) => res == Err::<Option<Val>, HostError>(e),
        Ok(_) => {
            ||| res == Ok::<Option<Val>, HostError>(lookup(pre.objs(), instance_map(pre), deep(pre.objs(), k)))
            ||| res == Err::<Option<Val>, HostError>(pre.spec_err(depth_fault())) && !within_depth(
                pre.objs(),
                instance_map(pre),
                deep(pre.objs(), k),
            )
        },
    }
}

/// The found datum, or the fault that it is missing.
pub open spec fn found_or_missing(host: Host, found: Result<Option<Val>, HostError>) -> Result<Val, HostError> {
    match found {
        Err(e) => Err(e),
        Ok(Some(v)) => Ok(v),
        Ok(None) => Err(host.spec_err((ScErrorType::Storage, ScErrorCode::MissingValue))),
    }
}

/// Whether a datum was found.
pub open spec fn was_found(found: Result<Option<Val>, HostError>) -> Result<bool, HostError> {
    match found {
        Err(e) => Err(e),
        Ok(v) => Ok(v is Some),
    }
}

/// When an entry expires after a bump that asks for it to live for `high` more
/// ledgers if it has at most `low` left. A temporary entry cannot be asked to
/// live longer than entries may; others then live as long as they may.
pub open spec fn bumped(expiration: u32, li: LedgerInfo, temporary: bool, low: u32, high: u32) -> Result<u32, Fault> {
    if expiration < li.sequence_number {
        Err((ScErrorType::Storage, ScErrorCode::InternalError))
    } else {
        let wanted = saturated_sum(li.sequence_number as int, high as int);
        if wanted > last_expiration(li) && temporary {
            Err((ScErrorType::Storage, ScErrorCode::InvalidAction))
        } else {
            let new = if wanted > last_expiration(li) {
                last_expiration(li)
            } else {
                wanted
            };
            Ok(
                if new > expiration && expiration - li.sequence_number <= low {
                    new
                } else {
                    expiration
                },
            )
        }
    }
}

/// The ledger entries after a bump of one, or what is wrong with the bump.
pub open spec fn bump_entry(host: Host, m: Map<KeyModel, EntryModel>, key: KeyModel, low: u32, high: u32) -> Result<
    Map<KeyModel, EntryModel>,
    Fault,
> {
    if low > high {
        Err((ScErrorType::Storage, ScErrorCode::InvalidInput))
    } else if !m.contains_key(key) {
        Err((ScErrorType::Storage, ScErrorCode::MissingValue))
    } else {
        match host.ledger {
            None => Err(no_ledger()),
            Some(li) => match bumped(m[key].expiration_ledger, li, is_temporary(key), low, high) {
                Err(f) => Err(f),
                Ok(expiration_ledger) => Ok(m.insert(key, EntryModel { data: m[key].data, expiration_ledger })),
            },
        }
    }
}

pub open spec fn is_temporary(key: KeyModel) -> bool {
    match key {
        KeyModel::ContractData(_, _, durability) => durability == ContractDataDurability::Temporary,
        KeyModel::TokenAllowance(_, _, _) => true,
        _ => false,
    }
}

/// A bump never shortens the life of an entry, and changes nothing else of it.
pub proof fn law_bump_only_extends(host: Host, m: Map<KeyModel, EntryModel>, key: KeyModel, low: u32, high: u32)
    requires
        bump_entry(host, m, key, low, high) is Ok,
    ensures
        ({
            let out = bump_entry(host, m, key, low, high)->Ok_0;
            &&& out.dom() == m.dom()
            &&& out[key].expiration_ledger >= m[key].expiration_ledger
            &&& forall|k: KeyModel| m.contains_key(k) ==> #[trigger] out[k].data == m[k].data
            &&& forall|k: KeyModel| k != key && m.contains_key(k) ==> #[trigger] out[k] == m[k]
        }),
{
    let out = bump_entry(host, m, key, low, high)->Ok_0;
    assert(out.dom() =~= m.dom());
}

/// A datum that was put into the ledger is read back, by any host of the same
/// contract on the same ledger entries, if its table has room: the value that is
/// read denotes what was put.
pub proof fn law_contract_data_is_read_back(
    pre: Host,
    put: Host,
    k: Val,
    v: Val,
    durability: ContractDataDurability,
    now: Host,
    post: Host,
    k2: Val,
    res: Result<Val, HostError>,
)
    requires
        pre.wf(),
        val_ok(pre.objs(), k),
        val_ok(pre.objs(), v),
        puts_data(pre, put, k, v, durability, Ok(())),
        now.wf(),
        now.storage@ == put.storage@,
        current_contract(now) == current_contract(pre),
        deep(now.objs(), k2) == deep(pre.objs(), k),
        now.objs().len() + size(deep(pre.objs(), v)) <= MAX_OBJECTS,
        gets_data(now, post, k2, durability, res),
    ensures
        res is Ok,
        deep(post.objs(), res->Ok_0) == deep(pre.objs(), v),
{
    let key = data_key(pre, k, durability)->Ok_0;
    assert(data_key(now, k2, durability) == Ok::<KeyModel, Fault>(key));
    let d = deep(pre.objs(), v);
    assert(now.storage@[key].data == DataModel::ContractData(d));
    let t = choose|t: ScVal| #[trigger]
        sc_deep(t) == d && adds(now, post, res, tree_val(now.objs(), t, DEFAULT_HOST_DEPTH_LIMIT as nat));
    law_value_comes_back(pre.objs(), v, t, now.objs());
}

/// A datum that was dropped from the ledger is not found, and no other entry is
/// changed.
pub proof fn law_dropped_data_are_gone(
    pre: Host,
    now: Host,
    k: Val,
    durability: ContractDataDurability,
    post: Host,
    res: Result<Val, HostError>,
)
    requires
        data_key(pre, k, durability) is Ok,
        sets_storage(pre, now, pre.storage@.remove(data_key(pre, k, durability)->Ok_0)),
        gets_data(now, post, k, durability, res),
    ensures
        !now.storage@.contains_key(data_key(now, k, durability)->Ok_0),
        post == now,
        res == Err::<Val, HostError>(now.spec_err((ScErrorType::Storage, ScErrorCode::MissingValue))),
        forall|key: KeyModel|
            key != data_key(pre, k, durability)->Ok_0 && pre.storage@.contains_key(key) ==> #[trigger] now.storage@[key]
                == pre.storage@[key],
{
    assert(data_key(now, k, durability) == data_key(pre, k, durability));
}

/// A datum of the instance that was set is found, and no other is changed.
pub proof fn law_instance_datum_is_read_back(pre: Host, post: Host, k: Val, v: Val)
    requires
        pre.wf(),
        pre.context@.len() > 0,
        pre.context@.last().storage is Some,
        val_ok(pre.objs(), k),
        val_ok(pre.objs(), v),
        puts_instance_datum(pre, post, Ok(()), k, v, Ok(())),
    ensures
        lookup(post.objs(), instance_map(post), deep(post.objs(), k)) == Some(v),
        forall|d: Deep|
            d != deep(pre.objs(), k) ==> #[trigger] lookup(post.objs(), instance_map(post), d) == lookup(
                pre.objs(),
                instance_map(pre),
                d,
            ),
{
    assert(pre.context@[pre.context@.len() - 1].ok(pre.objs()));
    law_map_insert(pre.objs(), instance_map(pre), k, v);
}

impl Host {
    /// The ledger key of a datum of the running contract.
    pub(crate) fn storage_key_from_rawval(&self, k: Val, durability: ContractDataDurability) -> (res: Result<
        LedgerKey,
        HostError,
    >)
        requires
            self.wf(),
            val_ok(self.objs(), k),
        ensures
            match res {
                Ok(key) => data_key(*self, k, durability) == Ok::<KeyModel, Fault>(key@),
                Err(e) => data_key(*self, k, durability) matches Err(f) && e == self.spec_err(f),
            },
    {
        let contract = self.get_current_contract_id_internal()?;
        let key = self.from_host_val(k)?;
        Ok(LedgerKey::ContractData { contract, key, durability })
    }

    pub(crate) fn get_min_expiration_ledger(&self, durability: ContractDataDurability) -> (res: Result<
        u32,
        HostError,
    >)
        ensures
            res == match first_expiration(self.ledger, durability) {
                Ok(n) => Ok::<u32, HostError>(n),
                Err(f) => Err(self.spec_err(f)),
            },
    {
        match &self.ledger {
            None => Err(self.err(ScErrorType::Context, ScErrorCode::InternalError)),
            Some(li) => {
                let min: u32 = match durability {
                    ContractDataDurability::Temporary => li.min_temp_entry_expiration,
                    ContractDataDurability::Persistent => li.min_persistent_entry_expiration,
                };
                Ok(li.sequence_number.saturating_add(min.saturating_sub(1)))
            },
        }
    }

    fn put_contract_data_into_ledger(&mut self, k: Val, v: Val, durability: ContractDataDurability) -> (res: Result<
        (),
        HostError,
    >)
        requires
            old(self).wf(),
            val_ok(old(self).objs(), k),
            val_ok(old(self).objs(), v),
        ensures
            final(self).wf(),
            puts_data(*old(self), *final(self), k, v, durability, res),
    {
        let key = self.storage_key_from_rawval(k, durability)?;
        let current: Option<u32> = match self.storage.get(&key) {
            Some(entry) => match &entry.data {
                LedgerEntryData::ContractData(_) => Some(entry.expiration_ledger),
                _ => return Err(self.err(ScErrorType::Storage, ScErrorCode::InternalError)),
            },
            None => None,
        };
        let val = self.from_host_val(v)?;
        let expiration_ledger: u32 = match current {
            Some(n) => n,
            None => self.get_min_expiration_ledger(durability)?,
        };
        self.storage.put(key, LedgerEntry { data: LedgerEntryData::ContractData(val), expiration_ledger });
        Ok(())
    }

    /// Makes values of the data that are kept with the running instance, unless
    /// that was done before.
    fn maybe_init_instance_storage(&mut self) -> (res: Result<(), HostError>)
        requires
            old(self).wf(),
        ensures
            final(self).wf(),
            loads_instance(*old(self), *final(self), res),
            res is Ok ==> {
                &&& final(self).context@.len() > 0
                &&& final(self).context@.last().storage is Some
                &&& map_ok(final(self).objs(), instance_map(*final(self)))
                &&& extends(old(self).objs(), final(self).objs())
            },
    {
        let n: usize = self.context.len();
        if n == 0 {
            return Err(self.err(ScErrorType::Context, ScErrorCode::MissingValue));
        }
        if let Frame::HostFunction = self.context[n - 1].frame {
            return Err(self.err(ScErrorType::Context, ScErrorCode::InternalError));
        }
        assert(self.context@[n - 1].ok(self.objs()));
        if self.context[n - 1].storage.is_some() {
            return Ok(());
        }
        let ghost pre = *self;
        let entries = crate::scval::sc_copy_entries(&self.context[n - 1].instance);
        proof {
            lemma_entries_by_denotation(
                pre.objs(),
                entries@,
                pre.context@[n - 1].instance@,
                DEFAULT_HOST_DEPTH_LIMIT as nat,
            );
            lemma_tree_vals(
                pre.objs(),
                flat_entries(entries@),
                2 * entries@.len(),
                DEFAULT_HOST_DEPTH_LIMIT as nat,
            );
        }
        let (pairs, Ghost(vals)) = self.entries_to_pairs(&entries, DEFAULT_HOST_DEPTH_LIMIT)?;
        proof {
            assert forall|i: int| 0 <= i < pairs@.len() implies val_ok(self.objs(), (#[trigger] pairs@[i]).0) && val_ok(
                self.objs(),
                pairs@[i].1,
            ) by {
                assert(val_ok(self.objs(), vals[2 * i]) && val_ok(self.objs(), vals[2 * i + 1]));
            }
        }
        self.check_map_order(&pairs)?;
        let ghost mid = *self;
        self.context[n - 1].storage = Some(pairs);
        proof {
            assert(self.context@.drop_last() =~= pre.context@.drop_last());
            assert forall|i: int| 0 <= i < n implies (#[trigger] self.context@[i]).ok(self.objs()) by {
                assert(mid.context@[i].ok(mid.objs()));
            }
        }
        Ok(())
    }

    fn set_instance_map(&mut self, m: Vec<(Val, Val)>)
        requires
            old(self).wf(),
            old(self).context@.len() > 0,
            map_ok(old(self).objs(), m@),
        ensures
            sets_instance(*old(self), *final(self), old(self).objs(), m@),
    {
        let n: usize = self.context.len();
        let ghost pre = *self;
        self.context[n - 1].storage = Some(m);
        proof {
            assert(self.context@.drop_last() =~= pre.context@.drop_last());
            assert forall|i: int| 0 <= i < n implies (#[trigger] self.context@[i]).ok(self.objs()) by {
                assert(pre.context@[i].ok(pre.objs()));
            }
        }
    }

    fn put_instance_datum(&mut self, k: Val, v: Val) -> (res: Result<(), HostError>)
        requires
            old(self).wf(),
            val_ok(old(self).objs(), k),
            val_ok(old(self).objs(), v),
        ensures
            final(self).wf(),
            exists|mid: Host, loaded: Result<(), HostError>| #[trigger]
                loads_instance(*old(self), mid, loaded) && puts_instance_datum(
                    mid,
                    *final(self),
                    loaded,
                    k,
                    v,
                    res,
                ),
    {
        let ghost pre = *self;
        let loaded = self.maybe_init_instance_storage();
        let ghost mid = *self;
        assert(loads_instance(pre, mid, loaded));
        loaded?;
        proof {
            crate::model::law_values_are_immutable(pre.objs(), mid.objs(), k);
            crate::model::law_values_are_immutable(pre.objs(), mid.objs(), v);
        }
        let n: usize = self.context.len();
        if let Some(m) = &self.context[n - 1].storage {
            let new = self.map_with(m, k, v)?;
            self.set_instance_map(new);
        }
        Ok(())
    }

    fn delete_instance_datum(&mut self, k: Val) -> (res: Result<(), HostError>)
        requires
            old(self).wf(),
            val_ok(old(self).objs(), k),
        ensures
            final(self).wf(),
            exists|mid: Host, loaded: Result<(), HostError>| #[trigger]
                loads_instance(*old(self), mid, loaded) && deletes_instance_datum(
                    mid,
                    *final(self),
                    loaded,
                    k,
                    res,
                ),
    {
        let ghost pre = *self;
        let loaded = self.maybe_init_instance_storage();
        let ghost mid = *self;
        assert(loads_instance(pre, mid, loaded));
        loaded?;
        proof {
            crate::model::law_values_are_immutable(pre.objs(), mid.objs(), k);
        }
        let n: usize = self.context.len();
        if let Some(m) = &self.context[n - 1].storage {
            if let Some(new) = self.map_without(m, k)? {
                self.set_instance_map(new);
            }
        }
        Ok(())
    }

    fn find_instance_datum(&mut self, k: Val) -> (res: Result<Option<Val>, HostError>)
        requires
            old(self).wf(),
            val_ok(old(self).objs(), k),
        ensures
            final(self).wf(),
            exists|mid: Host, loaded: Result<(), HostError>| #[trigger]
                loads_instance(*old(self), mid, loaded) && finds_instance_datum(
                    mid,
                    *final(self),
                    loaded,
                    k,
                    res,
                ),
    {
        let ghost pre = *self;
        let loaded = self.maybe_init_instance_storage();
        let ghost mid = *self;
        assert(loads_instance(pre, mid, loaded));
        loaded?;
        proof {
            crate::model::law_values_are_immutable(pre.objs(), mid.objs(), k);
        }
        let n: usize = self.context.len();
        match &self.context[n - 1].storage {
            Some(m) => self.map_value(m, k),
            None => Ok(None),
        }
    }

    /// Keeps a datum of the running contract.
    pub fn put_contract_data(&mut self, k: Val, v: Val, t: StorageType) -> (res: Result<(), HostError>)
        requires
            old(self).wf(),
        ensures
            final(self).wf(),
            puts_datum(*old(self), *final(self), k, v, t, res),
    {
        self.check_val_integrity(k)?;
        self.check_val_integrity(v)?;
        match t {
            StorageType::Temporary => self.put_contract_data_into_ledger(k, v, ContractDataDurability::Temporary),
            StorageType::Persistent => self.put_contract_data_into_ledger(k, v, ContractDataDurability::Persistent),
            StorageType::Instance => self.put_instance_datum(k, v),
        }
    }

    /// Whether a datum of the running contract is there.
    pub fn has_contract_data(&mut self, k: Val, t: StorageType) -> (res: Result<bool, HostError>)
        requires
            old(self).wf(),
        ensures
            final(self).wf(),
            has_datum(*old(self), *final(self), k, t, res),
    {
        self.check_val_integrity(k)?;
        match t {
            StorageType::Temporary => {
                let key = self.storage_key_from_rawval(k, ContractDataDurability::Temporary)?;
                Ok(self.storage.has(&key))
            },
            StorageType::Persistent => {
                let key = self.storage_key_from_rawval(k, ContractDataDurability::Persistent)?;
                Ok(self.storage.has(&key))
            },
            StorageType::Instance => {
                let found = self.find_instance_datum(k)?;
                Ok(found.is_some())
            },
        }
    }

    fn get_contract_data_from_ledger(&mut self, k: Val, durability: ContractDataDurability) -> (res: Result<
        Val,
        HostError,
    >)
        requires
            old(self).wf(),
            val_ok(old(self).objs(), k),
        ensures
            final(self).wf(),
            gets_data(*old(self), *final(self), k, durability, res),
    {
        let key = self.storage_key_from_rawval(k, durability)?;
        let tree = match self.storage.get(&key) {
            Some(entry) => match &entry.data {
                LedgerEntryData::ContractData(v) => sc_copy(v),
                _ => return Err(self.err(ScErrorType::Storage, ScErrorCode::InternalError)),
            },
            None => return Err(self.err(ScErrorType::Storage, ScErrorCode::MissingValue)),
        };
        self.to_host_val(&tree)
    }

    /// A datum of the running contract.
    pub fn get_contract_data(&mut self, k: Val, t: StorageType) -> (res: Result<Val, HostError>)
        requires
            old(self).wf(),
        ensures
            final(self).wf(),
            gets_datum(*old(self), *final(self), k, t, res),
    {
        self.check_val_integrity(k)?;
        match t {
            StorageType::Temporary => self.get_contract_data_from_ledger(k, ContractDataDurability::Temporary),
            StorageType::Persistent => self.get_contract_data_from_ledger(k, ContractDataDurability::Persistent),
            StorageType::Instance => {
                match self.find_instance_datum(k)? {
                    Some(v) => Ok(v),
                    None => Err(self.err(ScErrorType::Storage, ScErrorCode::MissingValue)),
                }
            },
        }
    }

    fn delete_contract_data_in_ledger(&mut self, k: Val, durability: ContractDataDurability) -> (res: Result<
        (),
        HostError,
    >)
        requires
            old(self).wf(),
            val_ok(old(self).objs(), k),
        ensures
            final(self).wf(),
            match data_key(*old(self), k, durability) {
                Err(f) => fails(*old(self), *final(self), res, f),
                Ok(key) => {
                    &&& res == Ok::<(), HostError>(())
                    &&& sets_storage(*old(self), *final(self), old(self).storage@.remove(key))
                },
            },
    {
        let key = self.storage_key_from_rawval(k, durability)?;
        self.storage.del(&key);
        Ok(())
    }

    /// Drops a datum of the running contract, if it is there.
    pub fn del_contract_data(&mut self, k: Val, t: StorageType) -> (res: Result<(), HostError>)
        requires
            old(self).wf(),
        ensures
            final(self).wf(),
            drops_datum(*old(self), *final(self), k, t, res),
    {
        self.check_val_integrity(k)?;
        match t {
            StorageType::Temporary => self.delete_contract_data_in_ledger(k, ContractDataDurability::Temporary),
            StorageType::Persistent => self.delete_contract_data_in_ledger(k, ContractDataDurability::Persistent),
            StorageType::Instance => self.delete_instance_datum(k),
        }
    }

    /// Bumps a ledger entry.
    pub(crate) fn bump_ledger_entry(&mut self, key: LedgerKey, low: u32, high: u32) -> (res: Result<(), HostError>)
        requires
            old(self).wf(),
        ensures
            final(self).wf(),
            match bump_entry(*old(self), old(self).storage@, key@, low, high) {
                Err(f) => fails(*old(self), *final(self), res, f),
                Ok(m) => {
                    &&& res == Ok::<(), HostError>(())
                    &&& sets_storage(*old(self), *final(self), m)
                },
            },
    {
        if low > high {
            return Err(self.err(ScErrorType::Storage, ScErrorCode::InvalidInput));
        }
        let (data, expiration): (LedgerEntryData, u32) = match self.storage.get(&key) {
            Some(entry) => (data_copy(&entry.data), entry.expiration_ledger),
            None => return Err(self.err(ScErrorType::Storage, ScErrorCode::MissingValue)),
        };
        let sequence: u32 = self.get_ledger_sequence()?;
        if expiration < sequence {
            return Err(self.err(ScErrorType::Storage, ScErrorCode::InternalError));
        }
        let max: u32 = self.get_max_expiration_ledger()?;
        let wanted: u32 = sequence.saturating_add(high);
        if wanted > max && key_is_temporary(&key) {
            return Err(self.err(ScErrorType::Storage, ScErrorCode::InvalidAction));
        }
        let new: u32 = if wanted > max {
            max
        } else {
            wanted
        };
        let expiration_ledger: u32 = if new > expiration && expiration - sequence <= low {
            new
        } else {
            expiration
        };
        self.storage.put(key, LedgerEntry { data, expiration_ledger });
        Ok(())
    }

    /// Makes sure that a datum of the running contract lives on: if it has at
    /// most `low` ledgers left, it has `high` after this.
    pub fn bump_contract_data(&mut self, k: Val, t: StorageType, low: u32, high: u32) -> (res: Result<(), HostError>)
        requires
            old(self).wf(),
        ensures
            final(self).wf(),
            bumps_datum(*old(self), *final(self), k, t, low, high, res),
    {
        self.check_val_integrity(k)?;
        let durability = match t {
            StorageType::Temporary => ContractDataDurability::Temporary,
            StorageType::Persistent => ContractDataDurability::Persistent,
            StorageType::Instance => {
                return Err(self.err(ScErrorType::Storage, ScErrorCode::InvalidAction));
            },
        };
        let key = self.storage_key_from_rawval(k, durability)?;
        self.bump_ledger_entry(key, low, high)
    }
}

/// A datum of the running contract is kept, in a ledger entry of its own or with the
/// instance.
pub open spec fn puts_datum(
    pre: Host,
    post: Host,
    k: Val,
    v: Val,
    t: StorageType,
    res: Result<(), HostError>,
) -> bool {
    match (val_fault(pre.objs(), k), val_fault(pre.objs(), v)) {
        (Some(f), _) => fails(pre, post, res, f),
        (None, Some(f)) => fails(pre, post, res, f),
        (None, None) => match durability_of(t) {
            Some(durability) => puts_data(pre, post, k, v, durability, res),
            None => exists|mid: Host, loaded: Result<(), HostError>| #[trigger]
                loads_instance(pre, mid, loaded) && puts_instance_datum(
                    mid,
                    post,
                    loaded,
                    k,
                    v,
                    res,
                ),
        },
    }
}

/// It is found out whether a datum of the running contract is there.
pub open spec fn has_datum(
    pre: Host,
    post: Host,
    k: Val,
    t: StorageType,
    res: Result<bool, HostError>,
) -> bool {
    match val_fault(pre.objs(), k) {
        Some(f) => fails(pre, post, res, f),
        None => match durability_of(t) {
            Some(durability) => {
                &&& post == pre
                &&& res == match data_key(pre, k, durability) {
                    Ok(key) => Ok::<bool, HostError>(pre.storage@.contains_key(key)),
                    Err(f) => Err(pre.spec_err(f)),
                }
            },
            None => exists|
                mid: Host,
                loaded: Result<(), HostError>,
                found: Result<Option<Val>, HostError>,
            | #[trigger]
                loads_instance(pre, mid, loaded) && #[trigger] finds_instance_datum(
                    mid,
                    post,
                    loaded,
                    k,
                    found,
                ) && res == was_found(found),
        },
    }
}

/// A datum of the running contract is read.
pub open spec fn gets_datum(
    pre: Host,
    post: Host,
    k: Val,
    t: StorageType,
    res: Result<Val, HostError>,
) -> bool {
    match val_fault(pre.objs(), k) {
        Some(f) => fails(pre, post, res, f),
        None => match durability_of(t) {
            Some(durability) => gets_data(pre, post, k, durability, res),
            None => exists|
                mid: Host,
                loaded: Result<(), HostError>,
                found: Result<Option<Val>, HostError>,
            | #[trigger]
                loads_instance(pre, mid, loaded) && #[trigger] finds_instance_datum(
                    mid,
                    post,
                    loaded,
                    k,
                    found,
                ) && res == found_or_missing(mid, found),
        },
    }
}

/// A datum of the running contract is dropped.
pub open spec fn drops_datum(
    pre: Host,
    post: Host,
    k: Val,
    t: StorageType,
    res: Result<(), HostError>,
) -> bool {
    match val_fault(pre.objs(), k) {
        Some(f) => fails(pre, post, res, f),
        None => match durability_of(t) {
            Some(durability) => match data_key(pre, k, durability) {
                Err(f) => fails(pre, post, res, f),
                Ok(key) => {
                    &&& res == Ok::<(), HostError>(())
                    &&& sets_storage(pre, post, pre.storage@.remove(key))
                },
            },
            None => exists|mid: Host, loaded: Result<(), HostError>| #[trigger]
                loads_instance(pre, mid, loaded) && deletes_instance_datum(
                    mid,
                    post,
                    loaded,
                    k,
                    res,
                ),
        },
    }
}

/// A datum of the running contract is bumped.
pub open spec fn bumps_datum(
    pre: Host,
    post: Host,
    k: Val,
    t: StorageType,
    low: u32,
    high: u32,
    res: Result<(), HostError>,
) -> bool {
    match val_fault(pre.objs(), k) {
        Some(f) => fails(pre, post, res, f),
        None => match durability_of(t) {
            None => fails(pre, post, res, (ScErrorType::Storage, ScErrorCode::InvalidAction)),
            Some(durability) => match data_key(pre, k, durability) {
                Err(f) => fails(pre, post, res, f),
                Ok(key) => match bump_entry(pre, pre.storage@, key, low, high) {
                    Err(f) => fails(pre, post, res, f),
                    Ok(m) => {
                        &&& res == Ok::<(), HostError>(())
                        &&& sets_storage(pre, post, m)
                    },
                },
            },
        },
    }
}

/// How durable an entry of a type of storage is, if the datum has an entry of
/// its own.
pub open spec fn durability_of(t: StorageType) -> Option<ContractDataDurability> {
    match t {
        StorageType::Temporary => Some(ContractDataDurability::Temporary),
        StorageType::Persistent => Some(ContractDataDurability::Persistent),
        StorageType::Instance => None,
    }
}

fn key_is_temporary(key: &LedgerKey) -> (r: bool)
    ensures
        r == is_temporary(key@),
{
    match key {
        LedgerKey::ContractData { durability, .. } => *durability == ContractDataDurability::Temporary,
        LedgerKey::TokenAllowance { .. } => true,
        _ => false,
    }
}

} // verus!
