//! The ledger: entries under keys, each with the ledger number at which it
//! expires.

use crate::model::{AccountId, Deep, Hash32, ScAddress};
use crate::scval::{sc_copy, sc_copy_entries, sc_deep, sc_deep_entries, sc_eq, ScMapEntry, ScVal};
use crate::util::copy_bytes;
use vstd::prelude::*;

verus! {

/// Where a contract keeps a datum: with the contract instance, or in an entry of
/// its own that can or cannot come back after it expires.
#[derive(Clone, Copy, PartialEq, Eq, Structural, Debug)]
pub enum StorageType {
    Temporary,
    Persistent,
    Instance,
}

/// The code that runs a contract.
#[derive(Clone, Copy, PartialEq, Eq, Structural, Debug)]
pub enum ContractExecutable {
    Wasm(Hash32),
    Token,
}

/// Whether an entry of contract data can come back after it expires.
#[derive(Clone, Copy, PartialEq, Eq, Structural, Debug)]
pub enum ContractDataDurability {
    Temporary,
    Persistent,
}

/// A contract: the code that runs it, and the data kept with the instance.
pub struct ScContractInstance {
    pub executable: ContractExecutable,
    pub storage: Vec<ScMapEntry>,
}

/// What the issuer of an asset demands of its holders.
#[derive(Clone, Copy, PartialEq, Eq, Structural, Debug)]
pub struct AccountFlags {
    pub auth_required: bool,
    pub auth_revocable: bool,
    pub clawback_enabled: bool,
}

/// What a holder has of a token.
#[derive(Clone, Copy, PartialEq, Eq, Structural, Debug)]
pub struct BalanceValue {
    pub amount: i128,
    pub authorized: bool,
    pub clawback: bool,
}

/// What a spender may still take from a holder, and until which ledger.
#[derive(Clone, Copy, PartialEq, Eq, Structural, Debug)]
pub struct AllowanceValue {
    pub amount: i128,
    pub expiration_ledger: u32,
}

/// The asset that a token contract stands for. Codes are text.
pub enum AssetInfo {
    Native,
    AlphaNum4 { asset_code: Vec<u8>, issuer: AccountId },
    AlphaNum12 { asset_code: Vec<u8>, issuer: AccountId },
}

/// What a token calls itself.
pub struct TokenMetadata {
    pub name: Vec<u8>,
    pub symbol: Vec<u8>,
}

/// What a token contract keeps with its instance.
pub struct TokenInstance {
    pub asset_info: Option<AssetInfo>,
    pub admin: Option<ScAddress>,
    pub metadata: Option<TokenMetadata>,
}

/// What a ledger entry is found by.
pub enum LedgerKey {
    ContractData { contract: Hash32, key: ScVal, durability: ContractDataDurability },
    ContractInstance { contract: Hash32 },
    ContractCode { hash: Hash32 },
    Account { id: AccountId },
    TokenInstance { contract: Hash32 },
    TokenBalance { contract: Hash32, holder: ScAddress },
    TokenAllowance { contract: Hash32, from: ScAddress, spender: ScAddress },
}

/// What a ledger entry holds.
pub enum LedgerEntryData {
    ContractData(ScVal),
    ContractInstance(ScContractInstance),
    ContractCode(Vec<u8>),
    Account(AccountFlags),
    TokenInstance(TokenInstance),
    TokenBalance(BalanceValue),
    TokenAllowance(AllowanceValue),
}

pub struct LedgerEntry {
    pub data: LedgerEntryData,
    pub expiration_ledger: u32,
}

/// The ledger entries that a host works on.
pub struct Storage {
    pub entries: Vec<(LedgerKey, LedgerEntry)>,
}

/// What a key denotes.
pub enum KeyModel {
    ContractData(Hash32, Deep, ContractDataDurability),
    ContractInstance(Hash32),
    ContractCode(Hash32),
    Account(AccountId),
    TokenInstance(Hash32),
    TokenBalance(Hash32, ScAddress),
    TokenAllowance(Hash32, ScAddress, ScAddress),
}

/// What an asset description denotes.
pub enum AssetModel {
    Native,
    AlphaNum4(Seq<u8>, AccountId),
    AlphaNum12(Seq<u8>, AccountId),
}

/// What a token contract keeps with its instance: the asset, the administrator,
/// and its name and symbol.
pub struct TokenModel {
    pub asset_info: Option<AssetModel>,
    pub admin: Option<ScAddress>,
    pub metadata: Option<(Seq<u8>, Seq<u8>)>,
}

/// What the contents of an entry denote.
pub enum DataModel {
    ContractData(Deep),
    ContractInstance(ContractExecutable, Seq<Deep>),
    ContractCode(Seq<u8>),
    Account(AccountFlags),
    TokenInstance(TokenModel),
    TokenBalance(BalanceValue),
    TokenAllowance(AllowanceValue),
}

pub struct EntryModel {
    pub data: DataModel,
    pub expiration_ledger: u32,
}

impl View for LedgerKey {
    type V = KeyModel;

    open spec fn view(&self) -> KeyModel {
        match self {
            LedgerKey::ContractData { contract, key, durability } => KeyModel::ContractData(
                *contract,
                sc_deep(*key),
                *durability,
            ),
            LedgerKey::ContractInstance { contract } => KeyModel::ContractInstance(*contract),
            LedgerKey::ContractCode { hash } => KeyModel::ContractCode(*hash),
            LedgerKey::Account { id } => KeyModel::Account(*id),
            LedgerKey::TokenInstance { contract } => KeyModel::TokenInstance(*contract),
            LedgerKey::TokenBalance { contract, holder } => KeyModel::TokenBalance(*contract, *holder),
            LedgerKey::TokenAllowance { contract, from, spender } => KeyModel::TokenAllowance(
                *contract,
                *from,
                *spender,
            ),
        }
    }
}

impl View for AssetInfo {
    type V = AssetModel;

    open spec fn view(&self) -> AssetModel {
        match self {
            AssetInfo::Native => AssetModel::Native,
            AssetInfo::AlphaNum4 { asset_code, issuer } => AssetModel::AlphaNum4(asset_code@, *issuer),
            AssetInfo::AlphaNum12 { asset_code, issuer } => AssetModel::AlphaNum12(asset_code@, *issuer),
        }
    }
}

impl View for TokenInstance {
    type V = TokenModel;

    open spec fn view(&self) -> TokenModel {
        TokenModel {
            asset_info: match self.asset_info {
                Some(a) => Some(a@),
                None => None,
            },
            admin: self.admin,
            metadata: match self.metadata {
                Some(m) => Some((m.name@, m.symbol@)),
                None => None,
            },
        }
    }
}

impl View for LedgerEntryData {
    type V = DataModel;

    open spec fn view(&self) -> DataModel {
        match self {
            LedgerEntryData::ContractData(v) => DataModel::ContractData(sc_deep(*v)),
            LedgerEntryData::ContractInstance(i) => DataModel::ContractInstance(
                i.executable,
                sc_deep_entries(i.storage@),
            ),
            LedgerEntryData::ContractCode(c) => DataModel::ContractCode(c@),
            LedgerEntryData::Account(f) => DataModel::Account(*f),
            LedgerEntryData::TokenInstance(t) => DataModel::TokenInstance(t@),
            LedgerEntryData::TokenBalance(b) => DataModel::TokenBalance(*b),
            LedgerEntryData::TokenAllowance(a) => DataModel::TokenAllowance(*a),
        }
    }
}

impl View for LedgerEntry {
    type V = EntryModel;

    open spec fn view(&self) -> EntryModel {
        EntryModel { data: self.data@, expiration_ledger: self.expiration_ledger }
    }
}

/// The map that a list of entries stands for, where no two have the same key.
pub open spec fn entries_map(s: Seq<(LedgerKey, LedgerEntry)>) -> Map<KeyModel, EntryModel>
    decreases s.len(),
{
    if s.len() == 0 {
        Map::empty()
    } else {
        entries_map(s.drop_last()).insert(s.last().0@, s.last().1@)
    }
}

pub open spec fn distinct_keys(s: Seq<(LedgerKey, LedgerEntry)>) -> bool {
    forall|i: int, j: int| 0 <= i < j < s.len() ==> (#[trigger] s[i]).0@ != (#[trigger] s[j]).0@
}

impl View for Storage {
    type V = Map<KeyModel, EntryModel>;

    open spec fn view(&self) -> Map<KeyModel, EntryModel> {
        entries_map(self.entries@)
    }
}

impl Storage {
    pub open spec fn wf(self) -> bool {
        distinct_keys(self.entries@)
    }
}

/// What the map holds under each key of the list.
proof fn lemma_entries_map(s: Seq<(LedgerKey, LedgerEntry)>)
    requires
        distinct_keys(s),
    ensures
        forall|i: int|
            0 <= i < s.len() ==> entries_map(s).contains_key((#[trigger] s[i]).0@) && entries_map(s)[s[i].0@] == s[i].1@,
        forall|k: KeyModel|
            #[trigger] entries_map(s).contains_key(k) ==> exists|i: int| 0 <= i < s.len() && (#[trigger] s[i]).0@ == k,
    decreases s.len(),
{
    if s.len() > 0 {
        let init = s.drop_last();
        assert forall|i: int, j: int| 0 <= i < j < init.len() implies (#[trigger] init[i]).0@ != (
        #[trigger] init[j]).0@ by {
            assert(s[i].0@ != s[j].0@);
        }
        lemma_entries_map(init);
        assert forall|i: int| 0 <= i < s.len() implies entries_map(s).contains_key((#[trigger] s[i]).0@)
            && entries_map(s)[s[i].0@] == s[i].1@ by {
            if i < init.len() {
                assert(init[i] == s[i]);
                assert(s[i].0@ != s[s.len() - 1].0@);
            }
        }
        assert forall|k: KeyModel| #[trigger] entries_map(s).contains_key(k) implies exists|i: int|
            0 <= i < s.len() && (#[trigger] s[i]).0@ == k by {
            if k == s.last().0@ {
                assert(s[s.len() - 1].0@ == k);
            } else {
                assert(entries_map(init).contains_key(k));
                let i = choose|i: int| 0 <= i < init.len() && (#[trigger] init[i]).0@ == k;
                assert(s[i].0@ == k);
            }
        }
    }
}

/// Two lists stand for the same map if each key of one is in the other, with
/// the same entry.
proof fn lemma_entries_map_eq(s: Seq<(LedgerKey, LedgerEntry)>, m: Map<KeyModel, EntryModel>)
    requires
        distinct_keys(s),
        forall|i: int| 0 <= i < s.len() ==> m.contains_key((#[trigger] s[i]).0@) && m[s[i].0@] == s[i].1@,
        forall|k: KeyModel|
            #[trigger] m.contains_key(k) ==> exists|i: int| 0 <= i < s.len() && (#[trigger] s[i]).0@ == k,
    ensures
        entries_map(s) == m,
{
    lemma_entries_map(s);
    assert forall|k: KeyModel| #[trigger] entries_map(s).contains_key(k) == m.contains_key(k) by {
        if entries_map(s).contains_key(k) {
            let i = choose|i: int| 0 <= i < s.len() && (#[trigger] s[i]).0@ == k;
        }
        if m.contains_key(k) {
            let i = choose|i: int| 0 <= i < s.len() && (#[trigger] s[i]).0@ == k;
        }
    }
    assert forall|k: KeyModel| #[trigger] entries_map(s).contains_key(k) implies entries_map(s)[k] == m[k] by {
        let i = choose|i: int| 0 <= i < s.len() && (#[trigger] s[i]).0@ == k;
    }
    assert(entries_map(s) =~= m);
}

pub fn key_eq(a: &LedgerKey, b: &LedgerKey) -> (r: bool)
    ensures
        r == (a@ == b@),
{
    match (a, b) {
        (
            LedgerKey::ContractData { contract: c1, key: k1, durability: d1 },
            LedgerKey::ContractData { contract: c2, key: k2, durability: d2 },
        ) => *c1 == *c2 && *d1 == *d2 && sc_eq(k1, k2),
        (LedgerKey::ContractInstance { contract: c1 }, LedgerKey::ContractInstance { contract: c2 }) => *c1 == *c2,
        (LedgerKey::ContractCode { hash: h1 }, LedgerKey::ContractCode { hash: h2 }) => *h1 == *h2,
        (LedgerKey::Account { id: i1 }, LedgerKey::Account { id: i2 }) => *i1 == *i2,
        (LedgerKey::TokenInstance { contract: c1 }, LedgerKey::TokenInstance { contract: c2 }) => *c1 == *c2,
        (
            LedgerKey::TokenBalance { contract: c1, holder: a1 },
            LedgerKey::TokenBalance { contract: c2, holder: a2 },
        ) => *c1 == *c2 && *a1 == *a2,
        (
            LedgerKey::TokenAllowance { contract: c1, from: f1, spender: s1 },
            LedgerKey::TokenAllowance { contract: c2, from: f2, spender: s2 },
        ) => *c1 == *c2 && *f1 == *f2 && *s1 == *s2,
        _ => false,
    }
}

pub fn asset_info_copy(a: &AssetInfo) -> (r: AssetInfo)
    ensures
        r@ == a@,
{
    match a {
        AssetInfo::Native => AssetInfo::Native,
        AssetInfo::AlphaNum4 { asset_code, issuer } => AssetInfo::AlphaNum4 {
            asset_code: copy_bytes(asset_code),
            issuer: *issuer,
        },
        AssetInfo::AlphaNum12 { asset_code, issuer } => AssetInfo::AlphaNum12 {
            asset_code: copy_bytes(asset_code),
            issuer: *issuer,
        },
    }
}

pub fn token_instance_copy(t: &TokenInstance) -> (r: TokenInstance)
    ensures
        r@ == t@,
{
    TokenInstance {
        asset_info: match &t.asset_info {
            Some(a) => Some(asset_info_copy(a)),
            None => None,
        },
        admin: t.admin,
        metadata: match &t.metadata {
            Some(m) => Some(TokenMetadata { name: copy_bytes(&m.name), symbol: copy_bytes(&m.symbol) }),
            None => None,
        },
    }
}

pub fn data_copy(d: &LedgerEntryData) -> (r: LedgerEntryData)
    ensures
        r@ == d@,
{
    match d {
        LedgerEntryData::ContractData(v) => LedgerEntryData::ContractData(sc_copy(v)),
        LedgerEntryData::ContractInstance(i) => LedgerEntryData::ContractInstance(
            ScContractInstance { executable: i.executable, storage: sc_copy_entries(&i.storage) },
        ),
        LedgerEntryData::ContractCode(c) => LedgerEntryData::ContractCode(copy_bytes(c)),
        LedgerEntryData::Account(f) => LedgerEntryData::Account(*f),
        LedgerEntryData::TokenInstance(t) => LedgerEntryData::TokenInstance(token_instance_copy(t)),
        LedgerEntryData::TokenBalance(b) => LedgerEntryData::TokenBalance(*b),
        LedgerEntryData::TokenAllowance(a) => LedgerEntryData::TokenAllowance(*a),
    }
}

impl Storage {
    pub fn new() -> (s: Storage)
        ensures
            s.wf(),
            s@ == Map::<KeyModel, EntryModel>::empty(),
    {
        Storage { entries: Vec::new() }
    }

    fn find(&self, key: &LedgerKey) -> (pos: Option<usize>)
        requires
            self.wf(),
        ensures
            match pos {
                Some(i) => i < self.entries@.len() && self.entries@[i as int].0@ == key@,
                None => forall|i: int| 0 <= i < self.entries@.len() ==> (#[trigger] self.entries@[i]).0@ != key@,
            },
    {
        let mut i: usize = 0;
        while i < self.entries.len()
            invariant
                i <= self.entries@.len(),
                forall|j: int| 0 <= j < i ==> (#[trigger] self.entries@[j]).0@ != key@,
            decreases self.entries@.len() - i,
        {
            if key_eq(&self.entries[i].0, key) {
                return Some(i);
            }
            i = i + 1;
        }
        None
    }

    /// Whether there is an entry under a key.
    pub fn has(&self, key: &LedgerKey) -> (r: bool)
        requires
            self.wf(),
        ensures
            r == self@.contains_key(key@),
    {
        proof {
            lemma_entries_map(self.entries@);
        }
        self.find(key).is_some()
    }

    /// The entry under a key.
    pub fn get(&self, key: &LedgerKey) -> (r: Option<&LedgerEntry>)
        requires
            self.wf(),
        ensures
            r is Some <==> self@.contains_key(key@),
            r matches Some(e) ==> e@ == self@[key@],
    {
        proof {
            lemma_entries_map(self.entries@);
        }
        match self.find(key) {
            Some(i) => Some(&self.entries[i].1),
            None => None,
        }
    }

    /// Puts an entry under a key, in place of any that is there.
    pub fn put(&mut self, key: LedgerKey, entry: LedgerEntry)
        requires
            old(self).wf(),
        ensures
            final(self).wf(),
            final(self)@ == old(self)@.insert(key@, entry@),
    {
        proof {
            lemma_entries_map(self.entries@);
        }
        let ghost before = self.entries@;
        let ghost m = entries_map(before).insert(key@, entry@);
        match self.find(&key) {
            Some(i) => {
                let ghost k = key@;
                self.entries[i] = (key, entry);
                assert(self.entries@ == before.update(i as int, (key, entry)));
                proof {
                    let s = self.entries@;
                    assert forall|a: int, b: int| 0 <= a < b < s.len() implies (#[trigger] s[a]).0@ != (
                    #[trigger] s[b]).0@ by {
                        assert(before[a].0@ != before[b].0@);
                    }
                    assert forall|a: int| 0 <= a < s.len() implies m.contains_key((#[trigger] s[a]).0@)
                        && m[s[a].0@] == s[a].1@ by {
                        if a != i {
                            assert(before[a].0@ != k) by {
                                if a < i {
                                    assert(before[a].0@ != before[i as int].0@);
                                } else {
                                    assert(before[i as int].0@ != before[a].0@);
                                }
                            }
                        }
                    }
                    assert forall|x: KeyModel| #[trigger] m.contains_key(x) implies exists|a: int|
                        0 <= a < s.len() && (#[trigger] s[a]).0@ == x by {
                        if x == k {
                            assert(s[i as int].0@ == x);
                        } else {
                            let a = choose|a: int| 0 <= a < before.len() && (#[trigger] before[a]).0@ == x;
                            assert(s[a].0@ == x);
                        }
                    }
                    lemma_entries_map_eq(s, m);
                }
            },
            None => {
                self.entries.push((key, entry));
                assert(self.entries@.drop_last() =~= before);
                proof {
                    let s = self.entries@;
                    assert forall|a: int, b: int| 0 <= a < b < s.len() implies (#[trigger] s[a]).0@ != (
                    #[trigger] s[b]).0@ by {
                        assert(s[a] == before[a]);
                        if b < before.len() {
                            assert(before[a].0@ != before[b].0@);
                        }
                    }
                }
            },
        }
    }

    /// Removes the entry under a key, if there is one.
    pub fn del(&mut self, key: &LedgerKey)
        requires
            old(self).wf(),
        ensures
            final(self).wf(),
            final(self)@ == old(self)@.remove(key@),
    {
        proof {
            lemma_entries_map(self.entries@);
        }
        let ghost before = self.entries@;
        let ghost m = entries_map(before).remove(key@);
        match self.find(key) {
            Some(i) => {
                self.entries.remove(i);
                proof {
                    let s = self.entries@;
                    assert(s =~= before.remove(i as int));
                    assert forall|a: int, b: int| 0 <= a < b < s.len() implies (#[trigger] s[a]).0@ != (
                    #[trigger] s[b]).0@ by {
                        let a1 = if a < i { a } else { a + 1 };
                        let b1 = if b < i { b } else { b + 1 };
                        assert(before[a1].0@ != before[b1].0@);
                    }
                    assert forall|a: int| 0 <= a < s.len() implies m.contains_key((#[trigger] s[a]).0@)
                        && m[s[a].0@] == s[a].1@ by {
                        let a1 = if a < i { a } else { a + 1 };
                        assert(s[a] == before[a1]);
                        if a1 < i {
                            assert(before[a1].0@ != before[i as int].0@);
                        } else {
                            assert(before[i as int].0@ != before[a1].0@);
                        }
                    }
                    assert forall|x: KeyModel| #[trigger] m.contains_key(x) implies exists|a: int|
                        0 <= a < s.len() && (#[trigger] s[a]).0@ == x by {
                        let a1 = choose|a1: int| 0 <= a1 < before.len() && (#[trigger] before[a1]).0@ == x;
                        let a = if a1 < i { a1 } else { a1 - 1 };
                        assert(s[a] == before[a1]);
                    }
                    lemma_entries_map_eq(s, m);
                }
            },
            None => {
                assert(!entries_map(before).contains_key(key@));
                assert(m =~= entries_map(before));
            },
        }
    }
}

} // verus!
