//! The host: the state that guests work on, and the functions that set it up
//! and take it down.

use crate::bignum::{I256, U256};
use crate::budget::{budget_error, saturated, saturating_mul, Budget, ContractCostType};
use crate::error::{DebugInfo, Error, Fault, HostError, ScErrorCode, ScErrorType};
use crate::model::{
    extends, law_values_are_immutable, lemma_map_ok_extends, lemma_vals_ok_extends, map_ok, table_ok, val_ok, vals_ok,
    AccountId, BlobKind, Hash32, NumKind, ObjModel, ScAddress,
};
use crate::prng::{Prng, Seed};
use crate::scval::ScMapEntry;
use crate::storage::{ContractExecutable, EntryModel, KeyModel, Storage};
use crate::val::{Object, Symbol, Val, VecObject};
use vstd::prelude::*;

verus! {

/// How deep the host follows values into one another when it converts or
/// compares them. The limit is counted where a value is met.
pub const DEFAULT_HOST_DEPTH_LIMIT: u32 = 100;

/// What the host knows of the ledger that is being closed.
#[derive(Clone, Copy, Debug)]
pub struct LedgerInfo {
    pub protocol_version: u32,
    pub sequence_number: u32,
    pub timestamp: u64,
    pub network_id: [u8; 32],
    pub base_reserve: u32,
    pub min_temp_entry_expiration: u32,
    pub min_persistent_entry_expiration: u32,
    pub max_entry_expiration: u32,
}

impl Default for LedgerInfo {
    fn default() -> (li: LedgerInfo)
        ensures
            li.protocol_version == 0,
            li.sequence_number == 0,
            li.timestamp == 0,
            li.network_id@ == Seq::new(32, |i: int| 0u8),
            li.base_reserve == 0,
            li.min_temp_entry_expiration == 0,
            li.min_persistent_entry_expiration == 0,
            li.max_entry_expiration == 0,
    {
        let li = LedgerInfo {
            protocol_version: 0,
            sequence_number: 0,
            timestamp: 0,
            network_id: [0u8; 32],
            base_reserve: 0,
            min_temp_entry_expiration: 0,
            min_persistent_entry_expiration: 0,
            max_entry_expiration: 0,
        };
        assert(li.network_id@ =~= Seq::new(32, |i: int| 0u8));
        li
    }
}

/// A host object. Objects are never changed once they are in the table.
pub enum HostObject {
    HostVec(Vec<Val>),
    HostMap(Vec<(Val, Val)>),
    U64(u64),
    I64(i64),
    TimePoint(u64),
    Duration(u64),
    U128(u128),
    I128(i128),
    U256(U256),
    I256(I256),
    Bytes(Vec<u8>),
    Text(Vec<u8>),
    Symbol(Vec<u8>),
    Address(ScAddress),
}

impl View for HostObject {
    type V = ObjModel;

    open spec fn view(&self) -> ObjModel {
        match self {
            HostObject::HostVec(v) => ObjModel::Vector(v@),
            HostObject::HostMap(m) => ObjModel::Mapping(m@),
            HostObject::U64(x) => ObjModel::Num(NumKind::U64, *x as int),
            HostObject::I64(x) => ObjModel::Num(NumKind::I64, *x as int),
            HostObject::TimePoint(x) => ObjModel::Num(NumKind::Timepoint, *x as int),
            HostObject::Duration(x) => ObjModel::Num(NumKind::Duration, *x as int),
            HostObject::U128(x) => ObjModel::Num(NumKind::U128, *x as int),
            HostObject::I128(x) => ObjModel::Num(NumKind::I128, *x as int),
            HostObject::U256(x) => ObjModel::Num(NumKind::U256, x@),
            HostObject::I256(x) => ObjModel::Num(NumKind::I256, x@),
            HostObject::Bytes(s) => ObjModel::Blob(BlobKind::Bytes, s@),
            HostObject::Text(s) => ObjModel::Blob(BlobKind::Text, s@),
            HostObject::Symbol(s) => ObjModel::Blob(BlobKind::Symbol, s@),
            HostObject::Address(a) => ObjModel::Address(*a),
        }
    }
}

/// What is running.
pub enum Frame {
    ContractVM { contract_id: Hash32, fn_name: Symbol, args: Vec<Val> },
    HostFunction,
    Token { contract_id: Hash32, fn_name: Symbol, args: Vec<Val> },
    TestContract { contract_id: Hash32, fn_name: Symbol, args: Vec<Val>, panic: Option<Error> },
}

/// What is running, with what belongs to that run alone: its generator, the data
/// kept with the running instance, as the ledger has it and, once it was needed,
/// as values, and the objects that the guest knows by relative handles.
pub struct Context {
    pub frame: Frame,
    pub prng: Option<Prng>,
    pub instance: Vec<ScMapEntry>,
    pub storage: Option<Vec<(Val, Val)>>,
    pub relative_objects: Vec<Object>,
}

/// What the token contract reports of its own doings.
#[derive(Clone, Copy, PartialEq, Eq, Structural, Debug)]
pub enum TokenEvent {
    Approve { from: ScAddress, spender: ScAddress, amount: i128, expiration_ledger: u32 },
    Transfer { from: ScAddress, to: ScAddress, amount: i128 },
    Burn { from: ScAddress, amount: i128 },
    Clawback { admin: ScAddress, from: ScAddress, amount: i128 },
    SetAuthorized { admin: ScAddress, id: ScAddress, authorize: bool },
    Mint { admin: ScAddress, to: ScAddress, amount: i128 },
    SetAdmin { admin: ScAddress, new_admin: ScAddress },
}

/// An entry of the event log. A note may be on an error.
pub enum Event {
    Contract { emitter: Option<Hash32>, topics: VecObject, data: Val },
    ExecutableUpdate { contract_id: Hash32, old_executable: ContractExecutable, new_executable: ContractExecutable },
    Diagnostic { error: Option<Error>, message: String, args: Vec<Val> },
    Token { contract_id: Hash32, event: TokenEvent },
}

/// Whether the host keeps notes that help to debug a contract.
#[derive(Clone, Copy, PartialEq, Eq, Structural, Debug)]
pub enum DiagnosticLevel {
    Off,
    Debug,
}

/// What an address can agree to: a call of a contract, or the making of one.
pub enum AuthorizedFunction {
    ContractFn { contract_id: Hash32, function_name: Vec<u8>, args: Vec<Val> },
    CreateContract { deployer: ScAddress, salt: U256, wasm_hash: Hash32 },
}

/// Something that an address has agreed to, and whether it was done.
pub struct AuthorizedInvocation {
    pub address: ScAddress,
    pub function: AuthorizedFunction,
    pub is_exhausted: bool,
}

/// Whether calls must have been agreed to, or are noted down to be agreed to.
#[derive(Clone, Copy, PartialEq, Eq, Structural, Debug)]
pub enum AuthorizationMode {
    Enforcing,
    Recording { disable_non_root_auth: bool },
}

/// The calls that addresses have agreed to, or were asked to agree to.
pub struct AuthorizationManager {
    pub mode: AuthorizationMode,
    pub invocations: Vec<AuthorizedInvocation>,
}

/// The state of a host.
///
/// The contracts say of each field what becomes of it, so all fields are public.
/// The functions of a host ask for its invariant, `wf`, and keep it. Code that
/// is not verified should leave the fields to them: what runs is set by
/// `push_frame` and `pop_frame`, notes for debugging by `set_diagnostic_level`, and
/// the agreements of addresses by `set_authorization_entries`.
pub struct Host {
    pub source_account: Option<AccountId>,
    pub ledger: Option<LedgerInfo>,
    pub objects: Vec<HostObject>,
    pub storage: Storage,
    pub context: Vec<Context>,
    pub budget: Budget,
    pub events: Vec<Event>,
    pub authorization_manager: AuthorizationManager,
    pub diagnostic_level: DiagnosticLevel,
    pub base_prng: Option<Prng>,
}

impl Frame {
    /// The running contract, with the function that was called and its
    /// arguments.
    pub open spec fn contract_call(self) -> Option<(Hash32, Symbol, Seq<Val>)> {
        match self {
            Frame::ContractVM { contract_id, fn_name, args } => Some((contract_id, fn_name, args@)),
            Frame::HostFunction => None,
            Frame::Token { contract_id, fn_name, args } => Some((contract_id, fn_name, args@)),
            Frame::TestContract { contract_id, fn_name, args, .. } => Some((contract_id, fn_name, args@)),
        }
    }
}

impl Context {
    /// Whether the values of a run are well formed.
    pub open spec fn ok(self, objs: Seq<ObjModel>) -> bool {
        &&& self.frame.contract_call() matches Some((_, fn_name, args)) ==> {
            &&& val_ok(objs, fn_name.to_val())
            &&& vals_ok(objs, args)
        }
        &&& self.storage matches Some(m) ==> map_ok(objs, m@)
        &&& forall|i: int|
            0 <= i < self.relative_objects@.len() ==> val_ok(objs, Val::Object(#[trigger] self.relative_objects@[i]))
    }
}

impl Event {
    pub open spec fn ok(self, objs: Seq<ObjModel>) -> bool {
        match self {
            Event::Contract { topics, data, .. } => val_ok(objs, topics.to_val()) && val_ok(objs, data),
            _ => true,
        }
    }
}

pub open spec fn contexts_ok(objs: Seq<ObjModel>, s: Seq<Context>) -> bool {
    forall|i: int| 0 <= i < s.len() ==> (#[trigger] s[i]).ok(objs)
}

pub open spec fn events_ok(objs: Seq<ObjModel>, s: Seq<Event>) -> bool {
    forall|i: int| 0 <= i < s.len() ==> (#[trigger] s[i]).ok(objs)
}

impl AuthorizedFunction {
    pub open spec fn ok(self, objs: Seq<ObjModel>) -> bool {
        self matches AuthorizedFunction::ContractFn { args, .. } ==> vals_ok(objs, args@)
    }
}

pub open spec fn invocations_ok(objs: Seq<ObjModel>, s: Seq<AuthorizedInvocation>) -> bool {
    forall|i: int| 0 <= i < s.len() ==> (#[trigger] s[i]).function.ok(objs)
}

proof fn lemma_contexts_ok_extends(objs: Seq<ObjModel>, more: Seq<ObjModel>, s: Seq<Context>)
    requires
        table_ok(objs),
        extends(objs, more),
        contexts_ok(objs, s),
    ensures
        contexts_ok(more, s),
{
    assert forall|i: int| 0 <= i < s.len() implies (#[trigger] s[i]).ok(more) by {
        let c = s[i];
        assert(c.ok(objs));
        if let Some((_, fn_name, args)) = c.frame.contract_call() {
            law_values_are_immutable(objs, more, fn_name.to_val());
            lemma_vals_ok_extends(objs, more, args);
        }
        if let Some(m) = c.storage {
            lemma_map_ok_extends(objs, more, m@);
        }
        assert forall|j: int| 0 <= j < c.relative_objects@.len() implies val_ok(
            more,
            Val::Object(#[trigger] c.relative_objects@[j]),
        ) by {
            law_values_are_immutable(objs, more, Val::Object(c.relative_objects@[j]));
        }
    }
}

proof fn lemma_events_ok_extends(objs: Seq<ObjModel>, more: Seq<ObjModel>, s: Seq<Event>)
    requires
        table_ok(objs),
        extends(objs, more),
        events_ok(objs, s),
    ensures
        events_ok(more, s),
{
    assert forall|i: int| 0 <= i < s.len() implies (#[trigger] s[i]).ok(more) by {
        assert(s[i].ok(objs));
        match s[i] {
            Event::Contract { topics, data, .. } => {
                law_values_are_immutable(objs, more, topics.to_val());
                law_values_are_immutable(objs, more, data);
            },
            _ => {},
        }
    }
}

proof fn lemma_invocations_ok_extends(objs: Seq<ObjModel>, more: Seq<ObjModel>, s: Seq<AuthorizedInvocation>)
    requires
        table_ok(objs),
        extends(objs, more),
        invocations_ok(objs, s),
    ensures
        invocations_ok(more, s),
{
    assert forall|i: int| 0 <= i < s.len() implies (#[trigger] s[i]).function.ok(more) by {
        if let AuthorizedFunction::ContractFn { args, .. } = s[i].function {
            lemma_vals_ok_extends(objs, more, args@);
        }
    }
}

/// What the outcome of work on ledger entries depends on besides the entries: the
/// ledger that is being closed, and what goes with errors.
pub struct Setting {
    pub ledger: Option<LedgerInfo>,
    pub info: Option<DebugInfo>,
}

impl Setting {
    /// An error value as it is raised.
    pub open spec fn error(self, error: Error) -> HostError {
        HostError { error, info: self.info }
    }

    /// A fault as it is raised.
    pub open spec fn err(self, f: Fault) -> HostError {
        self.error(Error { type_: f.0, code: f.1.spec_number() })
    }
}

impl Host {
    pub open spec fn setting(self) -> Setting {
        Setting { ledger: self.ledger, info: self.spec_debug_info() }
    }

    /// The contents of the object table.
    pub open spec fn objs(self) -> Seq<ObjModel> {
        self.objects@.map_values(|o: HostObject| o@)
    }

    /// The invariant of a host: every value that it holds is well formed, and no
    /// two ledger entries have the same key.
    pub open spec fn wf(self) -> bool {
        &&& table_ok(self.objs())
        &&& contexts_ok(self.objs(), self.context@)
        &&& events_ok(self.objs(), self.events@)
        &&& invocations_ok(self.objs(), self.authorization_manager.invocations@)
        &&& self.storage.wf()
    }

    /// What goes with an error of this host.
    pub open spec fn spec_debug_info(self) -> Option<DebugInfo> {
        match self.diagnostic_level {
            DiagnosticLevel::Off => None,
            DiagnosticLevel::Debug => Some(DebugInfo { events: self.events@.len() as usize }),
        }
    }

    /// An error value as this host raises it.
    pub open spec fn spec_error(self, error: Error) -> HostError {
        HostError { error, info: self.spec_debug_info() }
    }

    /// A fault as this host raises it.
    pub open spec fn spec_err(self, f: Fault) -> HostError {
        self.spec_error(Error { type_: f.0, code: f.1.spec_number() })
    }

    pub(crate) fn maybe_get_debug_info(&self) -> (info: Option<DebugInfo>)
        ensures
            info == self.spec_debug_info(),
    {
        match self.diagnostic_level {
            DiagnosticLevel::Off => None,
            DiagnosticLevel::Debug => Some(DebugInfo { events: self.events.len() }),
        }
    }

    pub(crate) fn error(&self, error: Error) -> (e: HostError)
        ensures
            e == self.spec_error(error),
    {
        HostError { error, info: self.maybe_get_debug_info() }
    }

    pub(crate) fn err(&self, type_: ScErrorType, code: ScErrorCode) -> (e: HostError)
        ensures
            e == self.spec_err((type_, code)),
    {
        self.error(Error::from_type_and_code(type_, code))
    }

    pub(crate) fn is_debug(&self) -> (r: bool)
        ensures
            r == (self.diagnostic_level == DiagnosticLevel::Debug),
    {
        self.diagnostic_level == DiagnosticLevel::Debug
    }
}

/// A host whose objects have been added to keeps its invariant.
pub(crate) proof fn lemma_wf_extends(pre: Host, post: Host)
    requires
        pre.wf(),
        extends(pre.objs(), post.objs()),
        table_ok(post.objs()),
        post == (Host { objects: post.objects, ..pre }),
    ensures
        post.wf(),
{
    lemma_contexts_ok_extends(pre.objs(), post.objs(), pre.context@);
    lemma_events_ok_extends(pre.objs(), post.objs(), pre.events@);
    lemma_invocations_ok_extends(pre.objs(), post.objs(), pre.authorization_manager.invocations@);
}

/// A failure that leaves the host as it was.
pub open spec fn fails<T>(pre: Host, post: Host, res: Result<T, HostError>, f: Fault) -> bool {
    post == pre && res == Err::<T, HostError>(pre.spec_err(f))
}

impl AuthorizationManager {
    /// A manager under which nobody has agreed to anything.
    pub fn new_enforcing_without_authorizations() -> (m: AuthorizationManager)
        ensures
            m.mode == AuthorizationMode::Enforcing,
            m.invocations@ == Seq::<AuthorizedInvocation>::empty(),
    {
        AuthorizationManager { mode: AuthorizationMode::Enforcing, invocations: Vec::new() }
    }

    /// A manager that notes down what it is asked.
    pub fn new_recording(disable_non_root_auth: bool) -> (m: AuthorizationManager)
        ensures
            m.mode == (AuthorizationMode::Recording { disable_non_root_auth }),
            m.invocations@ == Seq::<AuthorizedInvocation>::empty(),
    {
        AuthorizationManager { mode: AuthorizationMode::Recording { disable_non_root_auth }, invocations: Vec::new() }
    }
}

/// A host on which nothing has happened yet: no objects, nothing running, nothing
/// logged and nobody's agreement.
pub open spec fn is_fresh(host: Host) -> bool {
    &&& host.wf()
    &&& host.source_account is None
    &&& host.ledger is None
    &&& host.objs() == Seq::<ObjModel>::empty()
    &&& host.context@ == Seq::<Context>::empty()
    &&& host.events@ == Seq::<Event>::empty()
    &&& host.authorization_manager.mode == AuthorizationMode::Enforcing
    &&& host.authorization_manager.invocations@ == Seq::<AuthorizedInvocation>::empty()
    &&& host.diagnostic_level == DiagnosticLevel::Off
    &&& host.base_prng is None
}

impl Default for Host {
    /// A host on an empty ledger, on which work is free.
    fn default() -> (host: Host)
        ensures
            is_fresh(host),
            host.storage@ == Map::<KeyModel, EntryModel>::empty(),
            host.budget.is_free(),
    {
        Host::with_storage_and_budget(Storage::new(), Budget::default())
    }
}

impl Host {
    /// A host on the given ledger entries, with nothing running, nothing
    /// recorded and no authorizations.
    pub fn with_storage_and_budget(storage: Storage, budget: Budget) -> (host: Host)
        requires
            storage.wf(),
        ensures
            is_fresh(host),
            host.storage == storage,
            host.budget == budget,
    {
        let host = Host {
            source_account: None,
            ledger: None,
            objects: Vec::new(),
            storage,
            context: Vec::new(),
            budget,
            events: Vec::new(),
            authorization_manager: AuthorizationManager::new_enforcing_without_authorizations(),
            diagnostic_level: DiagnosticLevel::Off,
            base_prng: None,
        };
        assert(host.objs() =~= Seq::<ObjModel>::empty());
        host
    }

    pub fn set_source_account(&mut self, source_account: AccountId) -> (res: Result<(), HostError>)
        requires
            old(self).wf(),
        ensures
            final(self).wf(),
            *final(self) == (Host { source_account: Some(source_account), ..*old(self) }),
            res is Ok,
    {
        self.source_account = Some(source_account);
        Ok(())
    }

    pub fn remove_source_account(&mut self) -> (res: Result<(), HostError>)
        requires
            old(self).wf(),
        ensures
            final(self).wf(),
            *final(self) == (Host { source_account: None, ..*old(self) }),
            res is Ok,
    {
        self.source_account = None;
        Ok(())
    }

    pub fn source_account_id(&self) -> (res: Result<Option<AccountId>, HostError>)
        ensures
            res == Ok::<Option<AccountId>, HostError>(self.source_account),
    {
        Ok(self.source_account)
    }

    /// Forgets all authorizations, and from now on records what is asked for.
    pub fn switch_to_recording_auth(&mut self, disable_non_root_auth: bool) -> (res: Result<(), HostError>)
        requires
            old(self).wf(),
        ensures
            final(self).wf(),
            *final(self) == (Host { authorization_manager: final(self).authorization_manager, ..*old(self) }),
            final(self).authorization_manager.mode == (AuthorizationMode::Recording { disable_non_root_auth }),
            final(self).authorization_manager.invocations@ == Seq::<AuthorizedInvocation>::empty(),
            res is Ok,
    {
        self.authorization_manager = AuthorizationManager::new_recording(disable_non_root_auth);
        Ok(())
    }

    pub fn set_base_prng_seed(&mut self, seed: Seed) -> (res: Result<(), HostError>)
        requires
            old(self).wf(),
        ensures
            final(self).wf(),
            *final(self) == (Host { base_prng: Some(Prng { seed, word_pos: 0 }), ..*old(self) }),
            res is Ok,
    {
        self.base_prng = Some(Prng::new_from_seed(seed));
        Ok(())
    }

    pub fn set_ledger_info(&mut self, info: LedgerInfo) -> (res: Result<(), HostError>)
        requires
            old(self).wf(),
        ensures
            final(self).wf(),
            sets_ledger_info(*old(self), *final(self), info, res),
    {
        self.ledger = Some(info);
        Ok(())
    }

    pub fn set_diagnostic_level(&mut self, level: DiagnosticLevel)
        requires
            old(self).wf(),
        ensures
            final(self).wf(),
            *final(self) == (Host { diagnostic_level: level, ..*old(self) }),
    {
        self.diagnostic_level = level;
    }

    /// Reads the ledger info.
    pub fn with_ledger_info<F, T>(&self, f: F) -> (res: Result<T, HostError>) where
        F: FnOnce(&LedgerInfo) -> Result<T, HostError>,

        requires
            self.ledger matches Some(li) ==> call_requires(f, (&li,)),
        ensures
            match self.ledger {
                None => res == Err::<T, HostError>(
                    self.spec_err((ScErrorType::Context, ScErrorCode::InternalError)),
                ),
                Some(li) => call_ensures(f, (&li,), res),
            },
    {
        match &self.ledger {
            None => Err(self.err(ScErrorType::Context, ScErrorCode::InternalError)),
            Some(li) => f(li),
        }
    }

    /// Replaces the ledger info by what a function makes of it.
    pub fn with_mut_ledger_info<F>(&mut self, f: F) -> (res: Result<(), HostError>) where
        F: FnOnce(LedgerInfo) -> LedgerInfo,

        requires
            old(self).wf(),
            old(self).ledger matches Some(li) ==> call_requires(f, (li,)),
        ensures
            final(self).wf(),
            match old(self).ledger {
                None => fails(*old(self), *final(self), res, (ScErrorType::Context, ScErrorCode::InternalError)),
                Some(li) => {
                    &&& res is Ok
                    &&& *final(self) == (Host { ledger: final(self).ledger, ..*old(self) })
                    &&& final(self).ledger matches Some(new) && call_ensures(f, (li,), new)
                },
            },
    {
        match self.ledger {
            None => Err(self.err(ScErrorType::Context, ScErrorCode::InternalError)),
            Some(li) => {
                self.ledger = Some(f(li));
                Ok(())
            },
        }
    }

    pub fn get_ledger_protocol_version(&self) -> (res: Result<u32, HostError>)
        ensures
            res == ledger_version(*self),
    {
        let read = |li: &LedgerInfo| -> (r: Result<u32, HostError>)
            ensures
                r is Ok && r->Ok_0 == li.protocol_version,
        { Ok(li.protocol_version) };
        self.with_ledger_info(read)
    }

    /// Hands the budget to a function, and keeps the budget that it hands back.
    pub fn with_budget<T, F>(&mut self, f: F) -> (res: Result<T, HostError>) where
        F: FnOnce(Budget) -> (Budget, Result<T, HostError>),

        requires
            old(self).wf(),
            call_requires(f, (old(self).budget,)),
        ensures
            final(self).wf(),
            *final(self) == (Host { budget: final(self).budget, ..*old(self) }),
            call_ensures(f, (old(self).budget,), (final(self).budget, res)),
    {
        let (budget, res) = f(self.budget);
        self.budget = budget;
        res
    }

    pub fn budget_ref(&self) -> (budget: &Budget)
        ensures
            *budget == self.budget,
    {
        &self.budget
    }

    /// The budget as it is now: what was charged so far, and no charge that comes
    /// later.
    pub fn budget_cloned(&self) -> (budget: Budget)
        ensures
            budget == self.budget,
    {
        self.budget
    }

    /// Charges for work.
    pub fn charge_budget(&mut self, ty: ContractCostType, input: Option<u64>) -> (res: Result<(), HostError>)
        requires
            old(self).wf(),
        ensures
            final(self).wf(),
            (*final(self), res) == charge(*old(self), ty, input),
    {
        self.budget.charge(ty, input)
    }

    /// Charges for making room for a number of items and copying them there.
    pub(crate) fn charge_bulk_init_cpy(&mut self, n_items: u64, item_size: u64) -> (res: Result<(), HostError>)
        requires
            old(self).wf(),
        ensures
            final(self).wf(),
            (*final(self), res) == charge_bulk(*old(self), n_items as int, item_size as int),
    {
        let input: Option<u64> = Some(saturating_mul(n_items, item_size));
        self.charge_budget(ContractCostType::HostMemAlloc, input)?;
        self.charge_budget(ContractCostType::HostMemCpy, input)
    }

    /// Charges for copying a number of items.
    pub(crate) fn charge_shallow_copy(&mut self, n_items: u64, item_size: u64) -> (res: Result<(), HostError>)
        requires
            old(self).wf(),
        ensures
            final(self).wf(),
            (*final(self), res) == charge_copy(*old(self), n_items as int, item_size as int),
    {
        self.charge_budget(ContractCostType::HostMemCpy, Some(saturating_mul(n_items, item_size)))
    }
}

/// Only what the host knows of the ledger has changed, to the given.
pub open spec fn sets_ledger_info(pre: Host, post: Host, info: LedgerInfo, res: Result<(), HostError>) -> bool {
    post == (Host { ledger: Some(info), ..pre }) && res == Ok::<(), HostError>(())
}

/// The protocol version that the host knows of the ledger.
pub open spec fn ledger_version(host: Host) -> Result<u32, HostError> {
    match host.ledger {
        None => Err(host.spec_err((ScErrorType::Context, ScErrorCode::InternalError))),
        Some(li) => Ok(li.protocol_version),
    }
}

/// The size of a value, of a pair of values and of a symbol, as it is charged
/// for.
pub const VAL_SIZE: u64 = 8;

pub const PAIR_SIZE: u64 = 16;

pub const SYMBOL_SIZE: u64 = 8;

/// The host after work has been charged for, and whether the budget allows the
/// work.
pub open spec fn charge(host: Host, ty: ContractCostType, input: Option<u64>) -> (Host, Result<(), HostError>) {
    (
        Host { budget: host.budget.charged(ty, input), ..host },
        if host.budget.allows(ty, input) {
            Ok(())
        } else {
            Err(budget_error())
        },
    )
}

/// Charging for making room for a number of items and then for copying them
/// there.
pub open spec fn charge_bulk(host: Host, n_items: int, item_size: int) -> (Host, Result<(), HostError>) {
    let input = Some(saturated(n_items * item_size) as u64);
    let room = charge(host, ContractCostType::HostMemAlloc, input);
    if room.1 is Err {
        room
    } else {
        charge(room.0, ContractCostType::HostMemCpy, input)
    }
}

/// Charging for copying a number of items.
pub open spec fn charge_copy(host: Host, n_items: int, item_size: int) -> (Host, Result<(), HostError>) {
    charge(host, ContractCostType::HostMemCpy, Some(saturated(n_items * item_size) as u64))
}

/// An exhausted budget: what was charged for stays charged for.
pub open spec fn runs_out<T>(
    charged: (Host, Result<(), HostError>),
    post: Host,
    res: Result<T, HostError>,
) -> bool {
    charged.1 is Err && post == charged.0 && res == Err::<T, HostError>(charged.1->Err_0)
}

} // verus!
