//! What a contract learns of its surroundings, and what it reports.

use crate::error::{Error, Fault, HostError, ScErrorCode, ScErrorType};
use crate::host::{
    fails, ledger_version, sets_ledger_info, Context, DiagnosticLevel, Event, Frame, Host, LedgerInfo,
};
use crate::host_convert::{adds, lemma_num_val, num_val};
use crate::host_frame::{current_contract, no_frame};
use crate::host_int::u64_result;
use crate::host_memory::{memory_vals, outside_memory, vm_fault};
use crate::host_object::{
    address_handle, bytes_handle, gives_up, law_stored_object_is_found, looks_at, stores, val_fault, visit,
};
use crate::memory::{mem_range, VmCaller};
use crate::model::{deep, BlobKind, Deep, Hash32, NumKind, ObjModel, ScAddress};
use crate::util::{copy_bytes, copy_vals};
use crate::val::{AddressObject, BytesObject, ObjectTag, U64Val, Val, VecObject, MAX_OBJECTS};
use vstd::prelude::*;
use vstd::utf8::{decode_utf8, valid_utf8};

verus! {

/// The fault of a host that knows no ledger.
pub open spec fn no_ledger() -> Fault {
    (ScErrorType::Context, ScErrorCode::InternalError)
}

/// The last ledger at which an entry that is made or bumped now may expire.
pub open spec fn last_expiration(li: LedgerInfo) -> u32 {
    saturated_sum(
        li.sequence_number as int,
        if li.max_entry_expiration > 0 {
            li.max_entry_expiration - 1
        } else {
            0
        },
    )
}

/// The number of the ledger that the host knows.
pub open spec fn ledger_sequence(host: Host) -> Result<u32, HostError> {
    match host.ledger {
        None => Err(host.spec_err(no_ledger())),
        Some(li) => Ok(li.sequence_number),
    }
}

/// The last ledger at which an entry may expire, by the ledger that the host
/// knows.
pub open spec fn max_expiration_ledger(host: Host) -> Result<u32, HostError> {
    match host.ledger {
        None => Err(host.spec_err(no_ledger())),
        Some(li) => Ok(last_expiration(li)),
    }
}

/// The time of the ledger is made into a value.
pub open spec fn tells_timestamp(pre: Host, post: Host, res: Result<U64Val, HostError>) -> bool {
    match pre.ledger {
        None => fails(pre, post, res, no_ledger()),
        Some(li) => adds(pre, post, u64_result(res), num_val(pre.objs(), NumKind::U64, li.timestamp as int)),
    }
}

/// The id of the network is made into a byte string.
pub open spec fn tells_network_id(pre: Host, post: Host, res: Result<BytesObject, HostError>) -> bool {
    match pre.ledger {
        None => fails(pre, post, res, no_ledger()),
        Some(li) => stores(pre, post, ObjModel::Blob(BlobKind::Bytes, li.network_id@), bytes_handle(res)),
    }
}

/// What was set as ledger info is what contracts learn of the ledger: its version,
/// its number, the last ledger at which entries may expire, its time and the id of
/// its network.
pub proof fn law_ledger_info_is_read_back(
    pre: Host,
    set: Host,
    info: LedgerInfo,
    told: (Host, Result<U64Val, HostError>),
    named: (Host, Result<BytesObject, HostError>),
)
    requires
        pre.wf(),
        sets_ledger_info(pre, set, info, Ok(())),
        set.objs().len() < MAX_OBJECTS,
        tells_timestamp(set, told.0, told.1),
        tells_network_id(set, named.0, named.1),
    ensures
        ledger_version(set) == Ok::<u32, HostError>(info.protocol_version),
        ledger_sequence(set) == Ok::<u32, HostError>(info.sequence_number),
        max_expiration_ledger(set) == Ok::<u32, HostError>(last_expiration(info)),
        told.1 is Ok,
        deep(told.0.objs(), told.1->Ok_0.to_val()) == Deep::Num(NumKind::U64, info.timestamp as int),
        named.1 is Ok,
        visit(named.0.objs(), named.1->Ok_0.handle, ObjectTag::BytesObject) == Ok::<ObjModel, Fault>(
            ObjModel::Blob(BlobKind::Bytes, info.network_id@),
        ),
{
    assert(set.wf());
    lemma_num_val(set.objs(), NumKind::U64, info.timestamp as int);
    law_stored_object_is_found(
        set,
        named.0,
        ObjModel::Blob(BlobKind::Bytes, info.network_id@),
        named.1->Ok_0.handle,
    );
}

/// A sum of ledger numbers, at most the largest that there is.
pub open spec fn saturated_sum(a: int, b: int) -> u32 {
    if a + b > u32::MAX {
        u32::MAX
    } else {
        (a + b) as u32
    }
}

/// The contract that reports an event, if a contract is running at all.
pub open spec fn emitter(host: Host) -> Result<Option<Hash32>, Fault> {
    if host.context@.len() == 0 {
        Err(no_frame())
    } else {
        match host.context@.last().frame.contract_call() {
            Some((id, _, _)) => Ok(Some(id)),
            None => Ok(None),
        }
    }
}

/// Only the log has changed: an event was added at its end.
pub open spec fn logs(pre: Host, post: Host) -> bool {
    &&& post.wf()
    &&& post == (Host { events: post.events, ..pre })
    &&& post.events@.len() == pre.events@.len() + 1
    &&& post.events@.drop_last() == pre.events@
}

/// The frame of a test contract, if one is running, has an error noted in it.
/// Nothing else has changed.
pub open spec fn marks_frame(pre: Host, post: Host, error: Error) -> bool {
    if pre.context@.len() > 0 && pre.context@.last().frame is TestContract {
        let (before, after) = (pre.context@.last(), post.context@.last());
        &&& post == (Host { context: post.context, ..pre })
        &&& post.context@.len() == pre.context@.len()
        &&& post.context@.drop_last() == pre.context@.drop_last()
        &&& after == (Context { frame: after.frame, ..before })
        &&& after.frame is TestContract
        &&& after.frame->panic == Some(error)
        &&& after.frame.contract_call() == before.frame.contract_call()
    } else {
        post == pre
    }
}

/// Where notes are kept, a note was added at the end of the log. Nothing else has
/// changed.
pub open spec fn notes(pre: Host, post: Host, error: Option<Error>, message: Seq<char>, args: Seq<Val>) -> bool {
    if pre.diagnostic_level == DiagnosticLevel::Debug {
        &&& pre.wf() ==> post.wf()
        &&& post == (Host { events: post.events, ..pre })
        &&& post.events@.len() == pre.events@.len() + 1
        &&& post.events@.drop_last() == pre.events@
        &&& post.events@.last() is Diagnostic
        &&& post.events@.last()->error == error
        &&& post.events@.last()->message@ == message
        &&& post.events@.last()->args@ == args
    } else {
        post == pre
    }
}

/// The text that stands for bytes that may not be text.
pub uninterp spec fn lossy_text(bytes: Seq<u8>) -> Seq<char>;

/// Calls `String::from_utf8_lossy`: the text of the bytes where they are UTF-8;
/// where they are not, what stands for them depends on the bytes alone.
#[verifier::external_body]
fn text_from_utf8_lossy(bytes: &[u8]) -> (text: String)
    ensures
        text@ == lossy_text(bytes@),
        valid_utf8(bytes@) ==> text@ == decode_utf8(bytes@),
{
    String::from_utf8_lossy(bytes).into_owned()
}

impl Host {
    /// An error value, raised as an error.
    pub fn error_from_error_val(&self, e: Error) -> (r: HostError)
        ensures
            r == self.spec_error(e),
    {
        self.error(e)
    }

    /// Notes in the frame of a test contract, if one is running, the error that
    /// the contract would not handle, notes it in the log where notes are kept, and
    /// returns the error to give up with.
    pub fn note_escalation(&mut self, e: HostError) -> (escalation: HostError)
        requires
            old(self).wf(),
        ensures
            final(self).wf(),
            escalation == final(self).spec_error(e.error),
            exists|mid: Host| #[trigger]
                marks_frame(*old(self), mid, e.error) && notes(
                    mid,
                    *final(self),
                    Some(e.error),
                    "escalating error to panic"@,
                    Seq::empty(),
                ),
    {
        let n: usize = self.context.len();
        let ghost pre = *self;
        if n > 0 && matches!(self.context[n - 1].frame, Frame::TestContract { .. }) {
            if let Frame::TestContract { panic, .. } = &mut self.context[n - 1].frame {
                *panic = Some(e.error);
            }
            proof {
                assert(self.context@.drop_last() =~= pre.context@.drop_last());
                assert forall|i: int| 0 <= i < n implies (#[trigger] self.context@[i]).ok(self.objs()) by {
                    assert(pre.context@[i].ok(pre.objs()));
                }
            }
        }
        let ghost mid = *self;
        assert(marks_frame(pre, mid, e.error));
        let none: Vec<Val> = Vec::new();
        assert(none@ =~= Seq::<Val>::empty());
        self.log_diagnostics(Some(e.error), "escalating error to panic".to_owned(), none);
        self.error(e.error)
    }

    /// Adds to an error what goes with errors of this host, unless it has that
    /// already.
    pub fn augment_err_result<T>(&self, x: Result<T, HostError>) -> (res: Result<T, HostError>)
        ensures
            res == match x {
                Ok(v) => Ok::<T, HostError>(v),
                Err(e) => Err(
                    HostError {
                        error: e.error,
                        info: if e.info is None {
                            self.spec_debug_info()
                        } else {
                            e.info
                        },
                    },
                ),
            },
    {
        match x {
            Ok(v) => Ok(v),
            Err(e) => {
                if e.info.is_none() {
                    Err(HostError { error: e.error, info: self.maybe_get_debug_info() })
                } else {
                    Err(e)
                }
            },
        }
    }

    /// Fails unless the other host is this one.
    pub fn check_same_env(&self, is_same: bool) -> (res: Result<(), HostError>)
        ensures
            res == if is_same {
                Ok::<(), HostError>(())
            } else {
                Err(self.spec_err((ScErrorType::Context, ScErrorCode::InternalError)))
            },
    {
        if is_same {
            Ok(())
        } else {
            Err(self.err(ScErrorType::Context, ScErrorCode::InternalError))
        }
    }

    /// Adds a note to the log, where notes are kept.
    pub(crate) fn log_diagnostics(&mut self, error: Option<Error>, message: String, args: Vec<Val>)
        ensures
            notes(*old(self), *final(self), error, message@, args@),
    {
        if self.is_debug() {
            let ghost pre = *self;
            self.events.push(Event::Diagnostic { error, message, args });
            proof {
                assert(self.events@.drop_last() =~= pre.events@);
                if pre.wf() {
                    assert forall|i: int| 0 <= i < self.events@.len() implies (#[trigger] self.events@[i]).ok(
                        self.objs(),
                    ) by {
                        if i < pre.events@.len() {
                            assert(pre.events@[i].ok(pre.objs()));
                        }
                    }
                }
            }
        }
    }

    /// Notes a message with some values, where notes are kept.
    pub fn log_from_slice(&mut self, msg: &str, vals: &[Val]) -> (res: Result<(), HostError>)
        requires
            old(self).wf(),
        ensures
            final(self).wf(),
            res is Ok,
            notes(*old(self), *final(self), None, msg@, vals@),
    {
        self.log_diagnostics(None, msg.to_owned(), copy_vals(vals));
        Ok(())
    }

    /// Notes a message and some values of guest memory, where notes are kept;
    /// where they are not, guest memory is not even looked at.
    pub fn log_from_linear_memory(
        &mut self,
        vmcaller: &VmCaller,
        msg_pos: u32,
        msg_len: u32,
        vals_pos: u32,
        vals_len: u32,
    ) -> (res: Result<(), HostError>)
        requires
            old(self).wf(),
        ensures
            final(self).wf(),
            does_log_from_linear_memory(
                *old(self),
                *final(self),
                vmcaller.memory@,
                msg_pos,
                msg_len,
                vals_pos,
                vals_len,
                res,
            ),
    {
        if self.is_debug() {
            let msg = self.read_from_memory(vmcaller, msg_pos, msg_len)?;
            let vals = self.read_guest_vals(vmcaller, vals_pos, vals_len as usize)?;
            self.log_diagnostics(None, text_from_utf8_lossy(msg.as_slice()), vals);
        }
        Ok(())
    }

    /// Reports an event of the running contract.
    pub fn contract_event(&mut self, topics: VecObject, data: Val) -> (res: Result<(), HostError>)
        requires
            old(self).wf(),
        ensures
            final(self).wf(),
            does_contract_event(*old(self), *final(self), topics, data, res),
    {
        self.check_val_integrity(data)?;
        self.charge_visit()?;
        let _ = self.visit_vec(topics)?;
        let emitter = self.current_contract_id_opt()?;
        let ghost pre = *self;
        self.events.push(Event::Contract { emitter, topics, data });
        proof {
            assert(self.events@.drop_last() =~= pre.events@);
            assert forall|i: int| 0 <= i < self.events@.len() implies (#[trigger] self.events@[i]).ok(
                self.objs(),
            ) by {
                if i < pre.events@.len() {
                    assert(pre.events@[i].ok(pre.objs()));
                }
            }
        }
        Ok(())
    }

    pub(crate) fn current_contract_id_opt(&self) -> (res: Result<Option<Hash32>, HostError>)
        ensures
            res == match emitter(*self) {
                Ok(id) => Ok::<Option<Hash32>, HostError>(id),
                Err(f) => Err(self.spec_err(f)),
            },
    {
        match self.current_frame()? {
            Frame::ContractVM { contract_id, .. } => Ok(Some(*contract_id)),
            Frame::Token { contract_id, .. } => Ok(Some(*contract_id)),
            Frame::TestContract { contract_id, .. } => Ok(Some(*contract_id)),
            Frame::HostFunction => Ok(None),
        }
    }

    /// The version of the protocol that the ledger runs.
    pub fn get_ledger_version(&self) -> (res: Result<u32, HostError>)
        ensures
            res == ledger_version(*self),
    {
        self.get_ledger_protocol_version()
    }

    /// The number of the ledger.
    pub fn get_ledger_sequence(&self) -> (res: Result<u32, HostError>)
        ensures
            res == ledger_sequence(*self),
    {
        let read = |li: &LedgerInfo| -> (r: Result<u32, HostError>)
            ensures
                r is Ok && r->Ok_0 == li.sequence_number,
        { Ok(li.sequence_number) };
        self.with_ledger_info(read)
    }

    fn ledger_copy(&self) -> (res: Result<LedgerInfo, HostError>)
        ensures
            res == match self.ledger {
                None => Err::<LedgerInfo, HostError>(self.spec_err(no_ledger())),
                Some(li) => Ok(li),
            },
    {
        match self.ledger {
            None => Err(self.err(ScErrorType::Context, ScErrorCode::InternalError)),
            Some(li) => Ok(li),
        }
    }

    /// The time at which the ledger closes.
    pub fn get_ledger_timestamp(&mut self) -> (res: Result<U64Val, HostError>)
        requires
            old(self).wf(),
        ensures
            final(self).wf(),
            tells_timestamp(*old(self), *final(self), res),
    {
        let li = self.ledger_copy()?;
        self.u64_val(li.timestamp)
    }

    /// Fails as a contract asks to: with its error, if that is a contract's
    /// error.
    pub fn fail_with_error(&self, error: Error) -> (res: Result<(), HostError>)
        ensures
            does_fail_with_error(*self, error, res),
    {
        if error.is_type(ScErrorType::Contract) {
            Err(self.error(error))
        } else {
            Err(self.err(ScErrorType::Context, ScErrorCode::UnexpectedType))
        }
    }

    /// The network that the ledger belongs to.
    pub fn get_ledger_network_id(&mut self) -> (res: Result<BytesObject, HostError>)
        requires
            old(self).wf(),
        ensures
            final(self).wf(),
            tells_network_id(*old(self), *final(self), res),
    {
        let li = self.ledger_copy()?;
        self.add_bytes(copy_bytes(li.network_id.as_slice()))
    }

    /// The address of the contract that is running.
    pub fn get_current_contract_address(&mut self) -> (res: Result<AddressObject, HostError>)
        requires
            old(self).wf(),
        ensures
            final(self).wf(),
            does_get_current_contract_address(*old(self), *final(self), res),
    {
        let id = self.get_current_contract_id_internal()?;
        self.add_address(ScAddress::Contract(id))
    }

    /// The last ledger at which an entry that is made or bumped now may expire.
    pub fn get_max_expiration_ledger(&self) -> (res: Result<u32, HostError>)
        ensures
            res == max_expiration_ledger(*self),
    {
        let li = self.ledger_copy()?;
        Ok(li.sequence_number.saturating_add(li.max_entry_expiration.saturating_sub(1)))
    }

    /// Nothing, for tests of the way from a guest to the host.
    pub fn dummy0(&self) -> (res: Result<Val, HostError>)
        ensures
            res == Ok::<Val, HostError>(Val::Void),
    {
        Ok(Val::Void)
    }
}

/// What `contract_event` does.
pub open spec fn does_contract_event(
    pre: Host,
    post: Host,
    topics: VecObject,
    data: Val,
    res: Result<(), HostError>,
) -> bool {
    match val_fault(pre.objs(), data) {
        Some(f) => fails(pre, post, res, f),
        None => match looks_at(pre, topics.handle, ObjectTag::VecObject) {
            (h, Err(e)) => gives_up(h, post, res, e),
            (h, Ok(_)) => match emitter(h) {
                Err(f) => fails(h, post, res, f),
                Ok(emitter) => {
                    &&& res == Ok::<(), HostError>(())
                    &&& logs(h, post)
                    &&& post.events@.last() == (Event::Contract { emitter, topics, data })
                },
            },
        },
    }
}

/// What `log_from_linear_memory` does.
pub open spec fn does_log_from_linear_memory(
    pre: Host,
    post: Host,
    memory: Seq<u8>,
    msg_pos: u32,
    msg_len: u32,
    vals_pos: u32,
    vals_len: u32,
    res: Result<(), HostError>,
) -> bool {
    if pre.diagnostic_level == DiagnosticLevel::Off {
        post == pre && res == Ok::<(), HostError>(())
    } else {
        match vm_fault(pre) {
            Some(f) => fails(pre, post, res, f),
            None => match mem_range(memory, msg_pos as int, msg_len as int) {
                None => fails(pre, post, res, outside_memory()),
                Some(msg) => match memory_vals(
                    pre,
                    memory,
                    vals_pos as int,
                    vals_len as nat,
                ) {
                    Err(f) => fails(pre, post, res, f),
                    Ok(vals) => {
                        &&& res == Ok::<(), HostError>(())
                        &&& notes(pre, post, None, lossy_text(msg), vals)
                    },
                },
            },
        }
    }
}

/// What `get_current_contract_address` does.
pub open spec fn does_get_current_contract_address(
    pre: Host,
    post: Host,
    res: Result<AddressObject, HostError>,
) -> bool {
    match current_contract(pre) {
        Err(f) => fails(pre, post, res, f),
        Ok(id) => stores(
            pre,
            post,
            ObjModel::Address(ScAddress::Contract(id)),
            address_handle(res),
        ),
    }
}

/// What `fail_with_error` does.
pub open spec fn does_fail_with_error(
    pre: Host,
    error: Error,
    res: Result<(), HostError>,
) -> bool {
    res == Err::<(), HostError>(
        if error.type_ == ScErrorType::Contract {
            pre.spec_error(error)
        } else {
            pre.spec_err((ScErrorType::Context, ScErrorCode::UnexpectedType))
        },
    )
}

} // verus!
