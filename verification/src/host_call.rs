//! Calls of other contracts, and the end of a host.

use crate::error::{Error, Fault, HostError, ScErrorCode, ScErrorType};
use crate::host::{
    charge_bulk, Context, DiagnosticLevel, Event, Frame, Host, TokenEvent, DEFAULT_HOST_DEPTH_LIMIT, VAL_SIZE,
};
use crate::host_context::notes;
use crate::host_contract::contract_of_address;
use crate::host_map::depth_fault;
use crate::host_object::{after_visit, law_vals_fault, looks_at, vals_fault, visit};
use crate::model::{deep, deep_seq, nesting, nesting_seq, vals_ok, Hash32, ObjModel};
use crate::scval::{sc_deep, sc_deep_seq, ScVal};
use crate::storage::{ContractExecutable, Storage};
use crate::val::{AddressObject, ObjectTag, Symbol, Val, VecObject};
use vstd::prelude::*;

verus! {

/// The arguments and the contract of a call are read, or what is wrong with them.
/// Looking them up, and copying the arguments, is charged for.
pub open spec fn reads_callee(host: Host, contract_address: AddressObject, args: VecObject) -> (
    Host,
    Result<(Hash32, Seq<Val>), HostError>,
) {
    match looks_at(host, args.handle, ObjectTag::VecObject) {
        (h, Err(e)) => (h, Err(e)),
        (h, Ok(obj)) => match charge_bulk(h, obj->Vector_0.len() as int, VAL_SIZE as int) {
            (h, Err(e)) => (h, Err(e)),
            (h, Ok(_)) => match after_visit(h, contract_of_address(h.objs(), contract_address)) {
                (h, Err(e)) => (h, Err(e)),
                (h, Ok(id)) => (h, Ok((id, obj->Vector_0))),
            },
        },
    }
}

/// Whether a function that runs contracts may give this outcome of a call.
pub open spec fn ran<F: FnOnce(Host, Hash32, Symbol, Vec<Val>) -> (Host, Result<Val, HostError>)>(
    run: F,
    host: Host,
    id: Hash32,
    func: Symbol,
    args: Seq<Val>,
    out: (Host, Result<Val, HostError>),
) -> bool {
    exists|v: Vec<Val>| #[trigger] run.ensures((host, id, func, v), out) && v@ == args
}

/// What the caller is told of a call that it was ready to see fail: the errors
/// of contracts as they are, other errors that it may carry on after as one and
/// the same, and no more than that.
pub open spec fn tried(outcome: Result<Val, HostError>) -> Result<Val, HostError> {
    match outcome {
        Ok(v) => Ok(v),
        Err(e) => if !e.is_recoverable() {
            Err(e)
        } else if e.error.type_ == ScErrorType::Contract {
            Ok(Val::Error(e.error))
        } else {
            Ok(Val::Error(Error { type_: ScErrorType::Context, code: ScErrorCode::InvalidAction.spec_number() }))
        },
    }
}

/// Whether a contract is running, at whatever depth of calls.
pub open spec fn is_running(context: Seq<Context>, id: Hash32) -> bool {
    exists|i: int| 0 <= i < context.len() && runs_contract((#[trigger] context[i]).frame, id)
}

pub open spec fn runs_contract(frame: Frame, id: Hash32) -> bool {
    frame.contract_call() matches Some((running, _, _)) && running == id
}

/// The fault of a call of a contract that is running already.
pub open spec fn reentry_fault() -> Fault {
    (ScErrorType::Context, ScErrorCode::InvalidAction)
}

/// Whether a call may have this outcome: a contract that is running already is
/// not run again, and any other is run.
pub open spec fn invokes<F: FnOnce(Host, Hash32, Symbol, Vec<Val>) -> (Host, Result<Val, HostError>)>(
    run: F,
    host: Host,
    id: Hash32,
    func: Symbol,
    args: Seq<Val>,
    out: (Host, Result<Val, HostError>),
) -> bool {
    if is_running(host.context@, id) {
        out == (host, Err::<Val, HostError>(host.spec_err(reentry_fault())))
    } else {
        ran(run, host, id, func, args, out)
    }
}

/// A call that failed is noted, where notes are kept: with its error, which the
/// caller may not get to see, the function and the arguments.
pub open spec fn notes_failure(
    pre: Host,
    post: Host,
    outcome: Result<Val, HostError>,
    message: Seq<char>,
    func: Symbol,
    args: VecObject,
) -> bool {
    match outcome {
        Ok(_) => post == pre,
        Err(e) => notes(pre, post, Some(e.error), message, seq![func.to_val(), args.to_val()]),
    }
}

/// Whether a call may end like this: with the outcome that it had.
pub open spec fn calls<F: FnOnce(Host, Hash32, Symbol, Vec<Val>) -> (Host, Result<Val, HostError>)>(
    run: F,
    host: Host,
    id: Hash32,
    func: Symbol,
    args: VecObject,
    argvec: Seq<Val>,
    out: (Host, Result<Val, HostError>),
) -> bool {
    exists|mid: Host, outcome: Result<Val, HostError>| #[trigger]
        invokes(run, host, id, func, argvec, (mid, outcome)) && out.1 == outcome && notes_failure(
            mid,
            out.0,
            outcome,
            "contract call failed"@,
            func,
            args,
        )
}

/// Whether a call may end like this: with what the caller is told of the outcome
/// that it had.
pub open spec fn tries<F: FnOnce(Host, Hash32, Symbol, Vec<Val>) -> (Host, Result<Val, HostError>)>(
    run: F,
    host: Host,
    id: Hash32,
    func: Symbol,
    args: VecObject,
    argvec: Seq<Val>,
    out: (Host, Result<Val, HostError>),
) -> bool {
    exists|mid: Host, outcome: Result<Val, HostError>| #[trigger]
        invokes(run, host, id, func, argvec, (mid, outcome)) && out.1 == tried(outcome) && notes_failure(
            mid,
            out.0,
            outcome,
            "contract try_call failed"@,
            func,
            args,
        )
}

/// A contract that is running is not called again, whatever runs contracts: the
/// call fails, a caller that was ready for that is told so, and nothing has changed
/// but that the failure may be noted.
pub proof fn law_no_reentry<F: FnOnce(Host, Hash32, Symbol, Vec<Val>) -> (Host, Result<Val, HostError>)>(
    run: F,
    host: Host,
    id: Hash32,
    func: Symbol,
    args: VecObject,
    argvec: Seq<Val>,
    called: (Host, Result<Val, HostError>),
    told: (Host, Result<Val, HostError>),
)
    requires
        is_running(host.context@, id),
        calls(run, host, id, func, args, argvec, called),
        tries(run, host, id, func, args, argvec, told),
    ensures
        called.1 == Err::<Val, HostError>(host.spec_err(reentry_fault())),
        told.1 == Ok::<Val, HostError>(
            Val::Error(Error { type_: ScErrorType::Context, code: ScErrorCode::InvalidAction.spec_number() }),
        ),
        called.0 == (Host { events: called.0.events, ..host }),
        told.0 == (Host { events: told.0.events, ..host }),
{
}

/// In debug mode the error of a failed call can be read from the log, also where
/// the caller is told of another.
pub proof fn law_failures_are_observable<F: FnOnce(Host, Hash32, Symbol, Vec<Val>) -> (Host, Result<Val, HostError>)>(
    run: F,
    host: Host,
    id: Hash32,
    func: Symbol,
    args: VecObject,
    argvec: Seq<Val>,
    told: (Host, Result<Val, HostError>),
)
    requires
        tries(run, host, id, func, args, argvec, told),
        told.0.diagnostic_level == DiagnosticLevel::Debug,
    ensures
        exists|mid: Host, outcome: Result<Val, HostError>| #[trigger]
            invokes(run, host, id, func, argvec, (mid, outcome)) && told.1 == tried(outcome) && (outcome matches Err(
                e,
            ) ==> told.0.events@.last() is Diagnostic && told.0.events@.last()->error == Some(e.error)),
{
}

/// What a caller learns of a failed call that it may carry on after is an error
/// value, and it learns of the kind of a host error no more than that it was one:
/// all of them look the same.
pub proof fn law_host_errors_are_not_exposed(e: HostError, f: HostError)
    requires
        e.is_recoverable(),
        f.is_recoverable(),
        e.error.type_ != ScErrorType::Contract,
        f.error.type_ != ScErrorType::Contract,
    ensures
        tried(Err(e)) is Ok,
        tried(Err(e)) == tried(Err(f)),
{
}

/// The error of a contract reaches a caller that was ready for it unchanged.
pub proof fn law_contract_errors_pass_through(e: HostError)
    requires
        e.error.type_ == ScErrorType::Contract,
    ensures
        tried(Err(e)) == Ok::<Val, HostError>(Val::Error(e.error)),
{
}

/// What the caller is told of a call that it was ready to see fail.
pub fn outcome_of_try_call(outcome: Result<Val, HostError>) -> (res: Result<Val, HostError>)
    ensures
        res == tried(outcome),
{
    match outcome {
        Ok(v) => Ok(v),
        Err(e) => {
            if e.is_recoverable() {
                if e.error.is_type(ScErrorType::Contract) {
                    Ok(Val::Error(e.error))
                } else {
                    Ok(Val::Error(Error::from_type_and_code(ScErrorType::Context, ScErrorCode::InvalidAction)))
                }
            } else {
                Err(e)
            }
        },
    }
}

/// An event of the log, with values made into trees.
pub enum HostEvent {
    Contract { emitter: Option<Hash32>, topics: Vec<ScVal>, data: ScVal },
    ExecutableUpdate { contract_id: Hash32, old_executable: ContractExecutable, new_executable: ContractExecutable },
    Diagnostic { error: Option<Error>, message: String, args: Vec<ScVal> },
    Token { contract_id: Hash32, event: TokenEvent },
}

/// The log, for use without the host.
pub struct Events(pub Vec<HostEvent>);

/// What goes wrong when an event is made into trees, if anything does.
pub open spec fn event_fault(objs: Seq<ObjModel>, e: Event) -> Option<Fault> {
    match e {
        Event::Contract { topics, data, .. } => {
            let list = visit(objs, topics.handle, ObjectTag::VecObject)->Ok_0->Vector_0;
            if nesting_seq(deep_seq(objs, list), 0) > DEFAULT_HOST_DEPTH_LIMIT || nesting(deep(objs, data))
                > DEFAULT_HOST_DEPTH_LIMIT {
                Some(depth_fault())
            } else {
                None
            }
        },
        Event::Diagnostic { args, .. } => match vals_fault(objs, args@) {
            Some(f) => Some(f),
            None => if nesting_seq(deep_seq(objs, args@), 0) > DEFAULT_HOST_DEPTH_LIMIT {
                Some(depth_fault())
            } else {
                None
            },
        },
        _ => None,
    }
}

/// The first fault among the first `n` events.
pub open spec fn events_fault(objs: Seq<ObjModel>, s: Seq<Event>, n: nat) -> Option<Fault>
    decreases n,
{
    if n == 0 {
        None
    } else {
        match events_fault(objs, s, (n - 1) as nat) {
            Some(f) => Some(f),
            None => event_fault(objs, s[n - 1]),
        }
    }
}

/// Whether an event with trees says what an event with values says.
pub open spec fn same_event(objs: Seq<ObjModel>, e: Event, x: HostEvent) -> bool {
    match (e, x) {
        (
            Event::Contract { emitter: e1, topics: t1, data: d1 },
            HostEvent::Contract { emitter: e2, topics: t2, data: d2 },
        ) => {
            &&& e1 == e2
            &&& sc_deep_seq(t2@) == deep_seq(
                objs,
                visit(objs, t1.handle, ObjectTag::VecObject)->Ok_0->Vector_0,
            )
            &&& sc_deep(d2) == deep(objs, d1)
        },
        (
            Event::ExecutableUpdate { contract_id: c1, old_executable: o1, new_executable: n1 },
            HostEvent::ExecutableUpdate { contract_id: c2, old_executable: o2, new_executable: n2 },
        ) => c1 == c2 && o1 == o2 && n1 == n2,
        (
            Event::Diagnostic { error: e1, message: m1, args: a1 },
            HostEvent::Diagnostic { error: e2, message: m2, args: a2 },
        ) => {
            &&& e1 == e2
            &&& m1@ == m2@
            &&& sc_deep_seq(a2@) == deep_seq(objs, a1@)
        },
        (Event::Token { contract_id: c1, event: t1 }, HostEvent::Token { contract_id: c2, event: t2 }) => c1 == c2
            && t1 == t2,
        _ => false,
    }
}

proof fn lemma_events_fault_in_front(objs: Seq<ObjModel>, s: Seq<Event>, n: nat, end: nat)
    requires
        n <= end,
        events_fault(objs, s, n) is Some,
    ensures
        events_fault(objs, s, end) == events_fault(objs, s, n),
    decreases end,
{
    if n < end {
        lemma_events_fault_in_front(objs, s, n, (end - 1) as nat);
    }
}

impl Host {
    /// The contract and the arguments of a call.
    pub fn callee_and_args(&mut self, contract_address: AddressObject, args: VecObject) -> (res: Result<
        (Hash32, Vec<Val>),
        HostError,
    >)
        requires
            old(self).wf(),
        ensures
            final(self).wf(),
            *final(self) == reads_callee(*old(self), contract_address, args).0,
            match res {
                Ok((id, argvec)) => {
                    &&& reads_callee(*old(self), contract_address, args).1 == Ok::<(Hash32, Seq<Val>), HostError>(
                        (id, argvec@),
                    )
                    &&& vals_ok(old(self).objs(), argvec@)
                },
                Err(e) => reads_callee(*old(self), contract_address, args).1 == Err::<(Hash32, Seq<Val>), HostError>(e),
            },
    {
        self.charge_visit()?;
        let argvec = self.call_args_from_obj(args)?;
        self.charge_bulk_init_cpy(argvec.len() as u64, VAL_SIZE)?;
        self.charge_visit()?;
        let id = self.contract_id_from_address(contract_address)?;
        Ok((id, argvec))
    }

    fn is_running(&self, id: Hash32) -> (r: bool)
        ensures
            r == is_running(self.context@, id),
    {
        let mut i: usize = 0;
        while i < self.context.len()
            invariant
                i <= self.context@.len(),
                forall|j: int| 0 <= j < i ==> !runs_contract((#[trigger] self.context@[j]).frame, id),
            decreases self.context@.len() - i,
        {
            let running = match &self.context[i].frame {
                Frame::ContractVM { contract_id, .. } => Some(*contract_id),
                Frame::Token { contract_id, .. } => Some(*contract_id),
                Frame::TestContract { contract_id, .. } => Some(*contract_id),
                Frame::HostFunction => None,
            };
            if let Some(running) = running {
                if running == id {
                    assert(runs_contract(self.context@[i as int].frame, id));
                    return true;
                }
            }
            i += 1;
        }
        false
    }

    /// Runs a contract, unless it is running already.
    fn invoke<F: FnOnce(Host, Hash32, Symbol, Vec<Val>) -> (Host, Result<Val, HostError>)>(
        self,
        id: Hash32,
        func: Symbol,
        args: Vec<Val>,
        run: F,
    ) -> (out: (Host, Result<Val, HostError>))
        requires
            run.requires((self, id, func, args)),
        ensures
            invokes(run, self, id, func, args@, out),
    {
        if self.is_running(id) {
            let e = self.err(ScErrorType::Context, ScErrorCode::InvalidAction);
            (self, Err(e))
        } else {
            let out = run(self, id, func, args);
            assert(ran(run, self, id, func, args@, out));
            out
        }
    }

    /// Notes that a call failed, if it did.
    fn note_failure(&mut self, outcome: Result<Val, HostError>, message: &str, func: Symbol, args: VecObject)
        ensures
            notes_failure(*old(self), *final(self), outcome, message@, func, args),
    {
        if let Err(e) = outcome {
            let mut vals: Vec<Val> = Vec::new();
            vals.push(func.to_val());
            vals.push(args.to_val());
            assert(vals@ =~= seq![func.to_val(), args.to_val()]);
            self.log_diagnostics(Some(e.error), message.to_owned(), vals);
        }
    }

    /// Calls a function of a contract. What runs the contract is given: it takes
    /// the host, the contract, the function and the arguments, and gives the host
    /// back with the outcome. A contract that is running is not called again. In
    /// debug mode a failure is noted.
    pub fn call<F: FnOnce(Host, Hash32, Symbol, Vec<Val>) -> (Host, Result<Val, HostError>)>(
        self,
        contract_address: AddressObject,
        func: Symbol,
        args: VecObject,
        run: F,
    ) -> (out: (Host, Result<Val, HostError>))
        requires
            self.wf(),
            forall|host: Host, id: Hash32, argvec: Vec<Val>|
                host == (Host { budget: host.budget, ..self }) && vals_ok(host.objs(), argvec@)
                    ==> #[trigger] run.requires((host, id, func, argvec)),
        ensures
            match reads_callee(self, contract_address, args) {
                (h, Err(e)) => out == (h, Err::<Val, HostError>(e)),
                (h, Ok((id, argvec))) => calls(run, h, id, func, args, argvec, out),
            },
    {
        let mut called = self;
        match called.callee_and_args(contract_address, args) {
            Err(e) => (called, Err(e)),
            Ok((id, argvec)) => {
                let (mut host, outcome) = called.invoke(id, func, argvec, run);
                assert(invokes(run, called, id, func, argvec@, (host, outcome)));
                let ghost mid = host;
                host.note_failure(outcome, "contract call failed", func, args);
                assert(notes_failure(mid, host, outcome, "contract call failed"@, func, args));
                assert(calls(run, called, id, func, args, argvec@, (host, outcome)));
                (host, outcome)
            },
        }
    }

    /// Calls a function of a contract, ready to see the call fail. A contract that
    /// is running is not called again. In debug mode a failure is noted with its own
    /// error, whatever the caller is told.
    pub fn try_call<F: FnOnce(Host, Hash32, Symbol, Vec<Val>) -> (Host, Result<Val, HostError>)>(
        self,
        contract_address: AddressObject,
        func: Symbol,
        args: VecObject,
        run: F,
    ) -> (out: (Host, Result<Val, HostError>))
        requires
            self.wf(),
            forall|host: Host, id: Hash32, argvec: Vec<Val>|
                host == (Host { budget: host.budget, ..self }) && vals_ok(host.objs(), argvec@)
                    ==> #[trigger] run.requires((host, id, func, argvec)),
        ensures
            match reads_callee(self, contract_address, args) {
                (h, Err(e)) => out == (h, Err::<Val, HostError>(e)),
                (h, Ok((id, argvec))) => tries(run, h, id, func, args, argvec, out),
            },
    {
        let mut called = self;
        match called.callee_and_args(contract_address, args) {
            Err(e) => (called, Err(e)),
            Ok((id, argvec)) => {
                let (mut host, outcome) = called.invoke(id, func, argvec, run);
                assert(invokes(run, called, id, func, argvec@, (host, outcome)));
                let ghost mid = host;
                host.note_failure(outcome, "contract try_call failed", func, args);
                assert(notes_failure(mid, host, outcome, "contract try_call failed"@, func, args));
                let res = outcome_of_try_call(outcome);
                assert(tries(run, called, id, func, args, argvec@, (host, res)));
                (host, res)
            },
        }
    }

    fn externalize_event(&self, e: &Event) -> (res: Result<HostEvent, HostError>)
        requires
            self.wf(),
            e.ok(self.objs()),
        ensures
            match res {
                Ok(x) => event_fault(self.objs(), *e) is None && same_event(self.objs(), *e, x),
                Err(err) => event_fault(self.objs(), *e) matches Some(f) && err == self.spec_err(f),
            },
    {
        match e {
            Event::Contract { emitter, topics, data } => {
                let list = self.visit_vec(*topics)?;
                let topics = self.vals_to_list(list.as_slice(), DEFAULT_HOST_DEPTH_LIMIT)?;
                let data = self.from_host_val(*data)?;
                Ok(HostEvent::Contract { emitter: *emitter, topics, data })
            },
            Event::ExecutableUpdate { contract_id, old_executable, new_executable } => Ok(
                HostEvent::ExecutableUpdate {
                    contract_id: *contract_id,
                    old_executable: *old_executable,
                    new_executable: *new_executable,
                },
            ),
            Event::Diagnostic { error, message, args } => {
                proof {
                    law_vals_fault(self.objs(), args@);
                }
                self.check_vals_integrity(args.as_slice())?;
                let args = self.vals_to_list(args.as_slice(), DEFAULT_HOST_DEPTH_LIMIT)?;
                Ok(HostEvent::Diagnostic { error: *error, message: message.clone(), args })
            },
            Event::Token { contract_id, event } => Ok(HostEvent::Token { contract_id: *contract_id, event: *event }),
        }
    }

    /// Ends the host: what is left of it are the ledger entries and the log.
    pub fn try_finish(self) -> (res: Result<(Storage, Events), HostError>)
        requires
            self.wf(),
        ensures
            match res {
                Ok((storage, events)) => {
                    &&& events_fault(self.objs(), self.events@, self.events@.len()) is None
                    &&& storage == self.storage
                    &&& events.0@.len() == self.events@.len()
                    &&& forall|i: int|
                        0 <= i < self.events@.len() ==> same_event(
                            self.objs(),
                            #[trigger] self.events@[i],
                            events.0@[i],
                        )
                },
                Err(e) => events_fault(self.objs(), self.events@, self.events@.len()) matches Some(f) && e
                    == self.spec_err(f),
            },
    {
        let events = self.externalize_events()?;
        Ok((self.storage, events))
    }

    /// The log, for use without the host.
    pub fn externalize_events(&self) -> (res: Result<Events, HostError>)
        requires
            self.wf(),
        ensures
            match res {
                Ok(events) => {
                    &&& events_fault(self.objs(), self.events@, self.events@.len()) is None
                    &&& events.0@.len() == self.events@.len()
                    &&& forall|i: int|
                        0 <= i < self.events@.len() ==> same_event(
                            self.objs(),
                            #[trigger] self.events@[i],
                            events.0@[i],
                        )
                },
                Err(e) => events_fault(self.objs(), self.events@, self.events@.len()) matches Some(f) && e
                    == self.spec_err(f),
            },
    {
        let mut list: Vec<HostEvent> = Vec::new();
        let mut i: usize = 0;
        while i < self.events.len()
            invariant
                self.wf(),
                i <= self.events@.len(),
                list@.len() == i,
                events_fault(self.objs(), self.events@, i as nat) is None,
                forall|j: int|
                    0 <= j < i ==> same_event(self.objs(), #[trigger] self.events@[j], list@[j]),
            decreases self.events@.len() - i,
        {
            assert(self.events@[i as int].ok(self.objs()));
            match self.externalize_event(&self.events[i]) {
                Ok(x) => {
                    list.push(x);
                },
                Err(e) => {
                    proof {
                        lemma_events_fault_in_front(
                            self.objs(),
                            self.events@,
                            (i + 1) as nat,
                            self.events@.len(),
                        );
                    }
                    return Err(e);
                },
            }
            i += 1;
        }
        Ok(Events(list))
    }
}

} // verus!
