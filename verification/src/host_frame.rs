//! What is running, and the handles that it knows.

use crate::error::{Fault, HostError, ScErrorCode, ScErrorType};
use crate::host::{fails, Context, Frame, Host};
use crate::host_object::{law_vals_fault, val_fault, vals_fault};
use crate::model::{val_ok, vals_ok, Hash32, ObjModel};
use crate::scval::ScMapEntry;
use crate::val::{
    handle_to_index, index_to_handle, is_relative_object_handle, spec_handle_to_index, spec_index_to_handle, Object,
    Symbol, Val, MAX_OBJECTS,
};
use vstd::prelude::*;

verus! {

/// The fault of a host that runs nothing.
pub open spec fn no_frame() -> Fault {
    (ScErrorType::Context, ScErrorCode::MissingValue)
}

/// The contract that is running, if one is.
pub open spec fn current_contract(host: Host) -> Result<Hash32, Fault> {
    if host.context@.len() == 0 {
        Err(no_frame())
    } else {
        match host.context@.last().frame.contract_call() {
            Some((id, _, _)) => Ok(id),
            None => Err((ScErrorType::Context, ScErrorCode::MissingValue)),
        }
    }
}

/// The value that a guest's value stands for, given the objects that the guest
/// knows: a relative handle has to be of an object of the type that it claims,
/// and no handle may be absolute.
pub open spec fn absolute_val(table: Seq<Object>, v: Val) -> Result<Val, Fault> {
    match v {
        Val::Object(o) => if is_relative_object_handle(o.handle) && spec_handle_to_index(o.handle) < table.len()
            && table[spec_handle_to_index(o.handle)].tag == o.tag {
            Ok(Val::Object(table[spec_handle_to_index(o.handle)]))
        } else {
            Err((ScErrorType::Value, ScErrorCode::InvalidInput))
        },
        _ => Ok(v),
    }
}

/// The value by which a guest will know a value, with the objects that it will
/// know then: it learns of an object by one more relative handle.
pub open spec fn relative_val(table: Seq<Object>, v: Val) -> Result<(Val, Seq<Object>), Fault> {
    match v {
        Val::Object(o) => if is_relative_object_handle(o.handle) {
            Err((ScErrorType::Context, ScErrorCode::InternalError))
        } else if table.len() >= MAX_OBJECTS {
            Err((ScErrorType::Value, ScErrorCode::ArithDomain))
        } else {
            Ok(
                (
                    Val::Object(Object { tag: o.tag, handle: spec_index_to_handle(table.len() as int, true) as u32 }),
                    table.push(o),
                ),
            )
        },
        _ => Ok((v, table)),
    }
}

/// What a guest is given stands for what it was given for, then and whatever
/// else it learns of later.
pub proof fn law_relative_val_round_trip(table: Seq<Object>, v: Val, later: Seq<Object>)
    requires
        relative_val(table, v) is Ok,
        relative_val(table, v)->Ok_0.1.len() <= later.len(),
        forall|i: int|
            0 <= i < relative_val(table, v)->Ok_0.1.len() ==> #[trigger] later[i] == relative_val(table, v)->Ok_0.1[i],
    ensures
        absolute_val(later, relative_val(table, v)->Ok_0.0) == Ok::<Val, Fault>(v),
{
    if let Val::Object(o) = v {
        let i = table.len() as int;
        assert(relative_val(table, v)->Ok_0.1[i] == o);
        assert(later[i] == o);
    }
}

/// The objects that the running guest knows.
pub open spec fn guest_table(host: Host) -> Seq<Object> {
    host.context@.last().relative_objects@
}

/// Only the objects that the running guest knows have changed.
pub open spec fn sets_guest_table(pre: Host, post: Host, table: Seq<Object>) -> bool {
    &&& pre.context@.len() > 0
    &&& post.context@.len() == pre.context@.len()
    &&& post.context@.drop_last() == pre.context@.drop_last()
    &&& post.context@.last() == (Context {
        relative_objects: post.context@.last().relative_objects,
        ..pre.context@.last()
    })
    &&& guest_table(post) == table
    &&& post == (Host { context: post.context, ..pre })
}

/// What is wrong with the values of a frame, if anything is.
pub open spec fn frame_fault(objs: Seq<ObjModel>, frame: Frame) -> Option<Fault> {
    match frame.contract_call() {
        None => None,
        Some((_, fn_name, args)) => match val_fault(objs, fn_name.to_val()) {
            Some(f) => Some(f),
            None => vals_fault(objs, args),
        },
    }
}

/// Something has started to run, with nothing known to it yet but the data that
/// the ledger has of its instance.
pub open spec fn opens_frame(pre: Host, post: Host, frame: Frame, instance: Seq<ScMapEntry>) -> bool {
    &&& post.wf()
    &&& post.context@.len() == pre.context@.len() + 1
    &&& post.context@.drop_last() == pre.context@
    &&& post.context@.last().frame == frame
    &&& post.context@.last().instance@ == instance
    &&& post.context@.last().prng is None
    &&& post.context@.last().storage is None
    &&& post.context@.last().relative_objects@ == Seq::<Object>::empty()
    &&& post == (Host { context: post.context, ..pre })
}

/// What was running last has ended.
pub open spec fn closes_frame(pre: Host, post: Host) -> bool {
    &&& post.wf()
    &&& post.context@ == pre.context@.drop_last()
    &&& post == (Host { context: post.context, ..pre })
}

impl Host {
    /// Lets something start to run. Fails if the name or the arguments of a call
    /// are no values of this host.
    pub fn push_frame(&mut self, frame: Frame, instance: Vec<ScMapEntry>) -> (res: Result<(), HostError>)
        requires
            old(self).wf(),
        ensures
            final(self).wf(),
            match frame_fault(old(self).objs(), frame) {
                Some(f) => fails(*old(self), *final(self), res, f),
                None => res == Ok::<(), HostError>(()) && opens_frame(*old(self), *final(self), frame, instance@),
            },
    {
        match &frame {
            Frame::ContractVM { fn_name, args, .. } => self.check_call(*fn_name, args.as_slice())?,
            Frame::Token { fn_name, args, .. } => self.check_call(*fn_name, args.as_slice())?,
            Frame::TestContract { fn_name, args, .. } => self.check_call(*fn_name, args.as_slice())?,
            Frame::HostFunction => {},
        }
        self.open_frame(frame, instance);
        Ok(())
    }

    fn check_call(&self, fn_name: Symbol, args: &[Val]) -> (res: Result<(), HostError>)
        ensures
            res == match val_fault(self.objs(), fn_name.to_val()) {
                Some(f) => Err::<(), HostError>(self.spec_err(f)),
                None => match vals_fault(self.objs(), args@) {
                    Some(f) => Err(self.spec_err(f)),
                    None => Ok(()),
                },
            },
            res is Ok ==> vals_ok(self.objs(), args@),
    {
        self.check_val_integrity(fn_name.to_val())?;
        let res = self.check_vals_integrity(args);
        proof {
            law_vals_fault(self.objs(), args@);
        }
        res
    }

    /// Ends what was running last. Fails if nothing was.
    pub fn pop_frame(&mut self) -> (res: Result<(), HostError>)
        requires
            old(self).wf(),
        ensures
            final(self).wf(),
            if old(self).context@.len() == 0 {
                fails(*old(self), *final(self), res, no_frame())
            } else {
                res == Ok::<(), HostError>(()) && closes_frame(*old(self), *final(self))
            },
    {
        if self.context.len() == 0 {
            return Err(self.err(ScErrorType::Context, ScErrorCode::MissingValue));
        }
        self.close_frame();
        Ok(())
    }

    pub(crate) fn open_frame(&mut self, frame: Frame, instance: Vec<ScMapEntry>)
        requires
            old(self).wf(),
            frame.contract_call() matches Some((_, fn_name, args)) ==> val_ok(old(self).objs(), fn_name.to_val())
                && vals_ok(old(self).objs(), args),
        ensures
            opens_frame(*old(self), *final(self), frame, instance@),
    {
        let ghost pre = *self;
        let relative_objects: Vec<Object> = Vec::new();
        self.context.push(Context { frame, prng: None, instance, storage: None, relative_objects });
        proof {
            assert(self.context@.drop_last() =~= pre.context@);
            assert forall|i: int| 0 <= i < self.context@.len() implies (#[trigger] self.context@[i]).ok(
                self.objs(),
            ) by {
                if i < pre.context@.len() {
                    assert(pre.context@[i].ok(pre.objs()));
                }
            }
        }
    }

    pub(crate) fn close_frame(&mut self)
        requires
            old(self).wf(),
            old(self).context@.len() > 0,
        ensures
            closes_frame(*old(self), *final(self)),
    {
        let ghost pre = *self;
        let _ = self.context.pop();
        proof {
            assert forall|i: int| 0 <= i < self.context@.len() implies (#[trigger] self.context@[i]).ok(
                self.objs(),
            ) by {
                assert(pre.context@[i].ok(pre.objs()));
            }
        }
    }

    pub(crate) fn current_frame(&self) -> (res: Result<&Frame, HostError>)
        ensures
            match res {
                Ok(frame) => self.context@.len() > 0 && *frame == self.context@.last().frame,
                Err(e) => self.context@.len() == 0 && e == self.spec_err(no_frame()),
            },
    {
        let n: usize = self.context.len();
        if n == 0 {
            return Err(self.err(ScErrorType::Context, ScErrorCode::MissingValue));
        }
        Ok(&self.context[n - 1].frame)
    }

    /// The contract that is running.
    pub fn get_current_contract_id_internal(&self) -> (res: Result<Hash32, HostError>)
        ensures
            res == match current_contract(*self) {
                Ok(id) => Ok::<Hash32, HostError>(id),
                Err(f) => Err(self.spec_err(f)),
            },
    {
        match self.current_frame()? {
            Frame::ContractVM { contract_id, .. } => Ok(*contract_id),
            Frame::Token { contract_id, .. } => Ok(*contract_id),
            Frame::TestContract { contract_id, .. } => Ok(*contract_id),
            Frame::HostFunction => Err(self.err(ScErrorType::Context, ScErrorCode::MissingValue)),
        }
    }

    /// The value that a value of the running guest stands for.
    pub fn relative_to_absolute(&self, v: Val) -> (res: Result<Val, HostError>)
        requires
            self.wf(),
        ensures
            res == if v is Object && is_relative_object_handle(v->Object_0.handle) && self.context@.len() == 0 {
                Err::<Val, HostError>(self.spec_err(no_frame()))
            } else {
                match absolute_val(guest_table(*self), v) {
                    Ok(r) => Ok::<Val, HostError>(r),
                    Err(f) => Err(self.spec_err(f)),
                }
            },
            v.in_range() ==> (res matches Ok(r) ==> val_ok(self.objs(), r)),
    {
        if let Val::Object(o) = v {
            if !is_relative_object_handle(o.handle) {
                return Err(self.err(ScErrorType::Value, ScErrorCode::InvalidInput));
            }
            let n: usize = self.context.len();
            if n == 0 {
                return Err(self.err(ScErrorType::Context, ScErrorCode::MissingValue));
            }
            let index: usize = handle_to_index(o.handle);
            let table = &self.context[n - 1].relative_objects;
            if index >= table.len() || table[index].tag != o.tag {
                return Err(self.err(ScErrorType::Value, ScErrorCode::InvalidInput));
            }
            assert(self.context@[n - 1].ok(self.objs()));
            assert(val_ok(self.objs(), Val::Object(table@[index as int])));
            return Ok(Val::Object(table[index]));
        }
        Ok(v)
    }

    /// The value by which the running guest will know a value.
    pub(crate) fn absolute_to_relative(&mut self, v: Val) -> (res: Result<Val, HostError>)
        requires
            old(self).wf(),
            val_ok(old(self).objs(), v),
        ensures
            final(self).wf(),
            if v is Object && old(self).context@.len() == 0 {
                fails(*old(self), *final(self), res, no_frame())
            } else {
                match relative_val(guest_table(*old(self)), v) {
                    Ok((r, table)) => {
                        &&& res == Ok::<Val, HostError>(r)
                        &&& r.in_range()
                        &&& if v is Object {
                            sets_guest_table(*old(self), *final(self), table)
                        } else {
                            *final(self) == *old(self)
                        }
                    },
                    Err(f) => fails(*old(self), *final(self), res, f),
                }
            },
    {
        if let Val::Object(o) = v {
            let n: usize = self.context.len();
            if n == 0 {
                return Err(self.err(ScErrorType::Context, ScErrorCode::MissingValue));
            }
            let index: usize = self.context[n - 1].relative_objects.len();
            match index_to_handle(index, true) {
                None => Err(self.err(ScErrorType::Value, ScErrorCode::ArithDomain)),
                Some(handle) => {
                    let ghost pre = *self;
                    self.context[n - 1].relative_objects.push(o);
                    proof {
                        assert(self.context@.drop_last() =~= pre.context@.drop_last());
                        assert(pre.context@[n - 1].ok(pre.objs()));
                        assert forall|i: int| 0 <= i < self.context@.len() implies (#[trigger] self.context@[i]).ok(
                            self.objs(),
                        ) by {
                            assert(pre.context@[i].ok(pre.objs()));
                        }
                    }
                    Ok(Val::Object(Object { tag: o.tag, handle }))
                },
            }
        } else {
            Ok(v)
        }
    }
}

} // verus!
