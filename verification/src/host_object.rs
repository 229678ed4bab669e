//! The object table: adding objects, following handles to them, and telling
//! good values from forged ones.

use crate::bignum::{I256, U256};
use crate::budget::{budget_error, law_spent_stays_spent, ContractCostType};
use crate::error::{Fault, HostError, ScErrorCode, ScErrorType};
use crate::host::{charge, charge_bulk, fails, lemma_wf_extends, runs_out, Host, HostObject, PAIR_SIZE, VAL_SIZE};
use crate::model::{
    deep, extends, law_values_are_immutable, lemma_deep_mapping, lemma_deep_vector, lemma_push_ok, map_ok, obj_ok,
    val_ok, vals_ok, BlobKind, NumKind, ObjModel, ScAddress,
};
use crate::symbol::is_symbol;
use crate::val::{
    handle_to_index, index_to_handle, is_relative_object_handle, spec_handle_to_index, spec_index_to_handle,
    AddressObject, BytesObject, DurationObject, I128Object, I256Object, I64Object, MapObject, Object, ObjectTag,
    StringObject, Symbol, SymbolObject, TimepointObject, U128Object, U256Object, U64Object, Val, VecObject,
    MAX_OBJECTS,
};
use vstd::prelude::*;

verus! {

/// The object that a handle of a type points at, or what is wrong with the
/// handle: guests' handles are no handles of the host's, a handle may point at
/// nothing, or at an object of another type.
pub open spec fn visit(objs: Seq<ObjModel>, handle: u32, tag: ObjectTag) -> Result<ObjModel, Fault> {
    if is_relative_object_handle(handle) {
        Err((ScErrorType::Context, ScErrorCode::InternalError))
    } else if spec_handle_to_index(handle) >= objs.len() {
        Err((ScErrorType::Object, ScErrorCode::MissingValue))
    } else if objs[spec_handle_to_index(handle)].tag() != tag {
        Err((ScErrorType::Object, ScErrorCode::UnexpectedType))
    } else {
        Ok(objs[spec_handle_to_index(handle)])
    }
}

/// What is wrong with a value, if anything is.
pub open spec fn val_fault(objs: Seq<ObjModel>, v: Val) -> Option<Fault> {
    if !v.in_range() {
        Some((ScErrorType::Value, ScErrorCode::InvalidInput))
    } else {
        match v {
            Val::Object(o) => if is_relative_object_handle(o.handle) {
                Some((ScErrorType::Context, ScErrorCode::InternalError))
            } else if spec_handle_to_index(o.handle) >= objs.len() {
                Some((ScErrorType::Object, ScErrorCode::MissingValue))
            } else if objs[spec_handle_to_index(o.handle)].tag() != o.tag {
                Some((ScErrorType::Value, ScErrorCode::InvalidInput))
            } else {
                None
            },
            _ => None,
        }
    }
}

/// An object is looked up: that is charged for, and then the handle has to be one
/// of an object of the type.
pub open spec fn looks_at(host: Host, handle: u32, tag: ObjectTag) -> (Host, Result<ObjModel, HostError>) {
    after_visit(host, visit(host.objs(), handle, tag))
}

/// What is told by an object: looking it up is charged for first.
pub open spec fn after_visit<T>(host: Host, told: Result<T, Fault>) -> (Host, Result<T, HostError>) {
    let charged = charge(host, ContractCostType::VisitObject, None);
    (
        charged.0,
        match charged.1 {
            Err(e) => Err(e),
            Ok(_) => match told {
                Ok(x) => Ok(x),
                Err(f) => Err(host.spec_err(f)),
            },
        },
    )
}

/// Once a limit of the budget is passed, no object can be looked up any more.
pub proof fn law_nothing_is_found_without_budget(host: Host, handle: u32, tag: ObjectTag)
    requires
        !host.budget.cpu_insns.within_limit() || !host.budget.mem_bytes.within_limit(),
    ensures
        looks_at(host, handle, tag).1 == Err::<ObjModel, HostError>(budget_error()),
{
    law_spent_stays_spent(host.budget, ContractCostType::VisitObject, None);
}

/// A failure that leaves the host as it is by then.
pub open spec fn gives_up<T>(host: Host, post: Host, res: Result<T, HostError>, e: HostError) -> bool {
    post == host && res == Err::<T, HostError>(e)
}

/// The first fault of a list of values.
pub open spec fn vals_fault(objs: Seq<ObjModel>, s: Seq<Val>) -> Option<Fault>
    decreases s.len(),
{
    if s.len() == 0 {
        None
    } else {
        match vals_fault(objs, s.drop_last()) {
            Some(f) => Some(f),
            None => val_fault(objs, s.last()),
        }
    }
}

/// The handle that the next object will have.
pub open spec fn next_handle(host: Host) -> u32 {
    spec_index_to_handle(host.objs().len() as int, false) as u32
}

/// An object is added at the end of the table, unless the table is full, and a
/// handle of it is returned. Nothing else changes.
pub open spec fn stores(pre: Host, post: Host, o: ObjModel, res: Result<u32, HostError>) -> bool {
    if pre.objs().len() < MAX_OBJECTS {
        &&& post.wf()
        &&& post.objs() == pre.objs().push(o)
        &&& post == (Host { objects: post.objects, ..pre })
        &&& res == Ok::<u32, HostError>(next_handle(pre))
    } else {
        fails(pre, post, res, (ScErrorType::Value, ScErrorCode::ArithDomain))
    }
}

pub open spec fn u64_handle(res: Result<U64Object, HostError>) -> Result<u32, HostError> {
    match res {
        Ok(o) => Ok(o.handle),
        Err(e) => Err(e),
    }
}

pub open spec fn i64_handle(res: Result<I64Object, HostError>) -> Result<u32, HostError> {
    match res {
        Ok(o) => Ok(o.handle),
        Err(e) => Err(e),
    }
}

pub open spec fn timepoint_handle(res: Result<TimepointObject, HostError>) -> Result<u32, HostError> {
    match res {
        Ok(o) => Ok(o.handle),
        Err(e) => Err(e),
    }
}

pub open spec fn duration_handle(res: Result<DurationObject, HostError>) -> Result<u32, HostError> {
    match res {
        Ok(o) => Ok(o.handle),
        Err(e) => Err(e),
    }
}

pub open spec fn u128_handle(res: Result<U128Object, HostError>) -> Result<u32, HostError> {
    match res {
        Ok(o) => Ok(o.handle),
        Err(e) => Err(e),
    }
}

pub open spec fn i128_handle(res: Result<I128Object, HostError>) -> Result<u32, HostError> {
    match res {
        Ok(o) => Ok(o.handle),
        Err(e) => Err(e),
    }
}

pub open spec fn u256_handle(res: Result<U256Object, HostError>) -> Result<u32, HostError> {
    match res {
        Ok(o) => Ok(o.handle),
        Err(e) => Err(e),
    }
}

pub open spec fn i256_handle(res: Result<I256Object, HostError>) -> Result<u32, HostError> {
    match res {
        Ok(o) => Ok(o.handle),
        Err(e) => Err(e),
    }
}

pub open spec fn bytes_handle(res: Result<BytesObject, HostError>) -> Result<u32, HostError> {
    match res {
        Ok(o) => Ok(o.handle),
        Err(e) => Err(e),
    }
}

pub open spec fn string_handle(res: Result<StringObject, HostError>) -> Result<u32, HostError> {
    match res {
        Ok(o) => Ok(o.handle),
        Err(e) => Err(e),
    }
}

pub open spec fn symbol_handle(res: Result<SymbolObject, HostError>) -> Result<u32, HostError> {
    match res {
        Ok(o) => Ok(o.handle),
        Err(e) => Err(e),
    }
}

pub open spec fn vec_handle(res: Result<VecObject, HostError>) -> Result<u32, HostError> {
    match res {
        Ok(o) => Ok(o.handle),
        Err(e) => Err(e),
    }
}

pub open spec fn map_handle(res: Result<MapObject, HostError>) -> Result<u32, HostError> {
    match res {
        Ok(o) => Ok(o.handle),
        Err(e) => Err(e),
    }
}

pub open spec fn address_handle(res: Result<AddressObject, HostError>) -> Result<u32, HostError> {
    match res {
        Ok(o) => Ok(o.handle),
        Err(e) => Err(e),
    }
}

/// A value without a fault is well formed, and only such a value.
pub proof fn law_val_fault(objs: Seq<ObjModel>, v: Val)
    ensures
        val_fault(objs, v) is None <==> val_ok(objs, v),
{
}

/// A list without a fault holds well-formed values only, and only such a list.
pub proof fn law_vals_fault(objs: Seq<ObjModel>, s: Seq<Val>)
    ensures
        vals_fault(objs, s) is None <==> vals_ok(objs, s),
    decreases s.len(),
{
    if s.len() > 0 {
        law_vals_fault(objs, s.drop_last());
        let n = s.len() - 1;
        if vals_ok(objs, s) {
            assert forall|i: int| 0 <= i < n implies val_ok(objs, #[trigger] s.drop_last()[i]) by {
                assert(val_ok(objs, s[i]));
            }
            assert(val_ok(objs, s[n]));
        }
        if vals_fault(objs, s) is None {
            assert forall|i: int| 0 <= i < s.len() implies val_ok(objs, #[trigger] s[i]) by {
                if i < n {
                    assert(val_ok(objs, s.drop_last()[i]));
                }
            }
        }
    }
}

/// What is stored under a handle can be looked up under it.
pub proof fn law_stored_object_is_found(pre: Host, post: Host, o: ObjModel, handle: u32)
    requires
        pre.wf(),
        stores(pre, post, o, Ok(handle)),
    ensures
        visit(post.objs(), handle, o.tag()) == Ok::<ObjModel, Fault>(o),
        val_ok(post.objs(), Val::Object(Object { tag: o.tag(), handle })),
{
    assert(post.objs()[pre.objs().len() as int] == o);
}

/// Storing an object keeps all objects that were there, and what values denote.
pub proof fn law_storing_keeps_the_rest(pre: Host, post: Host, o: ObjModel, res: Result<u32, HostError>, v: Val)
    requires
        pre.wf(),
        stores(pre, post, o, res),
        val_ok(pre.objs(), v),
    ensures
        extends(pre.objs(), post.objs()),
        val_ok(post.objs(), v),
        deep(post.objs(), v) == deep(pre.objs(), v),
{
    law_values_are_immutable(pre.objs(), post.objs(), v);
}

impl Host {
    pub(crate) fn add_host_object(&mut self, o: HostObject) -> (res: Result<u32, HostError>)
        requires
            old(self).wf(),
            obj_ok(old(self).objs(), o@),
        ensures
            stores(*old(self), *final(self), o@, res),
    {
        let ghost pre = *self;
        let index: usize = self.objects.len();
        match index_to_handle(index, false) {
            None => Err(self.err(ScErrorType::Value, ScErrorCode::ArithDomain)),
            Some(handle) => {
                self.objects.push(o);
                proof {
                    assert(self.objs() =~= pre.objs().push(o@));
                    lemma_push_ok(pre.objs(), o@);
                    lemma_wf_extends(pre, *self);
                }
                Ok(handle)
            },
        }
    }

    /// Fails with what is wrong with a value, if anything is.
    pub fn check_val_integrity(&self, v: Val) -> (res: Result<(), HostError>)
        ensures
            res == match val_fault(self.objs(), v) {
                None => Ok::<(), HostError>(()),
                Some(f) => Err(self.spec_err(f)),
            },
    {
        if !v.is_in_range() {
            return Err(self.err(ScErrorType::Value, ScErrorCode::InvalidInput));
        }
        if let Val::Object(o) = v {
            let tag = match self.visit_obj_untyped(o) {
                Ok(obj) => obj.tag(),
                Err(e) => return Err(e),
            };
            if tag != o.tag {
                return Err(self.err(ScErrorType::Value, ScErrorCode::InvalidInput));
            }
        }
        Ok(())
    }

    /// Fails with the first fault of a list of values, if there is one.
    pub(crate) fn check_vals_integrity(&self, vals: &[Val]) -> (res: Result<(), HostError>)
        ensures
            res == match vals_fault(self.objs(), vals@) {
                None => Ok::<(), HostError>(()),
                Some(f) => Err(self.spec_err(f)),
            },
    {
        let mut i: usize = 0;
        while i < vals.len()
            invariant
                i <= vals@.len(),
                vals_fault(self.objs(), vals@.take(i as int)) is None,
            decreases vals@.len() - i,
        {
            proof {
                assert(vals@.take(i + 1).drop_last() =~= vals@.take(i as int));
            }
            let r = self.check_val_integrity(vals[i]);
            if r.is_err() {
                proof {
                    lemma_fault_in_front(self.objs(), vals@, i + 1);
                }
                return r;
            }
            i += 1;
        }
        proof {
            assert(vals@.take(i as int) =~= vals@);
        }
        Ok(())
    }

    /// Charges for looking up an object.
    pub(crate) fn charge_visit(&mut self) -> (res: Result<(), HostError>)
        requires
            old(self).wf(),
        ensures
            final(self).wf(),
            (*final(self), res) == charge(*old(self), ContractCostType::VisitObject, None),
    {
        self.charge_budget(ContractCostType::VisitObject, None)
    }

    /// Adds a vector. Room for it and the copying of it are charged for.
    pub(crate) fn add_list(&mut self, s: Vec<Val>) -> (res: Result<VecObject, HostError>)
        requires
            old(self).wf(),
            vals_ok(old(self).objs(), s@),
        ensures
            final(self).wf(),
            stores_list(*old(self), *final(self), s@, vec_handle(res)),
    {
        self.charge_bulk_init_cpy(s.len() as u64, VAL_SIZE)?;
        self.add_vec(s)
    }

    /// Adds a map. Room for it and the copying of it are charged for.
    pub(crate) fn add_entries(&mut self, m: Vec<(Val, Val)>) -> (res: Result<MapObject, HostError>)
        requires
            old(self).wf(),
            map_ok(old(self).objs(), m@),
        ensures
            final(self).wf(),
            stores_entries(*old(self), *final(self), m@, map_handle(res)),
    {
        self.charge_bulk_init_cpy(m.len() as u64, PAIR_SIZE)?;
        self.add_map(m)
    }

    /// The object that a handle points at, whatever its type.
    pub(crate) fn visit_obj_untyped(&self, o: Object) -> (res: Result<&HostObject, HostError>)
        ensures
            match res {
                Ok(obj) => {
                    &&& !is_relative_object_handle(o.handle)
                    &&& spec_handle_to_index(o.handle) < self.objs().len()
                    &&& self.objs()[spec_handle_to_index(o.handle)] == obj@
                },
                Err(e) => if is_relative_object_handle(o.handle) {
                    e == self.spec_err((ScErrorType::Context, ScErrorCode::InternalError))
                } else {
                    &&& spec_handle_to_index(o.handle) >= self.objs().len()
                    &&& e == self.spec_err((ScErrorType::Object, ScErrorCode::MissingValue))
                },
            },
    {
        if is_relative_object_handle(o.handle) {
            return Err(self.err(ScErrorType::Context, ScErrorCode::InternalError));
        }
        let index: usize = handle_to_index(o.handle);
        if index >= self.objects.len() {
            return Err(self.err(ScErrorType::Object, ScErrorCode::MissingValue));
        }
        Ok(&self.objects[index])
    }
}

proof fn lemma_fault_in_front(objs: Seq<ObjModel>, s: Seq<Val>, n: int)
    requires
        0 <= n <= s.len(),
        vals_fault(objs, s.take(n)) is Some,
    ensures
        vals_fault(objs, s) == vals_fault(objs, s.take(n)),
    decreases s.len(),
{
    if n < s.len() {
        assert(s.drop_last().take(n) =~= s.take(n));
        lemma_fault_in_front(objs, s.drop_last(), n);
    } else {
        assert(s.take(n) =~= s);
    }
}

impl HostObject {
    /// The type of the handles that may point at the object.
    pub fn tag(&self) -> (t: ObjectTag)
        ensures
            t == self@.tag(),
    {
        match self {
            HostObject::HostVec(_) => ObjectTag::VecObject,
            HostObject::HostMap(_) => ObjectTag::MapObject,
            HostObject::U64(_) => ObjectTag::U64Object,
            HostObject::I64(_) => ObjectTag::I64Object,
            HostObject::TimePoint(_) => ObjectTag::TimepointObject,
            HostObject::Duration(_) => ObjectTag::DurationObject,
            HostObject::U128(_) => ObjectTag::U128Object,
            HostObject::I128(_) => ObjectTag::I128Object,
            HostObject::U256(_) => ObjectTag::U256Object,
            HostObject::I256(_) => ObjectTag::I256Object,
            HostObject::Bytes(_) => ObjectTag::BytesObject,
            HostObject::Text(_) => ObjectTag::StringObject,
            HostObject::Symbol(_) => ObjectTag::SymbolObject,
            HostObject::Address(_) => ObjectTag::AddressObject,
        }
    }
}

impl Host {

    pub(crate) fn add_u64(&mut self, x: u64) -> (res: Result<U64Object, HostError>)
        requires
            old(self).wf(),
        ensures
            stores(*old(self), *final(self), ObjModel::Num(NumKind::U64, x as int), u64_handle(res)),
    {
        match self.add_host_object(HostObject::U64(x)) {
            Ok(handle) => Ok(U64Object { handle }),
            Err(e) => Err(e),
        }
    }

    pub(crate) fn visit_u64(&self, o: U64Object) -> (res: Result<u64, HostError>)
        ensures
            match res {
                Ok(x) => visit(self.objs(), o.handle, ObjectTag::U64Object) == Ok::<ObjModel, Fault>(
                    ObjModel::Num(NumKind::U64, x as int),
                ),
                Err(e) => visit(self.objs(), o.handle, ObjectTag::U64Object) matches Err(f) && e == self.spec_err(f),
            },
    {
        match self.visit_obj_untyped(Object { tag: ObjectTag::U64Object, handle: o.handle }) {
            Ok(HostObject::U64(x)) => Ok(*x),
            Ok(_) => Err(self.err(ScErrorType::Object, ScErrorCode::UnexpectedType)),
            Err(e) => Err(e),
        }
    }

    pub(crate) fn add_i64(&mut self, x: i64) -> (res: Result<I64Object, HostError>)
        requires
            old(self).wf(),
        ensures
            stores(*old(self), *final(self), ObjModel::Num(NumKind::I64, x as int), i64_handle(res)),
    {
        match self.add_host_object(HostObject::I64(x)) {
            Ok(handle) => Ok(I64Object { handle }),
            Err(e) => Err(e),
        }
    }

    pub(crate) fn visit_i64(&self, o: I64Object) -> (res: Result<i64, HostError>)
        ensures
            match res {
                Ok(x) => visit(self.objs(), o.handle, ObjectTag::I64Object) == Ok::<ObjModel, Fault>(
                    ObjModel::Num(NumKind::I64, x as int),
                ),
                Err(e) => visit(self.objs(), o.handle, ObjectTag::I64Object) matches Err(f) && e == self.spec_err(f),
            },
    {
        match self.visit_obj_untyped(Object { tag: ObjectTag::I64Object, handle: o.handle }) {
            Ok(HostObject::I64(x)) => Ok(*x),
            Ok(_) => Err(self.err(ScErrorType::Object, ScErrorCode::UnexpectedType)),
            Err(e) => Err(e),
        }
    }

    pub(crate) fn add_timepoint(&mut self, x: u64) -> (res: Result<TimepointObject, HostError>)
        requires
            old(self).wf(),
        ensures
            stores(*old(self), *final(self), ObjModel::Num(NumKind::Timepoint, x as int), timepoint_handle(res)),
    {
        match self.add_host_object(HostObject::TimePoint(x)) {
            Ok(handle) => Ok(TimepointObject { handle }),
            Err(e) => Err(e),
        }
    }

    pub(crate) fn visit_timepoint(&self, o: TimepointObject) -> (res: Result<u64, HostError>)
        ensures
            match res {
                Ok(x) => visit(self.objs(), o.handle, ObjectTag::TimepointObject) == Ok::<ObjModel, Fault>(
                    ObjModel::Num(NumKind::Timepoint, x as int),
                ),
                Err(e) => visit(self.objs(), o.handle, ObjectTag::TimepointObject) matches Err(f) && e == self.spec_err(f),
            },
    {
        match self.visit_obj_untyped(Object { tag: ObjectTag::TimepointObject, handle: o.handle }) {
            Ok(HostObject::TimePoint(x)) => Ok(*x),
            Ok(_) => Err(self.err(ScErrorType::Object, ScErrorCode::UnexpectedType)),
            Err(e) => Err(e),
        }
    }

    pub(crate) fn add_duration(&mut self, x: u64) -> (res: Result<DurationObject, HostError>)
        requires
            old(self).wf(),
        ensures
            stores(*old(self), *final(self), ObjModel::Num(NumKind::Duration, x as int), duration_handle(res)),
    {
        match self.add_host_object(HostObject::Duration(x)) {
            Ok(handle) => Ok(DurationObject { handle }),
            Err(e) => Err(e),
        }
    }

    pub(crate) fn visit_duration(&self, o: DurationObject) -> (res: Result<u64, HostError>)
        ensures
            match res {
                Ok(x) => visit(self.objs(), o.handle, ObjectTag::DurationObject) == Ok::<ObjModel, Fault>(
                    ObjModel::Num(NumKind::Duration, x as int),
                ),
                Err(e) => visit(self.objs(), o.handle, ObjectTag::DurationObject) matches Err(f) && e == self.spec_err(f),
            },
    {
        match self.visit_obj_untyped(Object { tag: ObjectTag::DurationObject, handle: o.handle }) {
            Ok(HostObject::Duration(x)) => Ok(*x),
            Ok(_) => Err(self.err(ScErrorType::Object, ScErrorCode::UnexpectedType)),
            Err(e) => Err(e),
        }
    }

    pub(crate) fn add_u128(&mut self, x: u128) -> (res: Result<U128Object, HostError>)
        requires
            old(self).wf(),
        ensures
            stores(*old(self), *final(self), ObjModel::Num(NumKind::U128, x as int), u128_handle(res)),
    {
        match self.add_host_object(HostObject::U128(x)) {
            Ok(handle) => Ok(U128Object { handle }),
            Err(e) => Err(e),
        }
    }

    pub(crate) fn visit_u128(&self, o: U128Object) -> (res: Result<u128, HostError>)
        ensures
            match res {
                Ok(x) => visit(self.objs(), o.handle, ObjectTag::U128Object) == Ok::<ObjModel, Fault>(
                    ObjModel::Num(NumKind::U128, x as int),
                ),
                Err(e) => visit(self.objs(), o.handle, ObjectTag::U128Object) matches Err(f) && e == self.spec_err(f),
            },
    {
        match self.visit_obj_untyped(Object { tag: ObjectTag::U128Object, handle: o.handle }) {
            Ok(HostObject::U128(x)) => Ok(*x),
            Ok(_) => Err(self.err(ScErrorType::Object, ScErrorCode::UnexpectedType)),
            Err(e) => Err(e),
        }
    }

    pub(crate) fn add_i128(&mut self, x: i128) -> (res: Result<I128Object, HostError>)
        requires
            old(self).wf(),
        ensures
            stores(*old(self), *final(self), ObjModel::Num(NumKind::I128, x as int), i128_handle(res)),
    {
        match self.add_host_object(HostObject::I128(x)) {
            Ok(handle) => Ok(I128Object { handle }),
            Err(e) => Err(e),
        }
    }

    pub(crate) fn visit_i128(&self, o: I128Object) -> (res: Result<i128, HostError>)
        ensures
            match res {
                Ok(x) => visit(self.objs(), o.handle, ObjectTag::I128Object) == Ok::<ObjModel, Fault>(
                    ObjModel::Num(NumKind::I128, x as int),
                ),
                Err(e) => visit(self.objs(), o.handle, ObjectTag::I128Object) matches Err(f) && e == self.spec_err(f),
            },
    {
        match self.visit_obj_untyped(Object { tag: ObjectTag::I128Object, handle: o.handle }) {
            Ok(HostObject::I128(x)) => Ok(*x),
            Ok(_) => Err(self.err(ScErrorType::Object, ScErrorCode::UnexpectedType)),
            Err(e) => Err(e),
        }
    }

    pub(crate) fn add_u256(&mut self, x: U256) -> (res: Result<U256Object, HostError>)
        requires
            old(self).wf(),
        ensures
            stores(*old(self), *final(self), ObjModel::Num(NumKind::U256, x@), u256_handle(res)),
    {
        match self.add_host_object(HostObject::U256(x)) {
            Ok(handle) => Ok(U256Object { handle }),
            Err(e) => Err(e),
        }
    }

    pub(crate) fn visit_u256(&self, o: U256Object) -> (res: Result<U256, HostError>)
        ensures
            match res {
                Ok(x) => visit(self.objs(), o.handle, ObjectTag::U256Object) == Ok::<ObjModel, Fault>(
                    ObjModel::Num(NumKind::U256, x@),
                ),
                Err(e) => visit(self.objs(), o.handle, ObjectTag::U256Object) matches Err(f) && e == self.spec_err(f),
            },
    {
        match self.visit_obj_untyped(Object { tag: ObjectTag::U256Object, handle: o.handle }) {
            Ok(HostObject::U256(x)) => Ok(*x),
            Ok(_) => Err(self.err(ScErrorType::Object, ScErrorCode::UnexpectedType)),
            Err(e) => Err(e),
        }
    }

    pub(crate) fn add_i256(&mut self, x: I256) -> (res: Result<I256Object, HostError>)
        requires
            old(self).wf(),
        ensures
            stores(*old(self), *final(self), ObjModel::Num(NumKind::I256, x@), i256_handle(res)),
    {
        match self.add_host_object(HostObject::I256(x)) {
            Ok(handle) => Ok(I256Object { handle }),
            Err(e) => Err(e),
        }
    }

    pub(crate) fn visit_i256(&self, o: I256Object) -> (res: Result<I256, HostError>)
        ensures
            match res {
                Ok(x) => visit(self.objs(), o.handle, ObjectTag::I256Object) == Ok::<ObjModel, Fault>(
                    ObjModel::Num(NumKind::I256, x@),
                ),
                Err(e) => visit(self.objs(), o.handle, ObjectTag::I256Object) matches Err(f) && e == self.spec_err(f),
            },
    {
        match self.visit_obj_untyped(Object { tag: ObjectTag::I256Object, handle: o.handle }) {
            Ok(HostObject::I256(x)) => Ok(*x),
            Ok(_) => Err(self.err(ScErrorType::Object, ScErrorCode::UnexpectedType)),
            Err(e) => Err(e),
        }
    }

    pub(crate) fn add_bytes(&mut self, s: Vec<u8>) -> (res: Result<BytesObject, HostError>)
        requires
            old(self).wf(),
        ensures
            stores_blob(*old(self), *final(self), BlobKind::Bytes, s@, bytes_handle(res)),
    {
        if s.len() > u32::MAX as usize {
            return Err(self.err(ScErrorType::Value, ScErrorCode::InvalidInput));
        }
        match self.add_host_object(HostObject::Bytes(s)) {
            Ok(handle) => Ok(BytesObject { handle }),
            Err(e) => Err(e),
        }
    }

    pub(crate) fn visit_bytes(&self, o: BytesObject) -> (res: Result<&Vec<u8>, HostError>)
        requires
            self.wf(),
        ensures
            match res {
                Ok(s) => {
                    &&& visit(self.objs(), o.handle, ObjectTag::BytesObject) == Ok::<ObjModel, Fault>(
                        ObjModel::Blob(BlobKind::Bytes, s@),
                    )
                    &&& s@.len() <= u32::MAX
                },
                Err(e) => visit(self.objs(), o.handle, ObjectTag::BytesObject) matches Err(f) && e == self.spec_err(f),
            },
    {
        match self.visit_obj_untyped(Object { tag: ObjectTag::BytesObject, handle: o.handle }) {
            Ok(HostObject::Bytes(s)) => {
                assert(obj_ok(
                    self.objs().take(spec_handle_to_index(o.handle)),
                    self.objs()[spec_handle_to_index(o.handle)],
                ));
                Ok(s)
            },
            Ok(_) => Err(self.err(ScErrorType::Object, ScErrorCode::UnexpectedType)),
            Err(e) => Err(e),
        }
    }

    pub(crate) fn add_string(&mut self, s: Vec<u8>) -> (res: Result<StringObject, HostError>)
        requires
            old(self).wf(),
        ensures
            stores_blob(*old(self), *final(self), BlobKind::Text, s@, string_handle(res)),
    {
        if s.len() > u32::MAX as usize {
            return Err(self.err(ScErrorType::Value, ScErrorCode::InvalidInput));
        }
        match self.add_host_object(HostObject::Text(s)) {
            Ok(handle) => Ok(StringObject { handle }),
            Err(e) => Err(e),
        }
    }

    pub(crate) fn visit_string(&self, o: StringObject) -> (res: Result<&Vec<u8>, HostError>)
        requires
            self.wf(),
        ensures
            match res {
                Ok(s) => {
                    &&& visit(self.objs(), o.handle, ObjectTag::StringObject) == Ok::<ObjModel, Fault>(
                        ObjModel::Blob(BlobKind::Text, s@),
                    )
                    &&& s@.len() <= u32::MAX
                },
                Err(e) => visit(self.objs(), o.handle, ObjectTag::StringObject) matches Err(f) && e == self.spec_err(f),
            },
    {
        match self.visit_obj_untyped(Object { tag: ObjectTag::StringObject, handle: o.handle }) {
            Ok(HostObject::Text(s)) => {
                assert(obj_ok(
                    self.objs().take(spec_handle_to_index(o.handle)),
                    self.objs()[spec_handle_to_index(o.handle)],
                ));
                Ok(s)
            },
            Ok(_) => Err(self.err(ScErrorType::Object, ScErrorCode::UnexpectedType)),
            Err(e) => Err(e),
        }
    }

    pub(crate) fn add_symbol(&mut self, s: Vec<u8>) -> (res: Result<SymbolObject, HostError>)
        requires
            old(self).wf(),
            is_symbol(s@),
        ensures
            stores(*old(self), *final(self), ObjModel::Blob(BlobKind::Symbol, s@), symbol_handle(res)),
    {
        match self.add_host_object(HostObject::Symbol(s)) {
            Ok(handle) => Ok(SymbolObject { handle }),
            Err(e) => Err(e),
        }
    }

    pub(crate) fn visit_symbol(&self, o: SymbolObject) -> (res: Result<&Vec<u8>, HostError>)
        requires
            self.wf(),
        ensures
            match res {
                Ok(s) => {
                    &&& visit(self.objs(), o.handle, ObjectTag::SymbolObject) == Ok::<ObjModel, Fault>(
                        ObjModel::Blob(BlobKind::Symbol, s@),
                    )
                    &&& s@.len() <= u32::MAX
                    &&& is_symbol(s@)
                },
                Err(e) => visit(self.objs(), o.handle, ObjectTag::SymbolObject) matches Err(f) && e == self.spec_err(f),
            },
    {
        match self.visit_obj_untyped(Object { tag: ObjectTag::SymbolObject, handle: o.handle }) {
            Ok(HostObject::Symbol(s)) => {
                assert(obj_ok(
                    self.objs().take(spec_handle_to_index(o.handle)),
                    self.objs()[spec_handle_to_index(o.handle)],
                ));
                Ok(s)
            },
            Ok(_) => Err(self.err(ScErrorType::Object, ScErrorCode::UnexpectedType)),
            Err(e) => Err(e),
        }
    }

    pub(crate) fn add_vec(&mut self, s: Vec<Val>) -> (res: Result<VecObject, HostError>)
        requires
            old(self).wf(),
            vals_ok(old(self).objs(), s@),
        ensures
            stores(*old(self), *final(self), ObjModel::Vector(s@), vec_handle(res)),
    {
        match self.add_host_object(HostObject::HostVec(s)) {
            Ok(handle) => Ok(VecObject { handle }),
            Err(e) => Err(e),
        }
    }

    pub(crate) fn visit_vec(&self, o: VecObject) -> (res: Result<&Vec<Val>, HostError>)
        requires
            self.wf(),
        ensures
            match res {
                Ok(s) => {
                    &&& visit(self.objs(), o.handle, ObjectTag::VecObject) == Ok::<ObjModel, Fault>(
                        ObjModel::Vector(s@),
                    )
                    &&& vals_ok(self.objs(), s@)
                },
                Err(e) => visit(self.objs(), o.handle, ObjectTag::VecObject) matches Err(f) && e == self.spec_err(f),
            },
    {
        match self.visit_obj_untyped(Object { tag: ObjectTag::VecObject, handle: o.handle }) {
            Ok(HostObject::HostVec(s)) => {
                proof {
                    lemma_deep_vector(self.objs(), Object { tag: ObjectTag::VecObject, handle: o.handle });
                }
                Ok(s)
            },
            Ok(_) => Err(self.err(ScErrorType::Object, ScErrorCode::UnexpectedType)),
            Err(e) => Err(e),
        }
    }

    pub(crate) fn add_map(&mut self, s: Vec<(Val, Val)>) -> (res: Result<MapObject, HostError>)
        requires
            old(self).wf(),
            map_ok(old(self).objs(), s@),
        ensures
            stores(*old(self), *final(self), ObjModel::Mapping(s@), map_handle(res)),
    {
        match self.add_host_object(HostObject::HostMap(s)) {
            Ok(handle) => Ok(MapObject { handle }),
            Err(e) => Err(e),
        }
    }

    pub(crate) fn visit_map(&self, o: MapObject) -> (res: Result<&Vec<(Val, Val)>, HostError>)
        requires
            self.wf(),
        ensures
            match res {
                Ok(s) => {
                    &&& visit(self.objs(), o.handle, ObjectTag::MapObject) == Ok::<ObjModel, Fault>(
                        ObjModel::Mapping(s@),
                    )
                    &&& map_ok(self.objs(), s@)
                },
                Err(e) => visit(self.objs(), o.handle, ObjectTag::MapObject) matches Err(f) && e == self.spec_err(f),
            },
    {
        match self.visit_obj_untyped(Object { tag: ObjectTag::MapObject, handle: o.handle }) {
            Ok(HostObject::HostMap(s)) => {
                proof {
                    lemma_deep_mapping(self.objs(), Object { tag: ObjectTag::MapObject, handle: o.handle });
                }
                Ok(s)
            },
            Ok(_) => Err(self.err(ScErrorType::Object, ScErrorCode::UnexpectedType)),
            Err(e) => Err(e),
        }
    }

    pub(crate) fn add_address(&mut self, a: ScAddress) -> (res: Result<AddressObject, HostError>)
        requires
            old(self).wf(),
        ensures
            stores(*old(self), *final(self), ObjModel::Address(a), address_handle(res)),
    {
        match self.add_host_object(HostObject::Address(a)) {
            Ok(handle) => Ok(AddressObject { handle }),
            Err(e) => Err(e),
        }
    }

    pub(crate) fn visit_address(&self, o: AddressObject) -> (res: Result<ScAddress, HostError>)
        ensures
            match res {
                Ok(a) => visit(self.objs(), o.handle, ObjectTag::AddressObject) == Ok::<ObjModel, Fault>(
                    ObjModel::Address(a),
                ),
                Err(e) => visit(self.objs(), o.handle, ObjectTag::AddressObject) matches Err(f) && e
                    == self.spec_err(f),
            },
    {
        match self.visit_obj_untyped(Object { tag: ObjectTag::AddressObject, handle: o.handle }) {
            Ok(HostObject::Address(a)) => Ok(*a),
            Ok(_) => Err(self.err(ScErrorType::Object, ScErrorCode::UnexpectedType)),
            Err(e) => Err(e),
        }
    }

    /// The address of the account that pays for the transaction, if there is
    /// one.
    pub fn source_account_address(&mut self) -> (res: Result<Option<AddressObject>, HostError>)
        requires
            old(self).wf(),
        ensures
            does_source_account_address(*old(self), *final(self), res),
    {
        match self.source_account {
            None => Ok(None),
            Some(account) => match self.add_address(ScAddress::Account(account)) {
                Ok(a) => Ok(Some(a)),
                Err(e) => Err(e),
            },
        }
    }
}

/// A byte string is added as an object, unless it is longer than the length of
/// an object can tell.
pub open spec fn stores_blob(pre: Host, post: Host, kind: BlobKind, s: Seq<u8>, res: Result<u32, HostError>) -> bool {
    if s.len() > u32::MAX {
        fails(pre, post, res, (ScErrorType::Value, ScErrorCode::InvalidInput))
    } else {
        stores(pre, post, ObjModel::Blob(kind, s), res)
    }
}

/// A list of values is made into an object: room for the list and the copying of
/// it are charged for.
pub open spec fn stores_list(pre: Host, post: Host, s: Seq<Val>, res: Result<u32, HostError>) -> bool {
    let charged = charge_bulk(pre, s.len() as int, VAL_SIZE as int);
    if charged.1 is Err {
        runs_out(charged, post, res)
    } else {
        stores(charged.0, post, ObjModel::Vector(s), res)
    }
}

/// A list of keys and values is made into a map object: room for the list and the
/// copying of it are charged for.
pub open spec fn stores_entries(pre: Host, post: Host, m: Seq<(Val, Val)>, res: Result<u32, HostError>) -> bool {
    let charged = charge_bulk(pre, m.len() as int, PAIR_SIZE as int);
    if charged.1 is Err {
        runs_out(charged, post, res)
    } else {
        stores(charged.0, post, ObjModel::Mapping(m), res)
    }
}

/// A copy of bytes is made into an object: room for the copy and the copying are
/// charged for.
pub open spec fn stores_copy(
    pre: Host,
    post: Host,
    kind: BlobKind,
    s: Seq<u8>,
    res: Result<u32, HostError>,
) -> bool {
    let charged = charge_bulk(pre, s.len() as int, 1);
    if charged.1 is Err {
        runs_out(charged, post, res)
    } else {
        stores_blob(charged.0, post, kind, s, res)
    }
}

/// What `source_account_address` does.
pub open spec fn does_source_account_address(
    pre: Host,
    post: Host,
    res: Result<Option<AddressObject>, HostError>,
) -> bool {
    match pre.source_account {
        None => post == pre && res == Ok::<Option<AddressObject>, HostError>(None),
        Some(account) => match res {
            Ok(a) => {
                &&& a is Some
                &&& stores(
                    pre,
                    post,
                    ObjModel::Address(ScAddress::Account(account)),
                    Ok(a->Some_0.handle),
                )
            },
            Err(e) => stores(
                pre,
                post,
                ObjModel::Address(ScAddress::Account(account)),
                Err(e),
            ),
        },
    }
}

} // verus!
