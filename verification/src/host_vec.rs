//! Vectors. Looking one up is charged for, and so is making one of some elements.

use crate::error::{Fault, HostError, ScErrorCode, ScErrorType};
use crate::host::{charge_bulk, charge_copy, fails, runs_out, Host, DEFAULT_HOST_DEPTH_LIMIT, VAL_SIZE};
use crate::host_buf::{index_fault, overflow_fault, slice_fault};
use crate::host_map::depth_fault;
use crate::host_map_slices::copy_into;
use crate::host_object::{
    gives_up, law_vals_fault, looks_at, stores, stores_list, val_fault, vals_fault, vec_handle, visit,
};
use crate::model::{
    deep, deep_order, deep_seq, law_order_flip, law_order_transitive, law_order_zero, order_levels, val_ok, vals_ok,
    Deep, ObjModel,
};
use crate::util::copy_vals;
use crate::val::{ObjectTag, Val, VecObject};
use vstd::prelude::*;

verus! {

/// The first place at which a thing stands in a list from position `i` on, or
/// the fault of a comparison on the way there.
pub open spec fn first_place(s: Seq<Deep>, d: Deep, i: nat) -> Result<Option<nat>, Fault>
    decreases s.len() - i,
{
    if i >= s.len() {
        Ok(None)
    } else if order_levels(d, s[i as int]) > DEFAULT_HOST_DEPTH_LIMIT {
        Err(depth_fault())
    } else if s[i as int] == d {
        Ok(Some(i))
    } else {
        first_place(s, d, i + 1)
    }
}

/// The last place at which a thing stands among the first `n` of a list, or the
/// fault of a comparison on the way back there.
pub open spec fn last_place(s: Seq<Deep>, d: Deep, n: nat) -> Result<Option<nat>, Fault>
    decreases n,
{
    if n == 0 {
        Ok(None)
    } else if order_levels(d, s[n - 1]) > DEFAULT_HOST_DEPTH_LIMIT {
        Err(depth_fault())
    } else if s[n - 1] == d {
        Ok(Some((n - 1) as nat))
    } else {
        last_place(s, d, (n - 1) as nat)
    }
}

/// An index as a value, or the value for no index.
pub open spec fn index_val(place: Result<Option<nat>, Fault>) -> Result<Val, Fault> {
    match place {
        Err(f) => Err(f),
        Ok(None) => Ok(Val::Void),
        Ok(Some(i)) => if i <= u32::MAX {
            Ok(Val::U32(i as u32))
        } else {
            Err(overflow_fault())
        },
    }
}

/// Whether a list is in order.
pub open spec fn ascending(s: Seq<Deep>) -> bool {
    forall|i: int, j: int| 0 <= i < j < s.len() ==> deep_order(#[trigger] s[i], #[trigger] s[j]) <= 0
}

/// Whether an answer of a search is right: the place of the thing, or, if the
/// list is in order, the place at which it is missing.
pub open spec fn is_search_result(s: Seq<Deep>, d: Deep, found: bool, p: int) -> bool {
    if found {
        0 <= p < s.len() && s[p] == d
    } else {
        &&& 0 <= p <= s.len()
        &&& ascending(s) ==> {
            &&& forall|i: int| 0 <= i < p ==> deep_order(#[trigger] s[i], d) < 0
            &&& forall|i: int| p <= i < s.len() ==> deep_order(#[trigger] s[i], d) > 0
        }
    }
}

/// The answer of a search as one number: the place, and two to the power of 32
/// more where the thing is there.
pub open spec fn search_number(found: bool, p: int) -> int {
    if found {
        0x1_0000_0000 + p
    } else {
        p
    }
}

/// The first place of a thing is a place of it, and it stands nowhere before.
pub proof fn law_first_place(s: Seq<Deep>, d: Deep, i: nat)
    ensures
        match first_place(s, d, i) {
            Ok(Some(k)) => {
                &&& i <= k < s.len()
                &&& s[k as int] == d
                &&& forall|j: int| i <= j < k ==> #[trigger] s[j] != d
            },
            Ok(None) => forall|j: int| i <= j < s.len() ==> #[trigger] s[j] != d,
            Err(f) => exists|j: int|
                i <= j < s.len() && order_levels(d, #[trigger] s[j]) > DEFAULT_HOST_DEPTH_LIMIT,
        },
    decreases s.len() - i,
{
    if i < s.len() {
        if order_levels(d, s[i as int]) > DEFAULT_HOST_DEPTH_LIMIT {
        } else if s[i as int] != d {
            law_first_place(s, d, i + 1);
        }
    }
}

/// The last place of a thing is a place of it, and it stands nowhere after.
pub proof fn law_last_place(s: Seq<Deep>, d: Deep, n: nat)
    requires
        n <= s.len(),
    ensures
        match last_place(s, d, n) {
            Ok(Some(k)) => {
                &&& k < n
                &&& s[k as int] == d
                &&& forall|j: int| k < j < n ==> #[trigger] s[j] != d
            },
            Ok(None) => forall|j: int| 0 <= j < n ==> #[trigger] s[j] != d,
            Err(f) => exists|j: int| 0 <= j < n && order_levels(d, #[trigger] s[j]) > DEFAULT_HOST_DEPTH_LIMIT,
        },
    decreases n,
{
    if n > 0 {
        if order_levels(d, s[n - 1]) > DEFAULT_HOST_DEPTH_LIMIT {
        } else if s[n - 1] != d {
            law_last_place(s, d, (n - 1) as nat);
        }
    }
}

/// What was put at an index is there, and nothing else has changed; what was
/// pushed or inserted is gone after popping or removing it.
pub proof fn law_vec_put_get_push_pop(s: Seq<Val>, i: int, j: int, x: Val)
    requires
        0 <= i < s.len(),
        0 <= j < s.len(),
    ensures
        s.update(i, x)[j] == (if i == j {
            x
        } else {
            s[j]
        }),
        s.push(x).last() == x,
        s.push(x).drop_last() == s,
        s.insert(0, x).first() == x,
        s.insert(0, x).drop_first() == s,
        s.insert(i, x).remove(i) == s,
{
    assert(s.push(x).drop_last() =~= s);
    assert(s.insert(0, x).drop_first() =~= s);
    assert(s.insert(i, x).remove(i) =~= s);
}

/// The parts of a vector put together are the vector.
pub proof fn law_vec_slices_append(s: Seq<Val>, i: int)
    requires
        0 <= i <= s.len(),
    ensures
        s.subrange(0, i) + s.subrange(i, s.len() as int) == s,
{
    assert(s.subrange(0, i) + s.subrange(i, s.len() as int) =~= s);
}

impl Host {
    /// A vector of a slice. Copying the slice is charged for.
    pub fn vec_new_from_slice(&mut self, vals: &[Val]) -> (res: Result<VecObject, HostError>)
        requires
            old(self).wf(),
        ensures
            final(self).wf(),
            does_vec_new_from_slice(*old(self), *final(self), vals@, res),
    {
        self.charge_bulk_init_cpy(vals.len() as u64, VAL_SIZE)?;
        self.check_vals_integrity(vals)?;
        proof {
            law_vals_fault(self.objs(), vals@);
        }
        self.add_vec(copy_vals(vals))
    }

    /// Writes a vector to a slice of the same length.
    pub fn vec_unpack_to_slice(&mut self, vec: VecObject, vals: &mut [Val]) -> (res: Result<(), HostError>)
        requires
            old(self).wf(),
        ensures
            final(self).wf(),
            does_vec_unpack_to_slice(*old(self), *final(self), vec, old(vals)@, final(vals)@, res),
    {
        self.charge_visit()?;
        let from = copy_vals(self.visit_vec(vec)?.as_slice());
        if from.len() != vals.len() {
            return Err(self.err(ScErrorType::Object, ScErrorCode::UnexpectedSize));
        }
        self.charge_shallow_copy(from.len() as u64, VAL_SIZE)?;
        copy_into(vals, from.as_slice());
        Ok(())
    }

    /// An empty vector.
    pub fn vec_new(&mut self) -> (res: Result<VecObject, HostError>)
        requires
            old(self).wf(),
        ensures
            final(self).wf(),
            stores(*old(self), *final(self), ObjModel::Vector(Seq::empty()), vec_handle(res)),
    {
        let empty: Vec<Val> = Vec::new();
        self.add_vec(empty)
    }

    /// The vector with an element set.
    pub fn vec_put(&mut self, v: VecObject, i: u32, x: Val) -> (res: Result<VecObject, HostError>)
        requires
            old(self).wf(),
        ensures
            final(self).wf(),
            does_vec_put(*old(self), *final(self), v, i, x, res),
    {
        self.check_val_integrity(x)?;
        self.charge_visit()?;
        let s = self.visit_vec(v)?;
        self.validate_index_lt_bound(i, s.len())?;
        let mut new = copy_vals(s.as_slice());
        new[i as usize] = x;
        proof {
            let objs = self.objs();
            assert forall|j: int| 0 <= j < new@.len() implies val_ok(objs, #[trigger] new@[j]) by {
                assert(val_ok(objs, s@[j]));
            }
        }
        self.add_list(new)
    }

    /// The element at an index.
    pub fn vec_get(&mut self, v: VecObject, i: u32) -> (res: Result<Val, HostError>)
        requires
            old(self).wf(),
        ensures
            final(self).wf(),
            does_vec_get(*old(self), *final(self), v, i, res),
    {
        self.charge_visit()?;
        let s = self.visit_vec(v)?;
        self.validate_index_lt_bound(i, s.len())?;
        Ok(s[i as usize])
    }

    /// The vector without the element at an index.
    pub fn vec_del(&mut self, v: VecObject, i: u32) -> (res: Result<VecObject, HostError>)
        requires
            old(self).wf(),
        ensures
            final(self).wf(),
            does_vec_del(*old(self), *final(self), v, i, res),
    {
        self.charge_visit()?;
        let s = self.visit_vec(v)?;
        self.validate_index_lt_bound(i, s.len())?;
        let mut new = copy_vals(s.as_slice());
        let _ = new.remove(i as usize);
        proof {
            let objs = self.objs();
            assert forall|j: int| 0 <= j < new@.len() implies val_ok(objs, #[trigger] new@[j]) by {
                assert(val_ok(objs, s@[if j < i { j } else { j + 1 }]));
            }
        }
        self.add_list(new)
    }

    /// The length of a vector.
    pub fn vec_len(&mut self, v: VecObject) -> (res: Result<u32, HostError>)
        requires
            old(self).wf(),
        ensures
            final(self).wf(),
            does_vec_len(*old(self), *final(self), v, res),
    {
        self.charge_visit()?;
        let s = self.visit_vec(v)?;
        self.usize_to_u32(s.len())
    }

    /// The vector with an element added at its front.
    pub fn vec_push_front(&mut self, v: VecObject, x: Val) -> (res: Result<VecObject, HostError>)
        requires
            old(self).wf(),
        ensures
            final(self).wf(),
            does_vec_push_front(*old(self), *final(self), v, x, res),
    {
        self.check_val_integrity(x)?;
        self.charge_visit()?;
        let s = self.visit_vec(v)?;
        let mut new = copy_vals(s.as_slice());
        new.insert(0, x);
        proof {
            let objs = self.objs();
            assert forall|j: int| 0 <= j < new@.len() implies val_ok(objs, #[trigger] new@[j]) by {
                if j > 0 {
                    assert(val_ok(objs, s@[j - 1]));
                }
            }
        }
        self.add_list(new)
    }

    /// The vector without its first element.
    pub fn vec_pop_front(&mut self, v: VecObject) -> (res: Result<VecObject, HostError>)
        requires
            old(self).wf(),
        ensures
            final(self).wf(),
            does_vec_pop_front(*old(self), *final(self), v, res),
    {
        self.charge_visit()?;
        let s = self.visit_vec(v)?;
        if s.len() == 0 {
            return Err(self.err(ScErrorType::Object, ScErrorCode::IndexBounds));
        }
        let mut new = copy_vals(s.as_slice());
        let _ = new.remove(0);
        assert(new@ =~= s@.drop_first());
        proof {
            let objs = self.objs();
            assert forall|j: int| 0 <= j < new@.len() implies val_ok(objs, #[trigger] new@[j]) by {
                assert(val_ok(objs, s@[j + 1]));
            }
        }
        self.add_list(new)
    }

    /// The vector with an element added at its end.
    pub fn vec_push_back(&mut self, v: VecObject, x: Val) -> (res: Result<VecObject, HostError>)
        requires
            old(self).wf(),
        ensures
            final(self).wf(),
            does_vec_push_back(*old(self), *final(self), v, x, res),
    {
        self.check_val_integrity(x)?;
        self.charge_visit()?;
        let s = self.visit_vec(v)?;
        let mut new = copy_vals(s.as_slice());
        new.push(x);
        proof {
            let objs = self.objs();
            assert forall|j: int| 0 <= j < new@.len() implies val_ok(objs, #[trigger] new@[j]) by {
                if j < s@.len() {
                    assert(val_ok(objs, s@[j]));
                }
            }
        }
        self.add_list(new)
    }

    /// The vector without its last element.
    pub fn vec_pop_back(&mut self, v: VecObject) -> (res: Result<VecObject, HostError>)
        requires
            old(self).wf(),
        ensures
            final(self).wf(),
            does_vec_pop_back(*old(self), *final(self), v, res),
    {
        self.charge_visit()?;
        let s = self.visit_vec(v)?;
        let mut new = copy_vals(s.as_slice());
        if new.pop().is_none() {
            return Err(self.err(ScErrorType::Object, ScErrorCode::IndexBounds));
        }
        proof {
            let objs = self.objs();
            assert forall|j: int| 0 <= j < new@.len() implies val_ok(objs, #[trigger] new@[j]) by {
                assert(val_ok(objs, s@[j]));
            }
        }
        self.add_list(new)
    }

    /// The first element.
    pub fn vec_front(&mut self, v: VecObject) -> (res: Result<Val, HostError>)
        requires
            old(self).wf(),
        ensures
            final(self).wf(),
            does_vec_front(*old(self), *final(self), v, res),
    {
        self.charge_visit()?;
        let s = self.visit_vec(v)?;
        if s.len() == 0 {
            return Err(self.err(ScErrorType::Object, ScErrorCode::IndexBounds));
        }
        Ok(s[0])
    }

    /// The last element.
    pub fn vec_back(&mut self, v: VecObject) -> (res: Result<Val, HostError>)
        requires
            old(self).wf(),
        ensures
            final(self).wf(),
            does_vec_back(*old(self), *final(self), v, res),
    {
        self.charge_visit()?;
        let s = self.visit_vec(v)?;
        if s.len() == 0 {
            return Err(self.err(ScErrorType::Object, ScErrorCode::IndexBounds));
        }
        Ok(s[s.len() - 1])
    }

    /// The vector with an element put in before an index.
    pub fn vec_insert(&mut self, v: VecObject, i: u32, x: Val) -> (res: Result<VecObject, HostError>)
        requires
            old(self).wf(),
        ensures
            final(self).wf(),
            does_vec_insert(*old(self), *final(self), v, i, x, res),
    {
        self.check_val_integrity(x)?;
        self.charge_visit()?;
        let s = self.visit_vec(v)?;
        self.validate_index_le_bound(i, s.len())?;
        let mut new = copy_vals(s.as_slice());
        new.insert(i as usize, x);
        proof {
            let objs = self.objs();
            assert forall|j: int| 0 <= j < new@.len() implies val_ok(objs, #[trigger] new@[j]) by {
                if j < i {
                    assert(val_ok(objs, s@[j]));
                } else if j > i {
                    assert(val_ok(objs, s@[j - 1]));
                }
            }
        }
        self.add_list(new)
    }

    /// Two vectors as one.
    pub fn vec_append(&mut self, v1: VecObject, v2: VecObject) -> (res: Result<VecObject, HostError>)
        requires
            old(self).wf(),
        ensures
            final(self).wf(),
            does_vec_append(*old(self), *final(self), v1, v2, res),
    {
        self.charge_visit()?;
        let mut new = copy_vals(self.visit_vec(v1)?.as_slice());
        let ghost s1 = new;
        self.charge_visit()?;
        let s2 = self.visit_vec(v2)?;
        let _ = self.validate_usize_sum_fits_in_u32(new.len(), s2.len())?;
        new.extend_from_slice(s2.as_slice());
        assert(new@ =~= s1@ + s2@);
        proof {
            let objs = self.objs();
            assert forall|j: int| 0 <= j < new@.len() implies val_ok(objs, #[trigger] new@[j]) by {
                if j < s1@.len() {
                    assert(val_ok(objs, s1@[j]));
                } else {
                    assert(val_ok(objs, s2@[j - s1@.len()]));
                }
            }
        }
        self.add_list(new)
    }

    /// Part of a vector.
    pub fn vec_slice(&mut self, v: VecObject, start: u32, end: u32) -> (res: Result<VecObject, HostError>)
        requires
            old(self).wf(),
        ensures
            final(self).wf(),
            does_vec_slice(*old(self), *final(self), v, start, end, res),
    {
        self.charge_visit()?;
        let s = self.visit_vec(v)?;
        self.valid_range_from_start_end_bound(start, end, s.len())?;
        let mut new: Vec<Val> = Vec::new();
        let mut j: usize = start as usize;
        while j < end as usize
            invariant
                start <= j <= end <= s@.len(),
                new@ == s@.subrange(start as int, j as int),
            decreases end - j,
        {
            new.push(s[j]);
            assert(new@ =~= s@.subrange(start as int, j + 1));
            j += 1;
        }
        proof {
            let objs = self.objs();
            assert forall|j: int| 0 <= j < new@.len() implies val_ok(objs, #[trigger] new@[j]) by {
                assert(val_ok(objs, s@[start + j]));
            }
        }
        self.add_list(new)
    }

    /// The first index at which an element stands, or nothing.
    pub fn vec_first_index_of(&mut self, v: VecObject, x: Val) -> (res: Result<Val, HostError>)
        requires
            old(self).wf(),
        ensures
            final(self).wf(),
            does_vec_first_index_of(*old(self), *final(self), v, x, res),
    {
        self.check_val_integrity(x)?;
        self.charge_visit()?;
        let s = self.visit_vec(v)?;
        let ghost list = deep_seq(self.objs(), s@);
        let ghost d = deep(self.objs(), x);
        let mut i: usize = 0;
        while i < s.len()
            invariant
                self.wf(),
                val_fault(self.objs(), x) is None,
                vals_ok(self.objs(), s@),
                val_fault(old(self).objs(), x) is None,
                looks_at(*old(self), v.handle, ObjectTag::VecObject) == (
                    *self,
                    Ok::<ObjModel, HostError>(ObjModel::Vector(s@)),
                ),
                list == deep_seq(self.objs(), s@),
                d == deep(self.objs(), x),
                i <= s@.len(),
                first_place(list, d, 0) == first_place(list, d, i as nat),
            decreases s@.len() - i,
        {
            let c: i64 = self.order_vals(x, s[i], DEFAULT_HOST_DEPTH_LIMIT)?;
            proof {
                law_order_zero(d, list[i as int]);
            }
            if c == 0 {
                return Ok(Val::U32(self.usize_to_u32(i)?));
            }
            i += 1;
        }
        Ok(Val::Void)
    }

    /// The last index at which an element stands, or nothing.
    pub fn vec_last_index_of(&mut self, v: VecObject, x: Val) -> (res: Result<Val, HostError>)
        requires
            old(self).wf(),
        ensures
            final(self).wf(),
            does_vec_last_index_of(*old(self), *final(self), v, x, res),
    {
        self.check_val_integrity(x)?;
        self.charge_visit()?;
        let s = self.visit_vec(v)?;
        let ghost list = deep_seq(self.objs(), s@);
        let ghost d = deep(self.objs(), x);
        let mut i: usize = s.len();
        while i > 0
            invariant
                self.wf(),
                val_fault(self.objs(), x) is None,
                vals_ok(self.objs(), s@),
                val_fault(old(self).objs(), x) is None,
                looks_at(*old(self), v.handle, ObjectTag::VecObject) == (
                    *self,
                    Ok::<ObjModel, HostError>(ObjModel::Vector(s@)),
                ),
                list == deep_seq(self.objs(), s@),
                d == deep(self.objs(), x),
                i <= s@.len(),
                last_place(list, d, s@.len()) == last_place(list, d, i as nat),
            decreases i,
        {
            let c: i64 = self.order_vals(x, s[i - 1], DEFAULT_HOST_DEPTH_LIMIT)?;
            proof {
                law_order_zero(d, list[i - 1]);
            }
            if c == 0 {
                return Ok(Val::U32(self.usize_to_u32(i - 1)?));
            }
            i -= 1;
        }
        Ok(Val::Void)
    }

    /// Searches a vector that is in order for an element.
    pub fn vec_binary_search(&mut self, v: VecObject, x: Val) -> (res: Result<u64, HostError>)
        requires
            old(self).wf(),
        ensures
            final(self).wf(),
            does_vec_binary_search(*old(self), *final(self), v, x, res),
    {
        self.check_val_integrity(x)?;
        self.charge_visit()?;
        let s = self.visit_vec(v)?;
        let (found, p): (bool, usize) = self.search_list(s.as_slice(), x)?;
        self.u64_from_binary_search_result(found, p)
    }

    fn u64_from_binary_search_result(&self, found: bool, p: usize) -> (res: Result<u64, HostError>)
        ensures
            match res {
                Ok(r) => p <= u32::MAX && r == search_number(found, p as int),
                Err(e) => p > u32::MAX && e == self.spec_err(overflow_fault()),
            },
    {
        let p: u32 = self.usize_to_u32(p)?;
        Ok(
            if found {
                0x1_0000_0000 + p as u64
            } else {
                p as u64
            },
        )
    }

    fn search_list(&self, s: &[Val], x: Val) -> (res: Result<(bool, usize), HostError>)
        requires
            self.wf(),
            vals_ok(self.objs(), s@),
            val_ok(self.objs(), x),
        ensures
            match res {
                Ok((found, p)) => is_search_result(
                    deep_seq(self.objs(), s@),
                    deep(self.objs(), x),
                    found,
                    p as int,
                ),
                Err(e) => e == self.spec_err(depth_fault()) && exists|i: int|
                    0 <= i < s@.len() && order_levels(
                        #[trigger] deep_seq(self.objs(), s@)[i],
                        deep(self.objs(), x),
                    ) > DEFAULT_HOST_DEPTH_LIMIT,
            },
    {
        let ghost list = deep_seq(self.objs(), s@);
        let ghost d = deep(self.objs(), x);
        let mut lo: usize = 0;
        let mut hi: usize = s.len();
        while lo < hi
            invariant
                self.wf(),
                vals_ok(self.objs(), s@),
                val_ok(self.objs(), x),
                list == deep_seq(self.objs(), s@),
                d == deep(self.objs(), x),
                lo <= hi <= s@.len(),
                ascending(list) ==> forall|i: int| 0 <= i < lo ==> deep_order(#[trigger] list[i], d) < 0,
                ascending(list) ==> forall|i: int| hi <= i < list.len() ==> deep_order(#[trigger] list[i], d) > 0,
            decreases hi - lo,
        {
            let mid: usize = lo + (hi - lo) / 2;
            assert(val_ok(self.objs(), s@[mid as int]));
            let ghost dm = list[mid as int];
            let c: i64 = self.order_vals(s[mid], x, DEFAULT_HOST_DEPTH_LIMIT)?;
            if c == 0 {
                proof {
                    law_order_zero(dm, d);
                }
                return Ok((true, mid));
            } else if c < 0 {
                proof {
                    if ascending(list) {
                        assert forall|i: int| 0 <= i < mid + 1 implies deep_order(#[trigger] list[i], d) < 0 by {
                            if i < mid {
                                assert(deep_order(list[i], list[mid as int]) <= 0);
                                law_order_transitive(list[i], dm, d);
                            }
                        }
                    }
                }
                lo = mid + 1;
            } else {
                proof {
                    if ascending(list) {
                        assert forall|i: int| mid <= i < list.len() implies deep_order(#[trigger] list[i], d) > 0 by {
                            if mid < i {
                                assert(deep_order(list[mid as int], list[i]) <= 0);
                                law_order_flip(dm, d);
                                law_order_flip(list[i], d);
                                law_order_transitive(d, dm, list[i]);
                            }
                        }
                    }
                }
                hi = mid;
            }
        }
        Ok((false, lo))
    }

    /// The elements of a vector, as the arguments of a call.
    pub fn call_args_from_obj(&self, args: VecObject) -> (res: Result<Vec<Val>, HostError>)
        requires
            self.wf(),
        ensures
            match visit(self.objs(), args.handle, ObjectTag::VecObject) {
                Err(f) => res == Err::<Vec<Val>, HostError>(self.spec_err(f)),
                Ok(obj) => res is Ok && res->Ok_0@ == obj->Vector_0 && vals_ok(self.objs(), obj->Vector_0),
            },
    {
        Ok(copy_vals(self.visit_vec(args)?.as_slice()))
    }
}

/// What `vec_new_from_slice` does.
pub open spec fn does_vec_new_from_slice(
    pre: Host,
    post: Host,
    vals: Seq<Val>,
    res: Result<VecObject, HostError>,
) -> bool {
    ({
        let copied = charge_bulk(pre, vals.len() as int, VAL_SIZE as int);
        if copied.1 is Err {
            runs_out(copied, post, res)
        } else {
            match vals_fault(pre.objs(), vals) {
                Some(f) => fails(copied.0, post, res, f),
                None => stores(copied.0, post, ObjModel::Vector(vals), vec_handle(res)),
            }
        }
    })
}

/// What `vec_put` does.
pub open spec fn does_vec_put(
    pre: Host,
    post: Host,
    v: VecObject,
    i: u32,
    x: Val,
    res: Result<VecObject, HostError>,
) -> bool {
    match val_fault(pre.objs(), x) {
        Some(f) => fails(pre, post, res, f),
        None => match looks_at(pre, v.handle, ObjectTag::VecObject) {
            (h, Err(e)) => gives_up(h, post, res, e),
            (h, Ok(obj)) => if i >= obj->Vector_0.len() {
                fails(h, post, res, index_fault())
            } else {
                stores_list(h, post, obj->Vector_0.update(i as int, x), vec_handle(res))
            },
        },
    }
}

/// What `vec_get` does.
pub open spec fn does_vec_get(
    pre: Host,
    post: Host,
    v: VecObject,
    i: u32,
    res: Result<Val, HostError>,
) -> bool {
    (post, res) == match looks_at(pre, v.handle, ObjectTag::VecObject) {
        (h, Err(e)) => (h, Err::<Val, HostError>(e)),
        (h, Ok(obj)) => (
            h,
            if i < obj->Vector_0.len() {
                Ok(obj->Vector_0[i as int])
            } else {
                Err(pre.spec_err(index_fault()))
            },
        ),
    }
}

/// What `vec_del` does.
pub open spec fn does_vec_del(
    pre: Host,
    post: Host,
    v: VecObject,
    i: u32,
    res: Result<VecObject, HostError>,
) -> bool {
    match looks_at(pre, v.handle, ObjectTag::VecObject) {
        (h, Err(e)) => gives_up(h, post, res, e),
        (h, Ok(obj)) => if i >= obj->Vector_0.len() {
            fails(h, post, res, index_fault())
        } else {
            stores_list(h, post, obj->Vector_0.remove(i as int), vec_handle(res))
        },
    }
}

/// What `vec_len` does.
pub open spec fn does_vec_len(
    pre: Host,
    post: Host,
    v: VecObject,
    res: Result<u32, HostError>,
) -> bool {
    (post, res) == match looks_at(pre, v.handle, ObjectTag::VecObject) {
        (h, Err(e)) => (h, Err::<u32, HostError>(e)),
        (h, Ok(obj)) => (
            h,
            if obj->Vector_0.len() <= u32::MAX {
                Ok(obj->Vector_0.len() as u32)
            } else {
                Err(pre.spec_err(overflow_fault()))
            },
        ),
    }
}

/// What `vec_push_front` does.
pub open spec fn does_vec_push_front(
    pre: Host,
    post: Host,
    v: VecObject,
    x: Val,
    res: Result<VecObject, HostError>,
) -> bool {
    match val_fault(pre.objs(), x) {
        Some(f) => fails(pre, post, res, f),
        None => match looks_at(pre, v.handle, ObjectTag::VecObject) {
            (h, Err(e)) => gives_up(h, post, res, e),
            (h, Ok(obj)) => stores_list(h, post, obj->Vector_0.insert(0, x), vec_handle(res)),
        },
    }
}

/// What `vec_pop_front` does.
pub open spec fn does_vec_pop_front(
    pre: Host,
    post: Host,
    v: VecObject,
    res: Result<VecObject, HostError>,
) -> bool {
    match looks_at(pre, v.handle, ObjectTag::VecObject) {
        (h, Err(e)) => gives_up(h, post, res, e),
        (h, Ok(obj)) => if obj->Vector_0.len() == 0 {
            fails(h, post, res, index_fault())
        } else {
            stores_list(h, post, obj->Vector_0.drop_first(), vec_handle(res))
        },
    }
}

/// What `vec_push_back` does.
pub open spec fn does_vec_push_back(
    pre: Host,
    post: Host,
    v: VecObject,
    x: Val,
    res: Result<VecObject, HostError>,
) -> bool {
    match val_fault(pre.objs(), x) {
        Some(f) => fails(pre, post, res, f),
        None => match looks_at(pre, v.handle, ObjectTag::VecObject) {
            (h, Err(e)) => gives_up(h, post, res, e),
            (h, Ok(obj)) => stores_list(h, post, obj->Vector_0.push(x), vec_handle(res)),
        },
    }
}

/// What `vec_pop_back` does.
pub open spec fn does_vec_pop_back(
    pre: Host,
    post: Host,
    v: VecObject,
    res: Result<VecObject, HostError>,
) -> bool {
    match looks_at(pre, v.handle, ObjectTag::VecObject) {
        (h, Err(e)) => gives_up(h, post, res, e),
        (h, Ok(obj)) => if obj->Vector_0.len() == 0 {
            fails(h, post, res, index_fault())
        } else {
            stores_list(h, post, obj->Vector_0.drop_last(), vec_handle(res))
        },
    }
}

/// What `vec_front` does.
pub open spec fn does_vec_front(
    pre: Host,
    post: Host,
    v: VecObject,
    res: Result<Val, HostError>,
) -> bool {
    (post, res) == match looks_at(pre, v.handle, ObjectTag::VecObject) {
        (h, Err(e)) => (h, Err::<Val, HostError>(e)),
        (h, Ok(obj)) => (
            h,
            if obj->Vector_0.len() > 0 {
                Ok(obj->Vector_0[0])
            } else {
                Err(pre.spec_err(index_fault()))
            },
        ),
    }
}

/// What `vec_back` does.
pub open spec fn does_vec_back(
    pre: Host,
    post: Host,
    v: VecObject,
    res: Result<Val, HostError>,
) -> bool {
    (post, res) == match looks_at(pre, v.handle, ObjectTag::VecObject) {
        (h, Err(e)) => (h, Err::<Val, HostError>(e)),
        (h, Ok(obj)) => (
            h,
            if obj->Vector_0.len() > 0 {
                Ok(obj->Vector_0.last())
            } else {
                Err(pre.spec_err(index_fault()))
            },
        ),
    }
}

/// What `vec_insert` does.
pub open spec fn does_vec_insert(
    pre: Host,
    post: Host,
    v: VecObject,
    i: u32,
    x: Val,
    res: Result<VecObject, HostError>,
) -> bool {
    match val_fault(pre.objs(), x) {
        Some(f) => fails(pre, post, res, f),
        None => match looks_at(pre, v.handle, ObjectTag::VecObject) {
            (h, Err(e)) => gives_up(h, post, res, e),
            (h, Ok(obj)) => if i > obj->Vector_0.len() {
                fails(h, post, res, index_fault())
            } else {
                stores_list(h, post, obj->Vector_0.insert(i as int, x), vec_handle(res))
            },
        },
    }
}

/// What `vec_append` does.
pub open spec fn does_vec_append(
    pre: Host,
    post: Host,
    v1: VecObject,
    v2: VecObject,
    res: Result<VecObject, HostError>,
) -> bool {
    match looks_at(pre, v1.handle, ObjectTag::VecObject) {
        (h, Err(e)) => gives_up(h, post, res, e),
        (h, Ok(o1)) => match looks_at(h, v2.handle, ObjectTag::VecObject) {
            (h, Err(e)) => gives_up(h, post, res, e),
            (h, Ok(o2)) => if o1->Vector_0.len() + o2->Vector_0.len() > u32::MAX {
                fails(h, post, res, overflow_fault())
            } else {
                stores_list(h, post, o1->Vector_0 + o2->Vector_0, vec_handle(res))
            },
        },
    }
}

/// What `vec_slice` does.
pub open spec fn does_vec_slice(
    pre: Host,
    post: Host,
    v: VecObject,
    start: u32,
    end: u32,
    res: Result<VecObject, HostError>,
) -> bool {
    match looks_at(pre, v.handle, ObjectTag::VecObject) {
        (h, Err(e)) => gives_up(h, post, res, e),
        (h, Ok(obj)) => match slice_fault(start as int, end as int, obj->Vector_0.len() as int) {
            Some(f) => fails(h, post, res, f),
            None => stores_list(
                h,
                post,
                obj->Vector_0.subrange(start as int, end as int),
                vec_handle(res),
            ),
        },
    }
}

/// What `vec_first_index_of` does.
pub open spec fn does_vec_first_index_of(
    pre: Host,
    post: Host,
    v: VecObject,
    x: Val,
    res: Result<Val, HostError>,
) -> bool {
    match val_fault(pre.objs(), x) {
        Some(f) => fails(pre, post, res, f),
        None => match looks_at(pre, v.handle, ObjectTag::VecObject) {
            (h, Err(e)) => gives_up(h, post, res, e),
            (h, Ok(obj)) => {
                &&& post == h
                &&& res == match index_val(
                    first_place(deep_seq(h.objs(), obj->Vector_0), deep(h.objs(), x), 0),
                ) {
                    Ok(r) => Ok::<Val, HostError>(r),
                    Err(f) => Err(h.spec_err(f)),
                }
            },
        },
    }
}

/// What `vec_last_index_of` does.
pub open spec fn does_vec_last_index_of(
    pre: Host,
    post: Host,
    v: VecObject,
    x: Val,
    res: Result<Val, HostError>,
) -> bool {
    match val_fault(pre.objs(), x) {
        Some(f) => fails(pre, post, res, f),
        None => match looks_at(pre, v.handle, ObjectTag::VecObject) {
            (h, Err(e)) => gives_up(h, post, res, e),
            (h, Ok(obj)) => {
                &&& post == h
                &&& res == match index_val(
                    last_place(deep_seq(h.objs(), obj->Vector_0), deep(h.objs(), x), obj->Vector_0.len()),
                ) {
                    Ok(r) => Ok::<Val, HostError>(r),
                    Err(f) => Err(h.spec_err(f)),
                }
            },
        },
    }
}

/// What `vec_binary_search` does.
pub open spec fn does_vec_binary_search(
    pre: Host,
    post: Host,
    v: VecObject,
    x: Val,
    res: Result<u64, HostError>,
) -> bool {
    match val_fault(pre.objs(), x) {
        Some(f) => fails(pre, post, res, f),
        None => match looks_at(pre, v.handle, ObjectTag::VecObject) {
            (h, Err(e)) => gives_up(h, post, res, e),
            (h, Ok(obj)) => {
                let s = deep_seq(h.objs(), obj->Vector_0);
                let d = deep(h.objs(), x);
                &&& post == h
                &&& match res {
                    Ok(r) => if r >= 0x1_0000_0000 {
                        is_search_result(s, d, true, r - 0x1_0000_0000)
                    } else {
                        is_search_result(s, d, false, r as int)
                    },
                    Err(e) => {
                        ||| e == h.spec_err(depth_fault()) && exists|i: int|
                            0 <= i < s.len() && order_levels(#[trigger] s[i], d) > DEFAULT_HOST_DEPTH_LIMIT
                        ||| e == h.spec_err(overflow_fault()) && s.len() > u32::MAX
                    },
                }
            },
        },
    }
}

/// What `vec_unpack_to_slice` does.
pub open spec fn does_vec_unpack_to_slice(
    pre: Host,
    post: Host,
    vec: VecObject,
    vals: Seq<Val>,
    changed: Seq<Val>,
    res: Result<(), HostError>,
) -> bool {
    &&& changed == if res is Ok {
        visit(pre.objs(), vec.handle, ObjectTag::VecObject)->Ok_0->Vector_0
    } else {
        vals
    }
    &&& match looks_at(pre, vec.handle, ObjectTag::VecObject) {
        (h, Err(e)) => gives_up(h, post, res, e),
        (h, Ok(obj)) => if obj->Vector_0.len() != vals.len() {
            fails(h, post, res, (ScErrorType::Object, ScErrorCode::UnexpectedSize))
        } else {
            (post, res) == charge_copy(h, obj->Vector_0.len() as int, VAL_SIZE as int)
        },
    }
}

} // verus!
