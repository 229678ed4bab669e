//! Byte strings and texts.

use crate::budget::ContractCostType;
use crate::error::{Fault, HostError, ScErrorCode, ScErrorType};
use crate::host::{charge, charge_bulk, charge_copy, fails, runs_out, Host, DEFAULT_HOST_DEPTH_LIMIT};
use crate::host_convert::{adds, tree_val};
use crate::host_map::depth_fault;
use crate::host_memory::{outside_memory, vm_fault};
use crate::host_object::{
    bytes_handle, gives_up, law_stored_object_is_found, looks_at, stores, stores_blob, stores_copy, string_handle,
    symbol_handle, val_fault, visit,
};
use crate::memory::{mem_range, overwritten, VmCaller};
use crate::model::{deep, nesting, BlobKind, Deep, ObjModel};
use crate::round_trip::{law_value_comes_back, size};
use crate::scval::{sc_deep, ScVal};
use crate::symbol::{check_symbol_chars, is_symbol, SCSYMBOL_LIMIT};
use crate::util::copy_bytes;
use crate::val::{BytesObject, ObjectTag, StringObject, SymbolObject, Val, MAX_OBJECTS};
use crate::xdr_value::{
    scval_from_xdr, scval_to_xdr, tree_of_xdr, xdr_of_tree, XdrFault, DEFAULT_XDR_RW_DEPTH_LIMIT,
};
use vstd::prelude::*;
use vstd::string::*;

verus! {

/// The fault of an index that is not below, or not at most, a bound.
pub open spec fn index_fault() -> Fault {
    (ScErrorType::Object, ScErrorCode::IndexBounds)
}

/// The fault of a sum that does not fit.
pub open spec fn overflow_fault() -> Fault {
    (ScErrorType::Value, ScErrorCode::ArithDomain)
}

/// The fault of an argument that does not fit.
pub open spec fn input_fault() -> Fault {
    (ScErrorType::Value, ScErrorCode::InvalidInput)
}

/// What is wrong with a range of a byte string, if anything is.
pub open spec fn range_fault(pos: int, len: int, bound: int) -> Option<Fault> {
    if pos + len > u32::MAX {
        Some(overflow_fault())
    } else if pos + len > bound {
        Some(index_fault())
    } else {
        None
    }
}

/// What is wrong with a range from `start` to `end`, if anything is.
pub open spec fn slice_fault(start: int, end: int, bound: int) -> Option<Fault> {
    if start > bound || end > bound {
        Some(index_fault())
    } else if start > end {
        Some(input_fault())
    } else {
        None
    }
}

/// A byte string with another written over it, grown with zeros where it is too
/// short for that.
pub open spec fn patched(s: Seq<u8>, pos: int, patch: Seq<u8>) -> Seq<u8> {
    let end = pos + patch.len();
    Seq::new(
        if s.len() < end {
            end as nat
        } else {
            s.len()
        },
        |j: int|
            if pos <= j < end {
                patch[j - pos]
            } else if j < s.len() {
                s[j]
            } else {
                0
            },
    )
}

/// What was written over a byte string is read from it.
pub proof fn law_patch_is_read_back(s: Seq<u8>, pos: int, patch: Seq<u8>)
    requires
        0 <= pos,
    ensures
        patched(s, pos, patch).subrange(pos, pos + patch.len()) == patch,
        forall|j: int|
            0 <= j < s.len() && !(pos <= j < pos + patch.len()) ==> #[trigger] patched(s, pos, patch)[j] == s[j],
{
    assert(patched(s, pos, patch).subrange(pos, pos + patch.len()) =~= patch);
}

/// A byte that was set is read, and all others are as they were; a byte that was
/// pushed is the last, and popping it gives back what was there before.
pub proof fn law_bytes_put_get_push_pop(s: Seq<u8>, i: int, j: int, u: u8)
    requires
        0 <= i < s.len(),
        0 <= j < s.len(),
    ensures
        s.update(i, u)[j] == (if i == j {
            u
        } else {
            s[j]
        }),
        s.push(u).last() == u,
        s.push(u).drop_last() == s,
        s.insert(i, u).remove(i) == s,
{
    assert(s.push(u).drop_last() =~= s);
    assert(s.insert(i, u).remove(i) =~= s);
}

fn patch_bytes(s: &[u8], pos: usize, patch: &[u8]) -> (r: Vec<u8>)
    requires
        pos + patch@.len() <= usize::MAX,
    ensures
        r@ == patched(s@, pos as int, patch@),
{
    let end: usize = pos + patch.len();
    let n: usize = if s.len() < end {
        end
    } else {
        s.len()
    };
    let mut r: Vec<u8> = Vec::new();
    let mut j: usize = 0;
    while j < n
        invariant
            j <= n,
            end == pos + patch@.len(),
            n == patched(s@, pos as int, patch@).len(),
            r@ == patched(s@, pos as int, patch@).take(j as int),
        decreases n - j,
    {
        let b: u8 = if pos <= j && j < end {
            patch[j - pos]
        } else if j < s.len() {
            s[j]
        } else {
            0
        };
        r.push(b);
        assert(r@ =~= patched(s@, pos as int, patch@).take(j + 1));
        j += 1;
    }
    assert(r@ =~= patched(s@, pos as int, patch@));
    r
}

fn sub_bytes(s: &[u8], start: usize, end: usize) -> (r: Vec<u8>)
    requires
        start <= end <= s@.len(),
    ensures
        r@ == s@.subrange(start as int, end as int),
{
    let mut r: Vec<u8> = Vec::new();
    let mut j: usize = start;
    while j < end
        invariant
            start <= j <= end <= s@.len(),
            r@ == s@.subrange(start as int, j as int),
        decreases end - j,
    {
        r.push(s[j]);
        assert(r@ =~= s@.subrange(start as int, j + 1));
        j += 1;
    }
    r
}

impl Host {
    pub(crate) fn validate_index_lt_bound(&self, index: u32, bound: usize) -> (res: Result<(), HostError>)
        ensures
            res == if index < bound {
                Ok::<(), HostError>(())
            } else {
                Err(self.spec_err(index_fault()))
            },
    {
        if (index as usize) < bound {
            Ok(())
        } else {
            Err(self.err(ScErrorType::Object, ScErrorCode::IndexBounds))
        }
    }

    pub(crate) fn validate_index_le_bound(&self, index: u32, bound: usize) -> (res: Result<(), HostError>)
        ensures
            res == if index <= bound {
                Ok::<(), HostError>(())
            } else {
                Err(self.spec_err(index_fault()))
            },
    {
        if index as usize <= bound {
            Ok(())
        } else {
            Err(self.err(ScErrorType::Object, ScErrorCode::IndexBounds))
        }
    }

    pub(crate) fn valid_range_from_start_end_bound(&self, start: u32, end: u32, bound: usize) -> (res: Result<
        (),
        HostError,
    >)
        ensures
            res == match slice_fault(start as int, end as int, bound as int) {
                None => Ok::<(), HostError>(()),
                Some(f) => Err(self.spec_err(f)),
            },
    {
        self.validate_index_le_bound(start, bound)?;
        self.validate_index_le_bound(end, bound)?;
        if start > end {
            return Err(self.err(ScErrorType::Value, ScErrorCode::InvalidInput));
        }
        Ok(())
    }

    /// The sum of two lengths, if an object can be that long.
    pub(crate) fn validate_usize_sum_fits_in_u32(&self, a: usize, b: usize) -> (res: Result<usize, HostError>)
        ensures
            res == if a + b <= u32::MAX {
                Ok::<usize, HostError>((a + b) as usize)
            } else {
                Err(self.spec_err(overflow_fault()))
            },
    {
        let limit: usize = u32::MAX as usize;
        if a <= limit && b <= limit - a {
            Ok(a + b)
        } else {
            Err(self.err_arith_overflow())
        }
    }

    pub(crate) fn err_arith_overflow(&self) -> (e: HostError)
        ensures
            e == self.spec_err(overflow_fault()),
    {
        self.err(ScErrorType::Value, ScErrorCode::ArithDomain)
    }

    pub(crate) fn u8_from_u32val_input(&self, u: u32) -> (res: Result<u8, HostError>)
        ensures
            res == if u <= u8::MAX {
                Ok::<u8, HostError>(u as u8)
            } else {
                Err(self.spec_err(input_fault()))
            },
    {
        if u <= u8::MAX as u32 {
            Ok(u as u8)
        } else {
            Err(self.err(ScErrorType::Value, ScErrorCode::InvalidInput))
        }
    }

    fn check_range(&self, pos: u32, len: usize, bound: usize) -> (res: Result<(), HostError>)
        ensures
            res == match range_fault(pos as int, len as int, bound as int) {
                None => Ok::<(), HostError>(()),
                Some(f) => Err(self.spec_err(f)),
            },
    {
        let end: usize = self.validate_usize_sum_fits_in_u32(pos as usize, len)?;
        if end > bound {
            return Err(self.err(ScErrorType::Object, ScErrorCode::IndexBounds));
        }
        Ok(())
    }

    /// The byte string with a slice written over it from a position on; it grows
    /// with zeros where it is too short.
    pub fn bytes_copy_from_slice(&mut self, b: BytesObject, b_pos: u32, slice: &[u8]) -> (res: Result<
        BytesObject,
        HostError,
    >)
        requires
            old(self).wf(),
        ensures
            final(self).wf(),
            does_bytes_copy_from_slice(*old(self), *final(self), b, b_pos, slice@, res),
    {
        self.charge_visit()?;
        let s = self.visit_bytes(b)?;
        let _ = self.validate_usize_sum_fits_in_u32(b_pos as usize, slice.len())?;
        let new = patch_bytes(s.as_slice(), b_pos as usize, slice);
        self.add_bytes(new)
    }

    /// Copies part of a byte string to a slice.
    pub fn bytes_copy_to_slice(&mut self, o: BytesObject, pos: u32, slice: &mut [u8]) -> (res: Result<(), HostError>)
        requires
            old(self).wf(),
        ensures
            final(self).wf(),
            does_bytes_copy_to_slice(*old(self), *final(self), o, pos, old(slice)@, final(slice)@, res),
    {
        self.charge_visit()?;
        let s = self.visit_bytes(o)?;
        self.check_range(pos, slice.len(), s.len())?;
        copy_part(s.as_slice(), pos as usize, slice);
        Ok(())
    }

    /// Copies part of a byte string to guest memory.
    pub fn bytes_copy_to_linear_memory(
        &mut self,
        vmcaller: &mut VmCaller,
        o: BytesObject,
        pos: u32,
        lm_pos: u32,
        len: u32,
    ) -> (res: Result<(), HostError>)
        requires
            old(self).wf(),
        ensures
            final(self).wf(),
            does_bytes_copy_to_linear_memory(
                *old(self),
                *final(self),
                old(vmcaller).memory@,
                final(vmcaller).memory@,
                o,
                pos,
                lm_pos,
                len,
                res,
            ),
    {
        self.check_vm_frame()?;
        self.charge_visit()?;
        let s = self.visit_bytes(o)?;
        self.check_range(pos, len as usize, s.len())?;
        let part = sub_bytes(s.as_slice(), pos as usize, pos as usize + len as usize);
        self.write_to_memory(vmcaller, lm_pos, part)
    }

    /// A byte string of a stretch of guest memory.
    pub fn bytes_new_from_linear_memory(&mut self, vmcaller: &VmCaller, lm_pos: u32, len: u32) -> (res: Result<
        BytesObject,
        HostError,
    >)
        requires
            old(self).wf(),
        ensures
            final(self).wf(),
            does_bytes_new_from_linear_memory(*old(self), *final(self), vmcaller.memory@, lm_pos, len, res),
    {
        let s = self.charge_and_read(vmcaller, lm_pos, len)?;
        self.add_bytes(s)
    }

    /// The length of a byte string.
    pub fn bytes_len(&mut self, o: BytesObject) -> (res: Result<u32, HostError>)
        requires
            old(self).wf(),
        ensures
            final(self).wf(),
            does_bytes_len(*old(self), *final(self), o, res),
    {
        self.charge_visit()?;
        let s = self.visit_bytes(o)?;
        self.usize_to_u32(s.len())
    }

    /// Copies part of a text to a slice.
    pub fn string_copy_to_slice(&mut self, o: StringObject, pos: u32, slice: &mut [u8]) -> (res: Result<(), HostError>)
        requires
            old(self).wf(),
        ensures
            final(self).wf(),
            does_string_copy_to_slice(*old(self), *final(self), o, pos, old(slice)@, final(slice)@, res),
    {
        self.charge_visit()?;
        let s = self.visit_string(o)?;
        self.check_range(pos, slice.len(), s.len())?;
        copy_part(s.as_slice(), pos as usize, slice);
        Ok(())
    }

    /// Copies part of a text to guest memory.
    pub fn string_copy_to_linear_memory(
        &mut self,
        vmcaller: &mut VmCaller,
        o: StringObject,
        pos: u32,
        lm_pos: u32,
        len: u32,
    ) -> (res: Result<(), HostError>)
        requires
            old(self).wf(),
        ensures
            final(self).wf(),
            does_string_copy_to_linear_memory(
                *old(self),
                *final(self),
                old(vmcaller).memory@,
                final(vmcaller).memory@,
                o,
                pos,
                lm_pos,
                len,
                res,
            ),
    {
        self.check_vm_frame()?;
        self.charge_visit()?;
        let s = self.visit_string(o)?;
        self.check_range(pos, len as usize, s.len())?;
        let part = sub_bytes(s.as_slice(), pos as usize, pos as usize + len as usize);
        self.write_to_memory(vmcaller, lm_pos, part)
    }

    /// A text of a stretch of guest memory.
    pub fn string_new_from_linear_memory(&mut self, vmcaller: &VmCaller, lm_pos: u32, len: u32) -> (res: Result<
        StringObject,
        HostError,
    >)
        requires
            old(self).wf(),
        ensures
            final(self).wf(),
            does_string_new_from_linear_memory(*old(self), *final(self), vmcaller.memory@, lm_pos, len, res),
    {
        let s = self.charge_and_read(vmcaller, lm_pos, len)?;
        self.add_string(s)
    }

    /// The length of a text.
    pub fn string_len(&mut self, o: StringObject) -> (res: Result<u32, HostError>)
        requires
            old(self).wf(),
        ensures
            final(self).wf(),
            does_string_len(*old(self), *final(self), o, res),
    {
        self.charge_visit()?;
        let s = self.visit_string(o)?;
        self.usize_to_u32(s.len())
    }

    /// Copies part of a symbol to a slice.
    pub fn symbol_copy_to_slice(&mut self, o: SymbolObject, pos: u32, slice: &mut [u8]) -> (res: Result<(), HostError>)
        requires
            old(self).wf(),
        ensures
            final(self).wf(),
            does_symbol_copy_to_slice(*old(self), *final(self), o, pos, old(slice)@, final(slice)@, res),
    {
        self.charge_visit()?;
        let s = self.visit_symbol(o)?;
        self.check_range(pos, slice.len(), s.len())?;
        copy_part(s.as_slice(), pos as usize, slice);
        Ok(())
    }

    /// Copies part of a symbol to guest memory.
    pub fn symbol_copy_to_linear_memory(
        &mut self,
        vmcaller: &mut VmCaller,
        o: SymbolObject,
        pos: u32,
        lm_pos: u32,
        len: u32,
    ) -> (res: Result<(), HostError>)
        requires
            old(self).wf(),
        ensures
            final(self).wf(),
            does_symbol_copy_to_linear_memory(
                *old(self),
                *final(self),
                old(vmcaller).memory@,
                final(vmcaller).memory@,
                o,
                pos,
                lm_pos,
                len,
                res,
            ),
    {
        self.check_vm_frame()?;
        self.charge_visit()?;
        let s = self.visit_symbol(o)?;
        self.check_range(pos, len as usize, s.len())?;
        let part = sub_bytes(s.as_slice(), pos as usize, pos as usize + len as usize);
        self.write_to_memory(vmcaller, lm_pos, part)
    }

    /// A symbol of a stretch of guest memory.
    pub fn symbol_new_from_linear_memory(&mut self, vmcaller: &VmCaller, lm_pos: u32, len: u32) -> (res: Result<
        SymbolObject,
        HostError,
    >)
        requires
            old(self).wf(),
        ensures
            final(self).wf(),
            does_symbol_new_from_linear_memory(*old(self), *final(self), vmcaller.memory@, lm_pos, len, res),
    {
        let s = self.charge_and_read(vmcaller, lm_pos, len)?;
        if s.len() > SCSYMBOL_LIMIT || !check_symbol_chars(s.as_slice()) {
            return Err(self.err(ScErrorType::Value, ScErrorCode::InvalidInput));
        }
        self.add_symbol(s)
    }

    /// The length of a symbol.
    pub fn symbol_len(&mut self, o: SymbolObject) -> (res: Result<u32, HostError>)
        requires
            old(self).wf(),
        ensures
            final(self).wf(),
            does_symbol_len(*old(self), *final(self), o, res),
    {
        self.charge_visit()?;
        let s = self.visit_symbol(o)?;
        self.usize_to_u32(s.len())
    }

    /// Writes bytes to guest memory.
    fn write_to_memory(&mut self, vm: &mut VmCaller, pos: u32, part: Vec<u8>) -> (res: Result<(), HostError>)
        requires
            old(self).wf(),
        ensures
            final(self).wf(),
            ({
                let charged = charge(*old(self), ContractCostType::VmMemWrite, Some(part@.len() as u64));
                &&& *final(self) == charged.0
                &&& if charged.1 is Err {
                    res == charged.1 && final(vm).memory@ == old(vm).memory@
                } else if pos + part@.len() > old(vm).memory@.len() {
                    &&& res == Err::<(), HostError>(old(self).spec_err(outside_memory()))
                    &&& final(vm).memory@ == old(vm).memory@
                } else {
                    &&& res == Ok::<(), HostError>(())
                    &&& final(vm).memory@ == overwritten(old(vm).memory@, pos as int, part@)
                }
            }),
    {
        self.charge_budget(ContractCostType::VmMemWrite, Some(part.len() as u64))?;
        let pos: usize = pos as usize;
        if pos > vm.memory.len() || part.len() > vm.memory.len() - pos {
            return Err(self.err(ScErrorType::WasmVm, ScErrorCode::IndexBounds));
        }
        vm.write_bytes(pos, part.as_slice());
        Ok(())
    }

    /// Reads a stretch of guest memory, which is charged for.
    fn charge_and_read(&mut self, vm: &VmCaller, pos: u32, len: u32) -> (res: Result<Vec<u8>, HostError>)
        requires
            old(self).wf(),
        ensures
            final(self).wf(),
            match reads_memory(*old(self), vm.memory@, pos as int, len as int) {
                (h, Err(e)) => gives_up(h, *final(self), res, e),
                (h, Ok(s)) => *final(self) == h && res is Ok && res->Ok_0@ == s && s.len() == len,
            },
    {
        self.check_vm_frame()?;
        self.charge_budget(ContractCostType::VmMemRead, Some(len as u64))?;
        self.read_from_memory(vm, pos, len)
    }

    /// The bytes in a stretch of guest memory.
    pub(crate) fn read_from_memory(&self, vm: &VmCaller, pos: u32, len: u32) -> (res: Result<Vec<u8>, HostError>)
        ensures
            match vm_fault(*self) {
                Some(f) => res == Err::<Vec<u8>, HostError>(self.spec_err(f)),
                None => match mem_range(vm.memory@, pos as int, len as int) {
                    None => res == Err::<Vec<u8>, HostError>(self.spec_err(outside_memory())),
                    Some(s) => res is Ok && res->Ok_0@ == s && s.len() == len,
                },
            },
    {
        self.check_vm_frame()?;
        match vm.read_range(pos, len) {
            Some(s) => Ok(s),
            None => Err(self.err(ScErrorType::WasmVm, ScErrorCode::IndexBounds)),
        }
    }

    /// The byte string with a stretch of guest memory written over it from a
    /// position on; it grows with zeros where it is too short.
    pub fn bytes_copy_from_linear_memory(
        &mut self,
        vmcaller: &VmCaller,
        b: BytesObject,
        b_pos: u32,
        lm_pos: u32,
        len: u32,
    ) -> (res: Result<BytesObject, HostError>)
        requires
            old(self).wf(),
        ensures
            final(self).wf(),
            does_bytes_copy_from_linear_memory(*old(self), *final(self), vmcaller.memory@, b, b_pos, lm_pos, len, res),
    {
        self.check_vm_frame()?;
        self.charge_visit()?;
        let s = copy_bytes(self.visit_bytes(b)?.as_slice());
        let _ = self.validate_usize_sum_fits_in_u32(b_pos as usize, len as usize)?;
        let patch = self.charge_and_read(vmcaller, lm_pos, len)?;
        let new = patch_bytes(s.as_slice(), b_pos as usize, patch.as_slice());
        self.add_bytes(new)
    }

    /// A byte string of a slice. Copying the slice is charged for.
    pub fn bytes_new_from_slice(&mut self, mem: &[u8]) -> (res: Result<BytesObject, HostError>)
        requires
            old(self).wf(),
        ensures
            final(self).wf(),
            does_bytes_new_from_slice(*old(self), *final(self), mem@, res),
    {
        self.charge_bulk_init_cpy(mem.len() as u64, 1)?;
        self.add_bytes(copy_bytes(mem))
    }

    /// A text object of a text. Copying the text is charged for.
    pub fn string_new_from_slice(&mut self, s: &str) -> (res: Result<StringObject, HostError>)
        requires
            old(self).wf(),
        ensures
            final(self).wf(),
            stores_copy(*old(self), *final(self), BlobKind::Text, s.spec_bytes(), string_handle(res)),
    {
        self.string_from_bytes(s.as_bytes())
    }

    /// A text object of the bytes of a text. Copying them is charged for.
    pub(crate) fn string_from_bytes(&mut self, s: &[u8]) -> (res: Result<StringObject, HostError>)
        requires
            old(self).wf(),
        ensures
            final(self).wf(),
            stores_copy(*old(self), *final(self), BlobKind::Text, s@, string_handle(res)),
    {
        self.charge_bulk_init_cpy(s.len() as u64, 1)?;
        self.add_string(copy_bytes(s))
    }

    /// An empty byte string.
    pub fn bytes_new(&mut self) -> (res: Result<BytesObject, HostError>)
        requires
            old(self).wf(),
        ensures
            final(self).wf(),
            stores(*old(self), *final(self), ObjModel::Blob(BlobKind::Bytes, Seq::empty()), bytes_handle(res)),
    {
        let empty: Vec<u8> = Vec::new();
        self.add_bytes(empty)
    }

    /// The byte string with a byte set. Copying the string is charged for.
    pub fn bytes_put(&mut self, b: BytesObject, i: u32, u: u32) -> (res: Result<BytesObject, HostError>)
        requires
            old(self).wf(),
        ensures
            final(self).wf(),
            does_bytes_put(*old(self), *final(self), b, i, u, res),
    {
        let u: u8 = self.u8_from_u32val_input(u)?;
        self.charge_visit()?;
        let mut new = copy_bytes(self.visit_bytes(b)?.as_slice());
        self.charge_bulk_init_cpy(new.len() as u64, 1)?;
        if i as usize >= new.len() {
            return Err(self.err(ScErrorType::Object, ScErrorCode::IndexBounds));
        }
        new[i as usize] = u;
        self.add_bytes(new)
    }

    /// The byte at an index.
    pub fn bytes_get(&mut self, b: BytesObject, i: u32) -> (res: Result<u32, HostError>)
        requires
            old(self).wf(),
        ensures
            final(self).wf(),
            does_bytes_get(*old(self), *final(self), b, i, res),
    {
        self.charge_visit()?;
        let s = self.visit_bytes(b)?;
        if (i as usize) < s.len() {
            Ok(s[i as usize] as u32)
        } else {
            Err(self.err(ScErrorType::Object, ScErrorCode::IndexBounds))
        }
    }

    /// The byte string without the byte at an index. Copying the string, and then
    /// moving up what comes after the byte, is charged for.
    pub fn bytes_del(&mut self, b: BytesObject, i: u32) -> (res: Result<BytesObject, HostError>)
        requires
            old(self).wf(),
        ensures
            final(self).wf(),
            does_bytes_del(*old(self), *final(self), b, i, res),
    {
        self.charge_visit()?;
        let mut new = copy_bytes(self.visit_bytes(b)?.as_slice());
        self.validate_index_lt_bound(i, new.len())?;
        self.charge_bulk_init_cpy(new.len() as u64, 1)?;
        self.charge_shallow_copy((new.len() - i as usize) as u64, 1)?;
        let _ = new.remove(i as usize);
        self.add_bytes(new)
    }

    /// The byte string with a byte added at its end. Making the new string is
    /// charged for.
    pub fn bytes_push(&mut self, b: BytesObject, u: u32) -> (res: Result<BytesObject, HostError>)
        requires
            old(self).wf(),
        ensures
            final(self).wf(),
            does_bytes_push(*old(self), *final(self), b, u, res),
    {
        let u: u8 = self.u8_from_u32val_input(u)?;
        self.charge_visit()?;
        let mut new = copy_bytes(self.visit_bytes(b)?.as_slice());
        let len: usize = self.validate_usize_sum_fits_in_u32(new.len(), 1)?;
        self.charge_bulk_init_cpy(len as u64, 1)?;
        new.push(u);
        self.add_bytes(new)
    }

    /// The byte string without its last byte. Copying the string is charged for.
    pub fn bytes_pop(&mut self, b: BytesObject) -> (res: Result<BytesObject, HostError>)
        requires
            old(self).wf(),
        ensures
            final(self).wf(),
            does_bytes_pop(*old(self), *final(self), b, res),
    {
        self.charge_visit()?;
        let mut new = copy_bytes(self.visit_bytes(b)?.as_slice());
        self.charge_bulk_init_cpy(new.len() as u64, 1)?;
        if new.pop().is_none() {
            return Err(self.err(ScErrorType::Object, ScErrorCode::IndexBounds));
        }
        self.add_bytes(new)
    }

    /// The first byte.
    pub fn bytes_front(&mut self, b: BytesObject) -> (res: Result<u32, HostError>)
        requires
            old(self).wf(),
        ensures
            final(self).wf(),
            does_bytes_front(*old(self), *final(self), b, res),
    {
        self.charge_visit()?;
        let s = self.visit_bytes(b)?;
        if s.len() > 0 {
            Ok(s[0] as u32)
        } else {
            Err(self.err(ScErrorType::Object, ScErrorCode::IndexBounds))
        }
    }

    /// The last byte.
    pub fn bytes_back(&mut self, b: BytesObject) -> (res: Result<u32, HostError>)
        requires
            old(self).wf(),
        ensures
            final(self).wf(),
            does_bytes_back(*old(self), *final(self), b, res),
    {
        self.charge_visit()?;
        let s = self.visit_bytes(b)?;
        if s.len() > 0 {
            Ok(s[s.len() - 1] as u32)
        } else {
            Err(self.err(ScErrorType::Object, ScErrorCode::IndexBounds))
        }
    }

    /// The byte string with a byte put in before an index. Making the new string
    /// is charged for.
    pub fn bytes_insert(&mut self, b: BytesObject, i: u32, u: u32) -> (res: Result<BytesObject, HostError>)
        requires
            old(self).wf(),
        ensures
            final(self).wf(),
            does_bytes_insert(*old(self), *final(self), b, i, u, res),
    {
        let u: u8 = self.u8_from_u32val_input(u)?;
        self.charge_visit()?;
        let mut new = copy_bytes(self.visit_bytes(b)?.as_slice());
        self.validate_index_le_bound(i, new.len())?;
        let len: usize = self.validate_usize_sum_fits_in_u32(new.len(), 1)?;
        self.charge_bulk_init_cpy(len as u64, 1)?;
        new.insert(i as usize, u);
        self.add_bytes(new)
    }

    /// Two byte strings as one. Making the new string is charged for.
    pub fn bytes_append(&mut self, b1: BytesObject, b2: BytesObject) -> (res: Result<BytesObject, HostError>)
        requires
            old(self).wf(),
        ensures
            final(self).wf(),
            does_bytes_append(*old(self), *final(self), b1, b2, res),
    {
        self.charge_visit()?;
        let mut new = copy_bytes(self.visit_bytes(b1)?.as_slice());
        let ghost s1 = new@;
        self.charge_visit()?;
        let s2 = self.visit_bytes(b2)?;
        let len: usize = self.validate_usize_sum_fits_in_u32(new.len(), s2.len())?;
        new.extend_from_slice(s2.as_slice());
        assert(new@ =~= s1 + s2@);
        self.charge_bulk_init_cpy(len as u64, 1)?;
        self.add_bytes(new)
    }

    /// Part of a byte string. Copying the part is charged for.
    pub fn bytes_slice(&mut self, b: BytesObject, start: u32, end: u32) -> (res: Result<BytesObject, HostError>)
        requires
            old(self).wf(),
        ensures
            final(self).wf(),
            does_bytes_slice(*old(self), *final(self), b, start, end, res),
    {
        self.charge_visit()?;
        let s = self.visit_bytes(b)?;
        self.valid_range_from_start_end_bound(start, end, s.len())?;
        let new = sub_bytes(s.as_slice(), start as usize, end as usize);
        self.charge_bulk_init_cpy(new.len() as u64, 1)?;
        self.add_bytes(new)
    }

    /// The serialized form of a value.
    pub fn serialize_to_bytes(&mut self, v: Val) -> (res: Result<BytesObject, HostError>)
        requires
            old(self).wf(),
        ensures
            final(self).wf(),
            serializes(*old(self), *final(self), v, res),
    {
        let t = self.from_host_val(v)?;
        let written = scval_to_xdr(&t, DEFAULT_XDR_RW_DEPTH_LIMIT);
        self.bytes_from_written(written)
    }

    /// The object of a form that was written; fails if none was.
    pub fn bytes_from_written(&mut self, written: Result<Vec<u8>, XdrFault>) -> (res: Result<BytesObject, HostError>)
        requires
            old(self).wf(),
        ensures
            final(self).wf(),
            match written {
                Err(f) => fails(*old(self), *final(self), res, xdr_fault(f)),
                Ok(buf) => stores_form(*old(self), *final(self), buf@, bytes_handle(res)),
            },
    {
        match written {
            Ok(buf) => {
                self.charge_budget(ContractCostType::ValSer, Some(buf.len() as u64))?;
                self.add_bytes(buf)
            },
            Err(f) => Err(self.xdr_err(f)),
        }
    }

    /// The value of a serialized form.
    pub fn deserialize_from_bytes(&mut self, b: BytesObject) -> (res: Result<Val, HostError>)
        requires
            old(self).wf(),
        ensures
            final(self).wf(),
            deserializes(*old(self), *final(self), b, res),
    {
        self.charge_visit()?;
        let form = copy_bytes(self.visit_bytes(b)?.as_slice());
        self.charge_budget(ContractCostType::ValDeser, Some(form.len() as u64))?;
        let parsed = scval_from_xdr(form.as_slice(), DEFAULT_XDR_RW_DEPTH_LIMIT);
        self.val_from_parsed(parsed)
    }

    /// The value of a form that was read; fails if none was.
    pub fn val_from_parsed(&mut self, parsed: Result<ScVal, XdrFault>) -> (res: Result<Val, HostError>)
        requires
            old(self).wf(),
        ensures
            final(self).wf(),
            match parsed {
                Err(f) => fails(*old(self), *final(self), res, xdr_fault(f)),
                Ok(t) => adds(
                    *old(self),
                    *final(self),
                    res,
                    tree_val(old(self).objs(), t, DEFAULT_HOST_DEPTH_LIMIT as nat),
                ),
            },
    {
        match parsed {
            Ok(t) => self.to_host_val(&t),
            Err(f) => Err(self.xdr_err(f)),
        }
    }

    fn xdr_err(&self, f: XdrFault) -> (e: HostError)
        ensures
            e == self.spec_err(xdr_fault(f)),
    {
        match f {
            XdrFault::TooDeep => self.err(ScErrorType::Context, ScErrorCode::ExceededLimit),
            XdrFault::Malformed => self.err(ScErrorType::Value, ScErrorCode::InvalidInput),
        }
    }
}

/// The fault of an XDR form that cannot be read or written.
pub open spec fn xdr_fault(f: XdrFault) -> Fault {
    match f {
        XdrFault::TooDeep => depth_fault(),
        XdrFault::Malformed => input_fault(),
    }
}

/// An XDR form is made into an object: writing it is charged for.
pub open spec fn stores_form(pre: Host, post: Host, s: Seq<u8>, res: Result<u32, HostError>) -> bool {
    let charged = charge(pre, ContractCostType::ValSer, Some(s.len() as u64));
    if charged.1 is Err {
        runs_out(charged, post, res)
    } else {
        stores_blob(charged.0, post, BlobKind::Bytes, s, res)
    }
}

/// A value is serialized: it must be a value, must not nest too deep, and must
/// have an XDR form, which is stored, and which reads as what the value denotes.
pub open spec fn serializes(pre: Host, post: Host, v: Val, res: Result<BytesObject, HostError>) -> bool {
    match val_fault(pre.objs(), v) {
        Some(f) => fails(pre, post, res, f),
        None => if nesting(deep(pre.objs(), v)) > DEFAULT_HOST_DEPTH_LIMIT {
            fails(pre, post, res, depth_fault())
        } else {
            match xdr_of_tree(deep(pre.objs(), v), DEFAULT_XDR_RW_DEPTH_LIMIT) {
                Err(f) => fails(pre, post, res, xdr_fault(f)),
                Ok(s) => {
                    &&& stores_form(pre, post, s, bytes_handle(res))
                    &&& tree_of_xdr(s, DEFAULT_XDR_RW_DEPTH_LIMIT) == Ok::<Deep, XdrFault>(deep(pre.objs(), v))
                },
            }
        },
    }
}

/// A serialized form is read, which is charged for: a value is made that denotes what the form stands
/// for.
pub open spec fn deserializes(pre: Host, post: Host, b: BytesObject, res: Result<Val, HostError>) -> bool {
    match looks_at(pre, b.handle, ObjectTag::BytesObject) {
        (h, Err(e)) => gives_up(h, post, res, e),
        (h, Ok(obj)) => {
            let charged = charge(h, ContractCostType::ValDeser, Some(obj->Blob_1.len() as u64));
            if charged.1 is Err {
                runs_out(charged, post, res)
            } else {
                match tree_of_xdr(obj->Blob_1, DEFAULT_XDR_RW_DEPTH_LIMIT) {
                    Err(f) => fails(charged.0, post, res, xdr_fault(f)),
                    Ok(d) => exists|t: ScVal| #[trigger]
                        sc_deep(t) == d && adds(
                            charged.0,
                            post,
                            res,
                            tree_val(charged.0.objs(), t, DEFAULT_HOST_DEPTH_LIMIT as nat),
                        ),
                }
            }
        },
    }
}

/// A value that was serialized is read back from its form, by any host that has
/// the form, room for the value and the budget to read it: what is read denotes what was serialized.
pub proof fn law_serialized_value_is_read_back(
    pre: Host,
    mid: Host,
    v: Val,
    form: BytesObject,
    now: Host,
    post: Host,
    b: BytesObject,
    res: Result<Val, HostError>,
)
    requires
        pre.wf(),
        serializes(pre, mid, v, Ok(form)),
        now.wf(),
        looks_at(now, b.handle, ObjectTag::BytesObject).1 is Ok,
        charge(
            looks_at(now, b.handle, ObjectTag::BytesObject).0,
            ContractCostType::ValDeser,
            Some(xdr_of_tree(deep(pre.objs(), v), DEFAULT_XDR_RW_DEPTH_LIMIT)->Ok_0.len() as u64),
        ).1 is Ok,
        visit(now.objs(), b.handle, ObjectTag::BytesObject) == visit(
            mid.objs(),
            form.handle,
            ObjectTag::BytesObject,
        ),
        now.objs().len() + size(deep(pre.objs(), v)) <= MAX_OBJECTS,
        deserializes(now, post, b, res),
    ensures
        res is Ok,
        deep(post.objs(), res->Ok_0) == deep(pre.objs(), v),
{
    let d = deep(pre.objs(), v);
    let s = xdr_of_tree(d, DEFAULT_XDR_RW_DEPTH_LIMIT)->Ok_0;
    let paid = charge(pre, ContractCostType::ValSer, Some(s.len() as u64)).0;
    law_stored_object_is_found(paid, mid, ObjModel::Blob(BlobKind::Bytes, s), form.handle);
    let seen = charge(
        looks_at(now, b.handle, ObjectTag::BytesObject).0,
        ContractCostType::ValDeser,
        Some(s.len() as u64),
    ).0;
    let t = choose|t: ScVal| #[trigger]
        sc_deep(t) == d && adds(seen, post, res, tree_val(seen.objs(), t, DEFAULT_HOST_DEPTH_LIMIT as nat));
    law_value_comes_back(pre.objs(), v, t, now.objs());
}

/// The part of a byte string that goes to guest memory, or what is wrong with
/// the part or the place. Looking up the string and the writing are charged for.
pub open spec fn part_for_memory(
    host: Host,
    handle: u32,
    tag: ObjectTag,
    pos: int,
    lm_pos: int,
    len: int,
    mem_len: int,
) -> (Host, Result<Seq<u8>, HostError>) {
    match vm_fault(host) {
        Some(f) => (host, Err(host.spec_err(f))),
        None => match looks_at(host, handle, tag) {
            (h, Err(e)) => (h, Err(e)),
            (h, Ok(obj)) => match range_fault(pos, len, obj->Blob_1.len() as int) {
                Some(f) => (h, Err(h.spec_err(f))),
                None => {
                    let written = charge(h, ContractCostType::VmMemWrite, Some(len as u64));
                    (
                        written.0,
                        match written.1 {
                            Err(e) => Err(e),
                            Ok(_) => if lm_pos + len > mem_len {
                                Err(h.spec_err(outside_memory()))
                            } else {
                                Ok(obj->Blob_1.subrange(pos, pos + len))
                            },
                        },
                    )
                },
            },
        },
    }
}

/// A stretch of guest memory is read: that is charged for, and then there has to be
/// such a stretch.
pub open spec fn reads_memory(host: Host, mem: Seq<u8>, pos: int, len: int) -> (Host, Result<Seq<u8>, HostError>) {
    match vm_fault(host) {
        Some(f) => (host, Err(host.spec_err(f))),
        None => {
            let charged = charge(host, ContractCostType::VmMemRead, Some(len as u64));
            (
                charged.0,
                match charged.1 {
                    Err(e) => Err(e),
                    Ok(_) => match mem_range(mem, pos, len) {
                        None => Err(host.spec_err(outside_memory())),
                        Some(s) => Ok(s),
                    },
                },
            )
        },
    }
}

fn copy_part(s: &[u8], pos: usize, to: &mut [u8])
    requires
        pos + old(to)@.len() <= s@.len(),
    ensures
        final(to)@ == s@.subrange(pos as int, pos + old(to)@.len()),
{
    let n: usize = to.len();
    assert(s.len() <= usize::MAX);
    let mut i: usize = 0;
    while i < n
        invariant
            i <= n == to@.len(),
            n == old(to)@.len(),
            pos + n <= s@.len() <= usize::MAX,
            forall|j: int| 0 <= j < i ==> to@[j] == s@[pos + j],
        decreases n - i,
    {
        to[i] = s[pos + i];
        i += 1;
    }
    assert(to@ =~= s@.subrange(pos as int, pos + n));
}

/// What `bytes_copy_from_slice` does.
pub open spec fn does_bytes_copy_from_slice(
    pre: Host,
    post: Host,
    b: BytesObject,
    b_pos: u32,
    slice: Seq<u8>,
    res: Result<BytesObject, HostError>,
) -> bool {
    match looks_at(pre, b.handle, ObjectTag::BytesObject) {
        (h, Err(e)) => gives_up(h, post, res, e),
        (h, Ok(obj)) => if b_pos + slice.len() > u32::MAX {
            fails(h, post, res, overflow_fault())
        } else {
            stores(
                h,
                post,
                ObjModel::Blob(BlobKind::Bytes, patched(obj->Blob_1, b_pos as int, slice)),
                bytes_handle(res),
            )
        },
    }
}

/// What `bytes_len` does.
pub open spec fn does_bytes_len(
    pre: Host,
    post: Host,
    o: BytesObject,
    res: Result<u32, HostError>,
) -> bool {
    match looks_at(pre, o.handle, ObjectTag::BytesObject) {
        (h, Err(e)) => gives_up(h, post, res, e),
        (h, Ok(obj)) => post == h && res is Ok && res->Ok_0 == obj->Blob_1.len(),
    }
}

/// What `string_len` does.
pub open spec fn does_string_len(
    pre: Host,
    post: Host,
    o: StringObject,
    res: Result<u32, HostError>,
) -> bool {
    match looks_at(pre, o.handle, ObjectTag::StringObject) {
        (h, Err(e)) => gives_up(h, post, res, e),
        (h, Ok(obj)) => post == h && res is Ok && res->Ok_0 == obj->Blob_1.len(),
    }
}

/// What `symbol_len` does.
pub open spec fn does_symbol_len(
    pre: Host,
    post: Host,
    o: SymbolObject,
    res: Result<u32, HostError>,
) -> bool {
    match looks_at(pre, o.handle, ObjectTag::SymbolObject) {
        (h, Err(e)) => gives_up(h, post, res, e),
        (h, Ok(obj)) => post == h && res is Ok && res->Ok_0 == obj->Blob_1.len(),
    }
}

/// What `bytes_new_from_slice` does.
pub open spec fn does_bytes_new_from_slice(
    pre: Host,
    post: Host,
    mem: Seq<u8>,
    res: Result<BytesObject, HostError>,
) -> bool {
    stores_copy(pre, post, BlobKind::Bytes, mem, bytes_handle(res))
}

/// What `bytes_put` does.
pub open spec fn does_bytes_put(
    pre: Host,
    post: Host,
    b: BytesObject,
    i: u32,
    u: u32,
    res: Result<BytesObject, HostError>,
) -> bool {
    if u > u8::MAX {
        fails(pre, post, res, input_fault())
    } else {
        match looks_at(pre, b.handle, ObjectTag::BytesObject) {
            (h, Err(e)) => gives_up(h, post, res, e),
            (h, Ok(obj)) => {
                let charged = charge_bulk(h, obj->Blob_1.len() as int, 1);
                if charged.1 is Err {
                    runs_out(charged, post, res)
                } else if i >= obj->Blob_1.len() {
                    fails(charged.0, post, res, index_fault())
                } else {
                    stores(
                        charged.0,
                        post,
                        ObjModel::Blob(BlobKind::Bytes, obj->Blob_1.update(i as int, u as u8)),
                        bytes_handle(res),
                    )
                }
            },
        }
    }
}

/// What `bytes_get` does.
pub open spec fn does_bytes_get(
    pre: Host,
    post: Host,
    b: BytesObject,
    i: u32,
    res: Result<u32, HostError>,
) -> bool {
    (post, res) == match looks_at(pre, b.handle, ObjectTag::BytesObject) {
        (h, Err(e)) => (h, Err::<u32, HostError>(e)),
        (h, Ok(obj)) => (
            h,
            if i < obj->Blob_1.len() {
                Ok(obj->Blob_1[i as int] as u32)
            } else {
                Err(pre.spec_err(index_fault()))
            },
        ),
    }
}

/// What `bytes_del` does.
pub open spec fn does_bytes_del(
    pre: Host,
    post: Host,
    b: BytesObject,
    i: u32,
    res: Result<BytesObject, HostError>,
) -> bool {
    match looks_at(pre, b.handle, ObjectTag::BytesObject) {
        (h, Err(e)) => gives_up(h, post, res, e),
        (h, Ok(obj)) => if i >= obj->Blob_1.len() {
            fails(h, post, res, index_fault())
        } else {
            let copied = charge_bulk(h, obj->Blob_1.len() as int, 1);
            let moved = charge_copy(copied.0, obj->Blob_1.len() - i, 1);
            if copied.1 is Err {
                runs_out(copied, post, res)
            } else if moved.1 is Err {
                runs_out(moved, post, res)
            } else {
                stores(
                    moved.0,
                    post,
                    ObjModel::Blob(BlobKind::Bytes, obj->Blob_1.remove(i as int)),
                    bytes_handle(res),
                )
            }
        },
    }
}

/// What `bytes_push` does.
pub open spec fn does_bytes_push(
    pre: Host,
    post: Host,
    b: BytesObject,
    u: u32,
    res: Result<BytesObject, HostError>,
) -> bool {
    if u > u8::MAX {
        fails(pre, post, res, input_fault())
    } else {
        match looks_at(pre, b.handle, ObjectTag::BytesObject) {
            (h, Err(e)) => gives_up(h, post, res, e),
            (h, Ok(obj)) => if obj->Blob_1.len() + 1 > u32::MAX {
                fails(h, post, res, overflow_fault())
            } else {
                let charged = charge_bulk(h, obj->Blob_1.len() as int + 1, 1);
                if charged.1 is Err {
                    runs_out(charged, post, res)
                } else {
                    stores(
                        charged.0,
                        post,
                        ObjModel::Blob(BlobKind::Bytes, obj->Blob_1.push(u as u8)),
                        bytes_handle(res),
                    )
                }
            },
        }
    }
}

/// What `bytes_pop` does.
pub open spec fn does_bytes_pop(
    pre: Host,
    post: Host,
    b: BytesObject,
    res: Result<BytesObject, HostError>,
) -> bool {
    match looks_at(pre, b.handle, ObjectTag::BytesObject) {
        (h, Err(e)) => gives_up(h, post, res, e),
        (h, Ok(obj)) => {
            let charged = charge_bulk(h, obj->Blob_1.len() as int, 1);
            if charged.1 is Err {
                runs_out(charged, post, res)
            } else if obj->Blob_1.len() == 0 {
                fails(charged.0, post, res, index_fault())
            } else {
                stores(
                    charged.0,
                    post,
                    ObjModel::Blob(BlobKind::Bytes, obj->Blob_1.drop_last()),
                    bytes_handle(res),
                )
            }
        },
    }
}

/// What `bytes_front` does.
pub open spec fn does_bytes_front(
    pre: Host,
    post: Host,
    b: BytesObject,
    res: Result<u32, HostError>,
) -> bool {
    (post, res) == match looks_at(pre, b.handle, ObjectTag::BytesObject) {
        (h, Err(e)) => (h, Err::<u32, HostError>(e)),
        (h, Ok(obj)) => (
            h,
            if obj->Blob_1.len() > 0 {
                Ok(obj->Blob_1[0] as u32)
            } else {
                Err(pre.spec_err(index_fault()))
            },
        ),
    }
}

/// What `bytes_back` does.
pub open spec fn does_bytes_back(
    pre: Host,
    post: Host,
    b: BytesObject,
    res: Result<u32, HostError>,
) -> bool {
    (post, res) == match looks_at(pre, b.handle, ObjectTag::BytesObject) {
        (h, Err(e)) => (h, Err::<u32, HostError>(e)),
        (h, Ok(obj)) => (
            h,
            if obj->Blob_1.len() > 0 {
                Ok(obj->Blob_1.last() as u32)
            } else {
                Err(pre.spec_err(index_fault()))
            },
        ),
    }
}

/// What `bytes_insert` does.
pub open spec fn does_bytes_insert(
    pre: Host,
    post: Host,
    b: BytesObject,
    i: u32,
    u: u32,
    res: Result<BytesObject, HostError>,
) -> bool {
    if u > u8::MAX {
        fails(pre, post, res, input_fault())
    } else {
        match looks_at(pre, b.handle, ObjectTag::BytesObject) {
            (h, Err(e)) => gives_up(h, post, res, e),
            (h, Ok(obj)) => if i > obj->Blob_1.len() {
                fails(h, post, res, index_fault())
            } else if obj->Blob_1.len() + 1 > u32::MAX {
                fails(h, post, res, overflow_fault())
            } else {
                let charged = charge_bulk(h, obj->Blob_1.len() as int + 1, 1);
                if charged.1 is Err {
                    runs_out(charged, post, res)
                } else {
                    stores(
                        charged.0,
                        post,
                        ObjModel::Blob(BlobKind::Bytes, obj->Blob_1.insert(i as int, u as u8)),
                        bytes_handle(res),
                    )
                }
            },
        }
    }
}

/// What `bytes_append` does.
pub open spec fn does_bytes_append(
    pre: Host,
    post: Host,
    b1: BytesObject,
    b2: BytesObject,
    res: Result<BytesObject, HostError>,
) -> bool {
    match looks_at(pre, b1.handle, ObjectTag::BytesObject) {
        (h, Err(e)) => gives_up(h, post, res, e),
        (h, Ok(o1)) => match looks_at(h, b2.handle, ObjectTag::BytesObject) {
            (h, Err(e)) => gives_up(h, post, res, e),
            (h, Ok(o2)) => if o1->Blob_1.len() + o2->Blob_1.len() > u32::MAX {
                fails(h, post, res, overflow_fault())
            } else {
                let charged = charge_bulk(h, (o1->Blob_1.len() + o2->Blob_1.len()) as int, 1);
                if charged.1 is Err {
                    runs_out(charged, post, res)
                } else {
                    stores(
                        charged.0,
                        post,
                        ObjModel::Blob(BlobKind::Bytes, o1->Blob_1 + o2->Blob_1),
                        bytes_handle(res),
                    )
                }
            },
        },
    }
}

/// What `bytes_slice` does.
pub open spec fn does_bytes_slice(
    pre: Host,
    post: Host,
    b: BytesObject,
    start: u32,
    end: u32,
    res: Result<BytesObject, HostError>,
) -> bool {
    match looks_at(pre, b.handle, ObjectTag::BytesObject) {
        (h, Err(e)) => gives_up(h, post, res, e),
        (h, Ok(obj)) => match slice_fault(start as int, end as int, obj->Blob_1.len() as int) {
            Some(f) => fails(h, post, res, f),
            None => stores_copy(
                h,
                post,
                BlobKind::Bytes,
                obj->Blob_1.subrange(start as int, end as int),
                bytes_handle(res),
            ),
        },
    }
}

/// What `bytes_copy_to_slice` does.
pub open spec fn does_bytes_copy_to_slice(
    pre: Host,
    post: Host,
    o: BytesObject,
    pos: u32,
    slice: Seq<u8>,
    changed: Seq<u8>,
    res: Result<(), HostError>,
) -> bool {
    match looks_at(pre, o.handle, ObjectTag::BytesObject) {
        (h, Err(e)) => gives_up(h, post, res, e) && changed == slice,
        (h, Ok(obj)) => match range_fault(pos as int, slice.len() as int, obj->Blob_1.len() as int) {
            Some(f) => fails(h, post, res, f) && changed == slice,
            None => {
                &&& post == h
                &&& res == Ok::<(), HostError>(())
                &&& changed == obj->Blob_1.subrange(pos as int, pos + slice.len())
            },
        },
    }
}

/// What `string_copy_to_slice` does.
pub open spec fn does_string_copy_to_slice(
    pre: Host,
    post: Host,
    o: StringObject,
    pos: u32,
    slice: Seq<u8>,
    changed: Seq<u8>,
    res: Result<(), HostError>,
) -> bool {
    match looks_at(pre, o.handle, ObjectTag::StringObject) {
        (h, Err(e)) => gives_up(h, post, res, e) && changed == slice,
        (h, Ok(obj)) => match range_fault(pos as int, slice.len() as int, obj->Blob_1.len() as int) {
            Some(f) => fails(h, post, res, f) && changed == slice,
            None => {
                &&& post == h
                &&& res == Ok::<(), HostError>(())
                &&& changed == obj->Blob_1.subrange(pos as int, pos + slice.len())
            },
        },
    }
}

/// What `symbol_copy_to_slice` does.
pub open spec fn does_symbol_copy_to_slice(
    pre: Host,
    post: Host,
    o: SymbolObject,
    pos: u32,
    slice: Seq<u8>,
    changed: Seq<u8>,
    res: Result<(), HostError>,
) -> bool {
    match looks_at(pre, o.handle, ObjectTag::SymbolObject) {
        (h, Err(e)) => gives_up(h, post, res, e) && changed == slice,
        (h, Ok(obj)) => match range_fault(pos as int, slice.len() as int, obj->Blob_1.len() as int) {
            Some(f) => fails(h, post, res, f) && changed == slice,
            None => {
                &&& post == h
                &&& res == Ok::<(), HostError>(())
                &&& changed == obj->Blob_1.subrange(pos as int, pos + slice.len())
            },
        },
    }
}

/// What `bytes_copy_to_linear_memory` does.
pub open spec fn does_bytes_copy_to_linear_memory(
    pre: Host,
    post: Host,
    memory: Seq<u8>,
    changed: Seq<u8>,
    o: BytesObject,
    pos: u32,
    lm_pos: u32,
    len: u32,
    res: Result<(), HostError>,
) -> bool {
    match part_for_memory(
        pre,
        o.handle,
        ObjectTag::BytesObject,
        pos as int,
        lm_pos as int,
        len as int,
        memory.len() as int,
    ) {
        (h, Err(e)) => {
            &&& gives_up(h, post, res, e)
            &&& changed == memory
        },
        (h, Ok(part)) => {
            &&& post == h
            &&& res == Ok::<(), HostError>(())
            &&& changed == overwritten(memory, lm_pos as int, part)
        },
    }
}

/// What `string_copy_to_linear_memory` does.
pub open spec fn does_string_copy_to_linear_memory(
    pre: Host,
    post: Host,
    memory: Seq<u8>,
    changed: Seq<u8>,
    o: StringObject,
    pos: u32,
    lm_pos: u32,
    len: u32,
    res: Result<(), HostError>,
) -> bool {
    match part_for_memory(
        pre,
        o.handle,
        ObjectTag::StringObject,
        pos as int,
        lm_pos as int,
        len as int,
        memory.len() as int,
    ) {
        (h, Err(e)) => {
            &&& gives_up(h, post, res, e)
            &&& changed == memory
        },
        (h, Ok(part)) => {
            &&& post == h
            &&& res == Ok::<(), HostError>(())
            &&& changed == overwritten(memory, lm_pos as int, part)
        },
    }
}

/// What `symbol_copy_to_linear_memory` does.
pub open spec fn does_symbol_copy_to_linear_memory(
    pre: Host,
    post: Host,
    memory: Seq<u8>,
    changed: Seq<u8>,
    o: SymbolObject,
    pos: u32,
    lm_pos: u32,
    len: u32,
    res: Result<(), HostError>,
) -> bool {
    match part_for_memory(
        pre,
        o.handle,
        ObjectTag::SymbolObject,
        pos as int,
        lm_pos as int,
        len as int,
        memory.len() as int,
    ) {
        (h, Err(e)) => {
            &&& gives_up(h, post, res, e)
            &&& changed == memory
        },
        (h, Ok(part)) => {
            &&& post == h
            &&& res == Ok::<(), HostError>(())
            &&& changed == overwritten(memory, lm_pos as int, part)
        },
    }
}

/// What `bytes_new_from_linear_memory` does.
pub open spec fn does_bytes_new_from_linear_memory(
    pre: Host,
    post: Host,
    memory: Seq<u8>,
    lm_pos: u32,
    len: u32,
    res: Result<BytesObject, HostError>,
) -> bool {
    match reads_memory(pre, memory, lm_pos as int, len as int) {
        (h, Err(e)) => gives_up(h, post, res, e),
        (h, Ok(s)) => stores(
            h,
            post,
            ObjModel::Blob(BlobKind::Bytes, s),
            bytes_handle(res),
        ),
    }
}

/// What `string_new_from_linear_memory` does.
pub open spec fn does_string_new_from_linear_memory(
    pre: Host,
    post: Host,
    memory: Seq<u8>,
    lm_pos: u32,
    len: u32,
    res: Result<StringObject, HostError>,
) -> bool {
    match reads_memory(pre, memory, lm_pos as int, len as int) {
        (h, Err(e)) => gives_up(h, post, res, e),
        (h, Ok(s)) => stores(
            h,
            post,
            ObjModel::Blob(BlobKind::Text, s),
            string_handle(res),
        ),
    }
}

/// What `symbol_new_from_linear_memory` does.
pub open spec fn does_symbol_new_from_linear_memory(
    pre: Host,
    post: Host,
    memory: Seq<u8>,
    lm_pos: u32,
    len: u32,
    res: Result<SymbolObject, HostError>,
) -> bool {
    match reads_memory(pre, memory, lm_pos as int, len as int) {
        (h, Err(e)) => gives_up(h, post, res, e),
        (h, Ok(s)) => if !is_symbol(s) {
            fails(h, post, res, input_fault())
        } else {
            stores(h, post, ObjModel::Blob(BlobKind::Symbol, s), symbol_handle(res))
        },
    }
}

/// What `bytes_copy_from_linear_memory` does.
pub open spec fn does_bytes_copy_from_linear_memory(
    pre: Host,
    post: Host,
    memory: Seq<u8>,
    b: BytesObject,
    b_pos: u32,
    lm_pos: u32,
    len: u32,
    res: Result<BytesObject, HostError>,
) -> bool {
    match vm_fault(pre) {
        Some(f) => fails(pre, post, res, f),
        None => match looks_at(pre, b.handle, ObjectTag::BytesObject) {
            (h, Err(e)) => gives_up(h, post, res, e),
            (h, Ok(obj)) => if b_pos + len > u32::MAX {
                fails(h, post, res, overflow_fault())
            } else {
                match reads_memory(h, memory, lm_pos as int, len as int) {
                    (h, Err(e)) => gives_up(h, post, res, e),
                    (h, Ok(s)) => stores(
                        h,
                        post,
                        ObjModel::Blob(BlobKind::Bytes, patched(obj->Blob_1, b_pos as int, s)),
                        bytes_handle(res),
                    ),
                }
            },
        },
    }
}

} // verus!
