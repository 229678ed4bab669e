//! Metering: what each kind of work costs, and how much of it is allowed.
//!
//! Host functions charge for the objects that they look up, the contents that they
//! copy, and what they compute on those. Comparing nested values, making trees of
//! values and back, checking that values are good, and finding ledger entries and
//! agreements is free.

use crate::error::{Error, HostError, ScErrorCode, ScErrorType};
use vstd::prelude::*;

verus! {

/// The kinds of metered work.
#[derive(Clone, Copy, PartialEq, Eq, Structural, Debug)]
pub enum ContractCostType {
    WasmInsnExec,
    WasmMemAlloc,
    HostMemAlloc,
    HostMemCpy,
    HostMemCmp,
    DispatchHostFunction,
    VisitObject,
    ValSer,
    ValDeser,
    ComputeSha256Hash,
    ComputeEd25519PubKey,
    MapEntry,
    VecEntry,
    VerifyEd25519Sig,
    VmMemRead,
    VmMemWrite,
    VmInstantiation,
    VmCachedInstantiation,
    InvokeVmFunction,
    ComputeKeccak256Hash,
    ComputeEcdsaSecp256k1Key,
    ComputeEcdsaSecp256k1Sig,
    RecoverEcdsaSecp256k1Key,
    Int256AddSub,
    Int256Mul,
    Int256Div,
    Int256Pow,
    Int256Shift,
    ChaCha20DrawBytes,
}

/// The number of kinds of metered work.
pub const COST_TYPES: usize = 29;

/// The cost of one kind of work: a constant, and a slope in 128ths per unit of
/// input.
#[derive(Clone, Copy, Debug)]
pub struct CostModel {
    pub const_term: u64,
    pub lin_term: u64,
}

/// One metered resource: its prices, what may be spent of it, and what has been.
#[derive(Clone, Copy, Debug)]
pub struct BudgetDimension {
    pub models: [CostModel; 29],
    pub limit: u64,
    pub total_count: u64,
}

/// What a host may spend, in instructions and in memory.
#[derive(Clone, Copy, Debug)]
pub struct Budget {
    pub cpu_insns: BudgetDimension,
    pub mem_bytes: BudgetDimension,
}

impl ContractCostType {
    pub open spec fn spec_number(self) -> usize {
        match self {
            ContractCostType::WasmInsnExec => 0,
            ContractCostType::WasmMemAlloc => 1,
            ContractCostType::HostMemAlloc => 2,
            ContractCostType::HostMemCpy => 3,
            ContractCostType::HostMemCmp => 4,
            ContractCostType::DispatchHostFunction => 5,
            ContractCostType::VisitObject => 6,
            ContractCostType::ValSer => 7,
            ContractCostType::ValDeser => 8,
            ContractCostType::ComputeSha256Hash => 9,
            ContractCostType::ComputeEd25519PubKey => 10,
            ContractCostType::MapEntry => 11,
            ContractCostType::VecEntry => 12,
            ContractCostType::VerifyEd25519Sig => 13,
            ContractCostType::VmMemRead => 14,
            ContractCostType::VmMemWrite => 15,
            ContractCostType::VmInstantiation => 16,
            ContractCostType::VmCachedInstantiation => 17,
            ContractCostType::InvokeVmFunction => 18,
            ContractCostType::ComputeKeccak256Hash => 19,
            ContractCostType::ComputeEcdsaSecp256k1Key => 20,
            ContractCostType::ComputeEcdsaSecp256k1Sig => 21,
            ContractCostType::RecoverEcdsaSecp256k1Key => 22,
            ContractCostType::Int256AddSub => 23,
            ContractCostType::Int256Mul => 24,
            ContractCostType::Int256Div => 25,
            ContractCostType::Int256Pow => 26,
            ContractCostType::Int256Shift => 27,
            ContractCostType::ChaCha20DrawBytes => 28,
        }
    }

    #[verifier::when_used_as_spec(spec_number)]
    pub fn number(self) -> (n: usize)
        ensures
            n == self.spec_number(),
            n < COST_TYPES,
    {
        match self {
            ContractCostType::WasmInsnExec => 0,
            ContractCostType::WasmMemAlloc => 1,
            ContractCostType::HostMemAlloc => 2,
            ContractCostType::HostMemCpy => 3,
            ContractCostType::HostMemCmp => 4,
            ContractCostType::DispatchHostFunction => 5,
            ContractCostType::VisitObject => 6,
            ContractCostType::ValSer => 7,
            ContractCostType::ValDeser => 8,
            ContractCostType::ComputeSha256Hash => 9,
            ContractCostType::ComputeEd25519PubKey => 10,
            ContractCostType::MapEntry => 11,
            ContractCostType::VecEntry => 12,
            ContractCostType::VerifyEd25519Sig => 13,
            ContractCostType::VmMemRead => 14,
            ContractCostType::VmMemWrite => 15,
            ContractCostType::VmInstantiation => 16,
            ContractCostType::VmCachedInstantiation => 17,
            ContractCostType::InvokeVmFunction => 18,
            ContractCostType::ComputeKeccak256Hash => 19,
            ContractCostType::ComputeEcdsaSecp256k1Key => 20,
            ContractCostType::ComputeEcdsaSecp256k1Sig => 21,
            ContractCostType::RecoverEcdsaSecp256k1Key => 22,
            ContractCostType::Int256AddSub => 23,
            ContractCostType::Int256Mul => 24,
            ContractCostType::Int256Div => 25,
            ContractCostType::Int256Pow => 26,
            ContractCostType::Int256Shift => 27,
            ContractCostType::ChaCha20DrawBytes => 28,
        }
    }
}

/// The smaller of a number and the largest that a counter holds.
pub open spec fn saturated(x: int) -> int {
    if x > u64::MAX {
        u64::MAX as int
    } else {
        x
    }
}

pub(crate) fn saturating_mul(a: u64, b: u64) -> (r: u64)
    ensures
        r == saturated(a * b),
{
    match a.checked_mul(b) {
        Some(r) => r,
        None => u64::MAX,
    }
}

impl CostModel {
    /// The cost of work on an input of the given size, if it has a size.
    pub open spec fn cost(self, input: Option<u64>) -> int {
        match input {
            Some(n) => saturated(self.const_term + saturated(self.lin_term * n) / 128),
            None => self.const_term as int,
        }
    }

    pub fn evaluate(&self, input: Option<u64>) -> (r: u64)
        ensures
            r == self.cost(input),
    {
        match input {
            Some(n) => self.const_term.saturating_add(saturating_mul(self.lin_term, n) / 128),
            None => self.const_term,
        }
    }
}

impl BudgetDimension {
    /// The resource after work has been charged for, allowed or not.
    pub open spec fn charged(self, ty: ContractCostType, input: Option<u64>) -> BudgetDimension {
        BudgetDimension {
            total_count: saturated(self.total_count + self.models@[ty.spec_number() as int].cost(input)) as u64,
            ..self
        }
    }

    /// Whether no work costs anything of the resource.
    pub open spec fn is_free(self) -> bool {
        forall|i: int|
            0 <= i < COST_TYPES ==> (#[trigger] self.models@[i]) == (CostModel { const_term: 0, lin_term: 0 })
    }

    pub open spec fn within_limit(self) -> bool {
        self.total_count <= self.limit
    }

    /// Charges for work, and says whether the limit still holds.
    pub fn charge(&mut self, ty: ContractCostType, input: Option<u64>) -> (ok: bool)
        ensures
            *final(self) == old(self).charged(ty, input),
            ok == old(self).charged(ty, input).within_limit(),
    {
        let amount: u64 = self.models[ty.number()].evaluate(input);
        self.total_count = self.total_count.saturating_add(amount);
        self.total_count <= self.limit
    }
}

impl Default for BudgetDimension {
    /// A resource of which nothing costs anything.
    fn default() -> (d: BudgetDimension)
        ensures
            d.is_free(),
            d.limit == u64::MAX,
            d.total_count == 0,
    {
        BudgetDimension { models: [CostModel { const_term: 0, lin_term: 0 };29], limit: u64::MAX, total_count: 0 }
    }
}

impl Default for Budget {
    /// A budget under which nothing costs anything, until prices and limits are
    /// set.
    fn default() -> (b: Budget)
        ensures
            b.is_free(),
    {
        Budget { cpu_insns: BudgetDimension::default(), mem_bytes: BudgetDimension::default() }
    }
}

impl Budget {
    /// Whether nothing costs anything, nothing is limited and nothing was spent.
    pub open spec fn is_free(self) -> bool {
        &&& self.cpu_insns.is_free() && self.mem_bytes.is_free()
        &&& self.cpu_insns.limit == u64::MAX && self.mem_bytes.limit == u64::MAX
        &&& self.cpu_insns.total_count == 0 && self.mem_bytes.total_count == 0
    }

    /// The budget after work has been charged for. Memory is not charged for
    /// where the instructions are already used up.
    pub open spec fn charged(self, ty: ContractCostType, input: Option<u64>) -> Budget {
        let cpu_insns = self.cpu_insns.charged(ty, input);
        Budget {
            cpu_insns,
            mem_bytes: if cpu_insns.within_limit() {
                self.mem_bytes.charged(ty, input)
            } else {
                self.mem_bytes
            },
        }
    }

    /// Whether the budget allows work.
    pub open spec fn allows(self, ty: ContractCostType, input: Option<u64>) -> bool {
        self.cpu_insns.charged(ty, input).within_limit() && self.mem_bytes.charged(ty, input).within_limit()
    }

    /// Charges for work; fails where a limit is passed.
    pub fn charge(&mut self, ty: ContractCostType, input: Option<u64>) -> (res: Result<(), HostError>)
        ensures
            *final(self) == old(self).charged(ty, input),
            res == if old(self).allows(ty, input) {
                Ok::<(), HostError>(())
            } else {
                Err(budget_error())
            },
    {
        if self.cpu_insns.charge(ty, input) && self.mem_bytes.charge(ty, input) {
            Ok(())
        } else {
            Err(
                HostError {
                    error: Error::from_type_and_code(ScErrorType::Budget, ScErrorCode::ExceededLimit),
                    info: None,
                },
            )
        }
    }
}

/// The error of a passed limit.
pub open spec fn budget_error() -> HostError {
    HostError {
        error: Error { type_: ScErrorType::Budget, code: ScErrorCode::ExceededLimit.spec_number() },
        info: None,
    }
}

/// Charging only adds to what was spent, changes no price and no limit, and once
/// a limit is passed nothing is allowed any more.
pub proof fn law_spent_stays_spent(b: Budget, ty: ContractCostType, input: Option<u64>)
    ensures
        b.charged(ty, input).cpu_insns.total_count >= b.cpu_insns.total_count,
        b.charged(ty, input).mem_bytes.total_count >= b.mem_bytes.total_count,
        b.charged(ty, input).cpu_insns.limit == b.cpu_insns.limit,
        b.charged(ty, input).mem_bytes.limit == b.mem_bytes.limit,
        b.charged(ty, input).cpu_insns.models == b.cpu_insns.models,
        b.charged(ty, input).mem_bytes.models == b.mem_bytes.models,
        !b.cpu_insns.within_limit() || !b.mem_bytes.within_limit() ==> !b.allows(ty, input),
{
    let (c, m) = (b.cpu_insns, b.mem_bytes);
    lemma_cost_is_no_gain(c.models@[ty.spec_number() as int], input);
    lemma_cost_is_no_gain(m.models@[ty.spec_number() as int], input);
}

proof fn lemma_cost_is_no_gain(model: CostModel, input: Option<u64>)
    ensures
        0 <= model.cost(input) <= u64::MAX,
{
    if let Some(n) = input {
        assert(model.lin_term * n >= 0) by (nonlinear_arith);
    }
}

} // verus!
