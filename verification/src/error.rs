//! Error values: a type, a code and, on a debugging host, a note of how far the
//! event log had grown when the error was raised.

use vstd::prelude::*;

verus! {

/// The part of the host that an error comes from.
#[derive(Clone, Copy, PartialEq, Eq, Structural, Debug)]
pub enum ScErrorType {
    Contract,
    WasmVm,
    Context,
    Storage,
    Object,
    Crypto,
    Events,
    Budget,
    Value,
    Auth,
}

/// What went wrong, for every error type but `Contract`, whose codes belong to
/// the contract that raised it.
#[derive(Clone, Copy, PartialEq, Eq, Structural, Debug)]
pub enum ScErrorCode {
    ArithDomain,
    IndexBounds,
    InvalidInput,
    MissingValue,
    ExistingValue,
    ExceededLimit,
    InvalidAction,
    InternalError,
    UnexpectedType,
    UnexpectedSize,
}

/// An error type together with a code, as guests see it.
#[derive(Clone, Copy, PartialEq, Eq, Structural, Debug)]
pub struct Error {
    pub type_: ScErrorType,
    pub code: u32,
}

/// How many events the host had recorded when an error was raised.
#[derive(Clone, Copy, PartialEq, Eq, Structural, Debug)]
pub struct DebugInfo {
    pub events: usize,
}

/// The error of every host function.
#[derive(Clone, Copy, PartialEq, Eq, Structural, Debug)]
pub struct HostError {
    pub error: Error,
    pub info: Option<DebugInfo>,
}

/// The errors that the built-in token contract raises itself.
#[derive(Clone, Copy, PartialEq, Eq, Structural, Debug)]
pub enum ContractError {
    InternalError,
    OperationNotSupportedError,
    AlreadyInitializedError,
    UnauthorizedError,
    AuthenticationError,
    AccountMissingError,
    AccountIsNotClassic,
    NegativeAmountError,
    AllowanceError,
    BalanceError,
    BalanceDeauthorizedError,
    OverflowError,
    TrustlineMissingError,
}

/// The reason for a host failure, before the host turns it into a [`HostError`].
pub type Fault = (ScErrorType, ScErrorCode);

impl ScErrorType {
    /// The number under which the type travels in a packed error value.
    pub open spec fn spec_number(self) -> u32 {
        match self {
            ScErrorType::Contract => 0,
            ScErrorType::WasmVm => 1,
            ScErrorType::Context => 2,
            ScErrorType::Storage => 3,
            ScErrorType::Object => 4,
            ScErrorType::Crypto => 5,
            ScErrorType::Events => 6,
            ScErrorType::Budget => 7,
            ScErrorType::Value => 8,
            ScErrorType::Auth => 9,
        }
    }

    #[verifier::when_used_as_spec(spec_number)]
    pub fn number(self) -> (n: u32)
        ensures
            n == self.spec_number(),
            n < 10,
    {
        match self {
            ScErrorType::Contract => 0,
            ScErrorType::WasmVm => 1,
            ScErrorType::Context => 2,
            ScErrorType::Storage => 3,
            ScErrorType::Object => 4,
            ScErrorType::Crypto => 5,
            ScErrorType::Events => 6,
            ScErrorType::Budget => 7,
            ScErrorType::Value => 8,
            ScErrorType::Auth => 9,
        }
    }

    /// The type with the given number, if there is one.
    pub fn from_number(n: u32) -> (t: Option<ScErrorType>)
        ensures
            t is Some <==> n < 10,
            t matches Some(x) ==> x.spec_number() == n,
    {
        if n == 0 {
            Some(ScErrorType::Contract)
        } else if n == 1 {
            Some(ScErrorType::WasmVm)
        } else if n == 2 {
            Some(ScErrorType::Context)
        } else if n == 3 {
            Some(ScErrorType::Storage)
        } else if n == 4 {
            Some(ScErrorType::Object)
        } else if n == 5 {
            Some(ScErrorType::Crypto)
        } else if n == 6 {
            Some(ScErrorType::Events)
        } else if n == 7 {
            Some(ScErrorType::Budget)
        } else if n == 8 {
            Some(ScErrorType::Value)
        } else if n == 9 {
            Some(ScErrorType::Auth)
        } else {
            None
        }
    }
}

impl ScErrorCode {
    /// The number under which the code travels in a packed error value.
    pub open spec fn spec_number(self) -> u32 {
        match self {
            ScErrorCode::ArithDomain => 0,
            ScErrorCode::IndexBounds => 1,
            ScErrorCode::InvalidInput => 2,
            ScErrorCode::MissingValue => 3,
            ScErrorCode::ExistingValue => 4,
            ScErrorCode::ExceededLimit => 5,
            ScErrorCode::InvalidAction => 6,
            ScErrorCode::InternalError => 7,
            ScErrorCode::UnexpectedType => 8,
            ScErrorCode::UnexpectedSize => 9,
        }
    }

    #[verifier::when_used_as_spec(spec_number)]
    pub fn number(self) -> (n: u32)
        ensures
            n == self.spec_number(),
    {
        match self {
            ScErrorCode::ArithDomain => 0,
            ScErrorCode::IndexBounds => 1,
            ScErrorCode::InvalidInput => 2,
            ScErrorCode::MissingValue => 3,
            ScErrorCode::ExistingValue => 4,
            ScErrorCode::ExceededLimit => 5,
            ScErrorCode::InvalidAction => 6,
            ScErrorCode::InternalError => 7,
            ScErrorCode::UnexpectedType => 8,
            ScErrorCode::UnexpectedSize => 9,
        }
    }
}

impl ContractError {
    /// The contract-level code of a token error.
    pub open spec fn spec_number(self) -> u32 {
        match self {
            ContractError::InternalError => 1,
            ContractError::OperationNotSupportedError => 2,
            ContractError::AlreadyInitializedError => 3,
            ContractError::UnauthorizedError => 4,
            ContractError::AuthenticationError => 5,
            ContractError::AccountMissingError => 6,
            ContractError::AccountIsNotClassic => 7,
            ContractError::NegativeAmountError => 8,
            ContractError::AllowanceError => 9,
            ContractError::BalanceError => 10,
            ContractError::BalanceDeauthorizedError => 11,
            ContractError::OverflowError => 12,
            ContractError::TrustlineMissingError => 13,
        }
    }

    #[verifier::when_used_as_spec(spec_number)]
    pub fn number(self) -> (n: u32)
        ensures
            n == self.spec_number(),
    {
        match self {
            ContractError::InternalError => 1,
            ContractError::OperationNotSupportedError => 2,
            ContractError::AlreadyInitializedError => 3,
            ContractError::UnauthorizedError => 4,
            ContractError::AuthenticationError => 5,
            ContractError::AccountMissingError => 6,
            ContractError::AccountIsNotClassic => 7,
            ContractError::NegativeAmountError => 8,
            ContractError::AllowanceError => 9,
            ContractError::BalanceError => 10,
            ContractError::BalanceDeauthorizedError => 11,
            ContractError::OverflowError => 12,
            ContractError::TrustlineMissingError => 13,
        }
    }
}

impl Error {
    #[verifier::allow_in_spec]
    pub fn from_type_and_code(type_: ScErrorType, code: ScErrorCode) -> Error
        returns
            (Error { type_, code: code.spec_number() }),
    {
        Error { type_, code: code.number() }
    }

    /// An error that a contract raises with a code of its own.
    #[verifier::allow_in_spec]
    pub fn from_contract_error(code: u32) -> Error
        returns
            (Error { type_: ScErrorType::Contract, code }),
    {
        Error { type_: ScErrorType::Contract, code }
    }

    #[verifier::allow_in_spec]
    pub fn is_type(self, type_: ScErrorType) -> bool
        returns
            self.type_ == type_,
    {
        self.type_ == type_
    }

    #[verifier::allow_in_spec]
    pub fn is_code(self, code: ScErrorCode) -> bool
        returns
            self.code == code.spec_number(),
    {
        self.code == code.number()
    }

    #[verifier::allow_in_spec]
    pub fn get_code(self) -> u32
        returns
            self.code,
    {
        self.code
    }
}

impl HostError {
    /// Whether a caller may carry on after a callee failed with this error:
    /// contract errors always, host errors unless they report a broken host or
    /// an exhausted limit.
    #[verifier::allow_in_spec]
    pub fn is_recoverable(&self) -> bool
        returns
            self.error.type_ == ScErrorType::Contract || !(self.error.code
                == ScErrorCode::InternalError.spec_number() || self.error.code
                == ScErrorCode::ExceededLimit.spec_number()),
    {
        self.error.is_type(ScErrorType::Contract) || !(self.error.is_code(
            ScErrorCode::InternalError,
        ) || self.error.is_code(ScErrorCode::ExceededLimit))
    }
}

/// An error with nothing noted beside it, as conversions raise it.
pub open spec fn bare_error(f: Fault) -> HostError {
    HostError { error: Error { type_: f.0, code: f.1.spec_number() }, info: None }
}

pub(crate) fn bare(type_: ScErrorType, code: ScErrorCode) -> (e: HostError)
    ensures
        e == bare_error((type_, code)),
{
    HostError { error: Error::from_type_and_code(type_, code), info: None }
}

} // verus!
