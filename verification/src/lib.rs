//! A smart-contract host: a table of immutable host objects addressed by tagged
//! values, a total order on those values, the ledger and call context around
//! them, and the built-in token contract that runs on top.

pub mod auth_laws;
pub mod bignum;
pub mod budget;
pub mod collection_laws;
pub mod crypto;
pub mod error;
pub mod host;
pub mod host_address;
pub mod host_auth;
pub mod host_auth_entries;
pub mod host_buf;
pub mod host_call;
pub mod host_context;
pub mod host_contract;
pub mod host_convert;
pub mod host_create;
pub mod host_crypto;
pub mod host_frame;
pub mod host_int;
pub mod host_ledger;
pub mod host_map;
pub mod host_map_slices;
pub mod host_memory;
pub mod host_object;
pub mod host_order;
pub mod host_prng;
pub mod host_symbol;
pub mod host_vec;
pub mod ledger_laws;
pub mod memory;
pub mod memory_laws;
pub mod metering_laws;
pub mod model;
pub mod number_laws;
pub mod order_laws;
pub mod prng;
pub mod round_trip;
pub mod scval;
pub mod service_laws;
pub mod storage;
pub mod symbol;
pub mod token;
mod util;
pub mod val;
pub mod value_laws;
pub mod xdr;
pub mod xdr_value;

pub use bignum::{I256, U256};
pub use budget::{Budget, BudgetDimension, ContractCostType, CostModel};
pub use error::{ContractError, DebugInfo, Error, HostError, ScErrorCode, ScErrorType};
pub use host::{
    AuthorizationManager, AuthorizationMode, AuthorizedFunction, AuthorizedInvocation, Context, DiagnosticLevel, Event,
    Frame, Host, HostObject, LedgerInfo, TokenEvent, DEFAULT_HOST_DEPTH_LIMIT,
};
pub use host_auth::{AuthorizationEntry, AuthorizedFunctionEntry, Credentials};
pub use host_call::{Events, HostEvent};
pub use memory::VmCaller;
pub use model::{AccountId, Hash32, ScAddress};
pub use prng::{Prng, Seed, SEED_BYTES};
pub use scval::{ScMapEntry, ScVal};
pub use storage::{
    AccountFlags, AllowanceValue, AssetInfo, BalanceValue, ContractDataDurability, ContractExecutable, LedgerEntry,
    LedgerEntryData, LedgerKey, ScContractInstance, Storage, StorageType, TokenInstance, TokenMetadata,
};
pub use token::contract::{Token, TokenTrait};
pub use val::{
    AddressObject, BytesObject, DurationObject, I128Object, I256Object, I256Val, I64Object, MapObject, Object,
    ObjectTag, StringObject, Symbol, SymbolObject, TimepointObject, U128Object, U256Object, U256Val, U64Object, U64Val,
    Val, VecObject,
};
pub use xdr_value::XdrFault;
