//! Assets and contract ids in their XDR form, and account ids as text.

use crate::bignum::{be_bytes, U256};
use crate::model::ScAddress;
use ethnum::U256 as Word256;
use stellar_xdr::curr::{
    self, ContractIdPreimage, ContractIdPreimageFromAddress, HashIdPreimage, HashIdPreimageContractId, Limits, PublicKey,
    ReadXdr, Uint256, WriteXdr,
};
use vstd::prelude::*;
use vstd::utf8::valid_utf8;

verus! {

/// An asset as it comes: its code and the public key of its issuer are bytes.
pub enum Asset {
    Native,
    CreditAlphanum4 { asset_code: Vec<u8>, issuer: Vec<u8> },
    CreditAlphanum12 { asset_code: Vec<u8>, issuer: Vec<u8> },
}

/// What an asset denotes.
pub enum AssetBytes {
    Native,
    CreditAlphanum4(Seq<u8>, Seq<u8>),
    CreditAlphanum12(Seq<u8>, Seq<u8>),
}

impl View for Asset {
    type V = AssetBytes;

    open spec fn view(&self) -> AssetBytes {
        match self {
            Asset::Native => AssetBytes::Native,
            Asset::CreditAlphanum4 { asset_code, issuer } => AssetBytes::CreditAlphanum4(asset_code@, issuer@),
            Asset::CreditAlphanum12 { asset_code, issuer } => AssetBytes::CreditAlphanum12(asset_code@, issuer@),
        }
    }
}

/// Whether the code and the key of an asset have the lengths that they must have.
pub open spec fn has_lengths(a: AssetBytes) -> bool {
    match a {
        AssetBytes::Native => true,
        AssetBytes::CreditAlphanum4(code, issuer) => code.len() == 4 && issuer.len() == 32,
        AssetBytes::CreditAlphanum12(code, issuer) => code.len() == 12 && issuer.len() == 32,
    }
}

/// The XDR form of a small number.
pub open spec fn xdr_tag(n: u8) -> Seq<u8> {
    seq![0u8, 0, 0, n]
}

/// The asset that bytes are the XDR form of, if they are that of one: the kind of
/// the asset, then its code, the kind of the issuer's key, and the key.
pub open spec fn asset_of_xdr(bytes: Seq<u8>) -> Option<AssetBytes> {
    if bytes == xdr_tag(0) {
        Some(AssetBytes::Native)
    } else if bytes.len() == 44 && bytes.take(4) == xdr_tag(1) && bytes.subrange(8, 12) == xdr_tag(0) {
        Some(AssetBytes::CreditAlphanum4(bytes.subrange(4, 8), bytes.subrange(12, 44)))
    } else if bytes.len() == 52 && bytes.take(4) == xdr_tag(2) && bytes.subrange(16, 20) == xdr_tag(0) {
        Some(AssetBytes::CreditAlphanum12(bytes.subrange(4, 16), bytes.subrange(20, 52)))
    } else {
        None
    }
}

/// The XDR form of an address: its kind, for an account the kind of its key, and
/// the key or the id.
pub open spec fn address_xdr(a: ScAddress) -> Seq<u8> {
    match a {
        ScAddress::Account(account) => xdr_tag(0) + xdr_tag(0) + be_bytes(account.0@, 32),
        ScAddress::Contract(id) => xdr_tag(1) + be_bytes(id.0@, 32),
    }
}

/// The XDR form of what the id of an asset's contract is the hash of: the kind of
/// hashed thing, the network, the kind of contract, and the asset.
pub open spec fn asset_preimage_xdr(network_id: Seq<u8>, serialized_asset: Seq<u8>) -> Seq<u8> {
    xdr_tag(8) + network_id + xdr_tag(1) + serialized_asset
}

/// The XDR form of what the id of a deployed contract is the hash of: the kind of
/// hashed thing, the network, the kind of contract, the deployer and the salt.
pub open spec fn deployer_preimage_xdr(network_id: Seq<u8>, deployer: ScAddress, salt: U256) -> Seq<u8> {
    xdr_tag(8) + network_id + xdr_tag(0) + address_xdr(deployer) + be_bytes(salt@, 32)
}

/// Calls `stellar_xdr::curr::Asset::from_xdr`: the asset that the bytes are the
/// form of, or nothing where they are not the form of one.
#[verifier::external_body]
pub(crate) fn asset_from_xdr(bytes: &[u8]) -> (asset: Option<Asset>)
    ensures
        match (asset, asset_of_xdr(bytes@)) {
            (Some(a), Some(m)) => a@ == m,
            (None, None) => true,
            _ => false,
        },
{
    match curr::Asset::from_xdr(bytes, Limits::none()).ok()? {
        curr::Asset::Native => Some(Asset::Native),
        curr::Asset::CreditAlphanum4(a) => {
            let PublicKey::PublicKeyTypeEd25519(key) = a.issuer.0;
            Some(Asset::CreditAlphanum4 { asset_code: a.asset_code.0.to_vec(), issuer: key.0.to_vec() })
        },
        curr::Asset::CreditAlphanum12(a) => {
            let PublicKey::PublicKeyTypeEd25519(key) = a.issuer.0;
            Some(Asset::CreditAlphanum12 { asset_code: a.asset_code.0.to_vec(), issuer: key.0.to_vec() })
        },
    }
}

/// Calls `stellar_xdr::curr::HashIdPreimage::to_xdr` on the contract id preimage
/// of a network and of the asset that bytes are the form of: the form of the
/// preimage. Writing to memory without limits does not fail.
#[verifier::external_body]
pub(crate) fn asset_preimage_to_xdr(network_id: &[u8], serialized_asset: &[u8]) -> (xdr: Option<Vec<u8>>)
    requires
        network_id@.len() == 32,
        asset_of_xdr(serialized_asset@) is Some,
    ensures
        xdr is Some,
        xdr->Some_0@ == asset_preimage_xdr(network_id@, serialized_asset@),
{
    let asset = curr::Asset::from_xdr(serialized_asset, Limits::none()).ok()?;
    let network_id = curr::Hash(<[u8; 32]>::try_from(network_id).ok()?);
    let contract_id_preimage = ContractIdPreimage::Asset(asset);
    let preimage = HashIdPreimageContractId { network_id, contract_id_preimage };
    HashIdPreimage::ContractId(preimage).to_xdr(Limits::none()).ok()
}

/// Calls `stellar_xdr::curr::HashIdPreimage::to_xdr` on the contract id preimage
/// of a network, a deployer and a salt: the form of the preimage. Writing to
/// memory without limits does not fail.
#[verifier::external_body]
pub(crate) fn deployer_preimage_to_xdr(network_id: &[u8], deployer: ScAddress, salt: U256) -> (xdr: Option<Vec<u8>>)
    requires
        network_id@.len() == 32,
    ensures
        xdr is Some,
        xdr->Some_0@ == deployer_preimage_xdr(network_id@, deployer, salt),
{
    let address = match deployer {
        ScAddress::Account(a) => {
            let key = Uint256(Word256::from_words(a.0.hi, a.0.lo).to_be_bytes());
            curr::ScAddress::Account(curr::AccountId(PublicKey::PublicKeyTypeEd25519(key)))
        },
        ScAddress::Contract(c) => {
            curr::ScAddress::Contract(curr::Hash(Word256::from_words(c.0.hi, c.0.lo).to_be_bytes()))
        },
    };
    let salt = Uint256(Word256::from_words(salt.hi, salt.lo).to_be_bytes());
    let network_id = curr::Hash(<[u8; 32]>::try_from(network_id).ok()?);
    let contract_id_preimage = ContractIdPreimage::Address(ContractIdPreimageFromAddress { address, salt });
    let preimage = HashIdPreimageContractId { network_id, contract_id_preimage };
    HashIdPreimage::ContractId(preimage).to_xdr(Limits::none()).ok()
}

/// The text of an account's public key.
pub uninterp spec fn account_strkey(key: Seq<u8>) -> Seq<u8>;

/// Calls `stellar_strkey::ed25519::PublicKey::to_string`: the bytes of the text,
/// of which there are 56, and which depend on the key alone.
#[verifier::external_body]
pub(crate) fn account_to_strkey(key: &[u8]) -> (text: Vec<u8>)
    requires
        key@.len() == 32,
    ensures
        text@ == account_strkey(key@),
        text@.len() == 56,
{
    let mut bytes = [0u8; 32];
    bytes.copy_from_slice(key);
    stellar_strkey::ed25519::PublicKey(bytes).to_string().as_bytes().to_vec()
}

/// Calls `core::str::from_utf8`: whether bytes are UTF-8.
#[verifier::external_body]
pub(crate) fn is_utf8(bytes: &[u8]) -> (ok: bool)
    ensures
        ok == valid_utf8(bytes@),
{
    core::str::from_utf8(bytes).is_ok()
}

} // verus!
