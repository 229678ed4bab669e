//! The making of the contracts of assets.

use crate::error::HostError;
use crate::host::{fails, Frame, Host};
use crate::host_contract::{asset_contract_id, reads_asset, with_new_contract};
use crate::host_frame::{closes_frame, opens_frame};
use crate::host_ledger::sets_storage;
use crate::host_object::{address_handle, gives_up, stores, visit};
use crate::host_symbol::{law_symbol_text_is_kept, makes_symbol};
use crate::model::{Hash32, ObjModel, ScAddress};
use crate::scval::ScMapEntry;
use crate::storage::{AssetModel, ContractExecutable, KeyModel};
use crate::token::asset_info::asset_info;
use crate::token::contract::{
    asset_of_bytes, init_guard, inits, lemma_token_written, running_id, Token, TokenTrait,
};
use crate::token::laws::law_new_token_is_read_back;
use crate::val::{AddressObject, BytesObject, ObjectTag, Symbol, Val};
use crate::xdr::asset_of_xdr;
use vstd::prelude::*;
use vstd::string::*;

verus! {

/// The token contract starts to run, called with one argument.
pub open spec fn opens_token_frame(pre: Host, post: Host, id: Hash32, fn_name: Symbol, arg: Val) -> bool {
    exists|frame: Frame| #[trigger]
        opens_frame(pre, post, frame, Seq::empty()) && frame is Token && frame.contract_call() == Some(
            (id, fn_name, seq![arg]),
        )
}

/// The token contract runs to make itself the token of an asset.
pub open spec fn runs_init(
    pre: Host,
    post: Host,
    id: Hash32,
    fn_name: Symbol,
    asset: BytesObject,
    res: Result<(), HostError>,
) -> bool {
    exists|inner: Host, after: Host| #[trigger]
        inits(inner, after, asset, res) && opens_token_frame(pre, inner, id, fn_name, asset.to_val()) && closes_frame(
            after,
            post,
        )
}

/// With its entry made and the name of the function at hand, the contract of an
/// asset is made a token, and its address returned.
pub open spec fn makes_token(
    pre: Host,
    post: Host,
    id: Hash32,
    named: Result<Symbol, HostError>,
    asset: BytesObject,
    res: Result<AddressObject, HostError>,
) -> bool {
    match named {
        Err(e) => post == pre && res == Err::<AddressObject, HostError>(e),
        Ok(fn_name) => exists|ran: Host, r: Result<(), HostError>| #[trigger]
            runs_init(pre, ran, id, fn_name, asset, r) && match r {
                Err(e) => post == ran && res == Err::<AddressObject, HostError>(e),
                Ok(_) => stores(ran, post, ObjModel::Address(ScAddress::Contract(id)), address_handle(res)),
            },
    }
}

/// The contract of an asset is made.
pub open spec fn makes_asset_contract(
    pre: Host,
    post: Host,
    asset: BytesObject,
    res: Result<AddressObject, HostError>,
) -> bool {
    match reads_asset(pre, asset) {
        (h, Err(e)) => gives_up(h, post, res, e),
        (h, Ok(bytes)) => match asset_contract_id(h, bytes) {
            Err(f) => fails(h, post, res, f),
            Ok(id) => match with_new_contract(h, id, ContractExecutable::Token) {
                Err(f) => fails(h, post, res, f),
                Ok(m) => exists|made: Host, mid: Host, named: Result<Symbol, HostError>| #[trigger]
                    makes_symbol(made, mid, "init_asset".spec_bytes(), named) && sets_storage(h, made, m)
                        && makes_token(mid, post, id, named, asset, res),
            },
        },
    }
}

/// A contract that was made for an asset stands for that asset.
pub proof fn law_asset_contract_stands_for_asset(
    pre: Host,
    post: Host,
    asset: BytesObject,
    res: Result<AddressObject, HostError>,
)
    requires
        pre.wf(),
        makes_asset_contract(pre, post, asset, res),
        res is Ok,
    ensures
        ({
            let bytes = visit(pre.objs(), asset.handle, ObjectTag::BytesObject)->Ok_0->Blob_1;
            &&& asset_info(post.setting(), post.storage@, asset_contract_id(pre, bytes)->Ok_0) == Ok::<
                AssetModel,
                HostError,
            >(asset_of_bytes(asset_of_xdr(bytes)->Some_0))
            &&& post.storage@.contains_key(KeyModel::ContractInstance(asset_contract_id(pre, bytes)->Ok_0))
        }),
{
    let bytes = visit(pre.objs(), asset.handle, ObjectTag::BytesObject)->Ok_0->Blob_1;
    let id = asset_contract_id(pre, bytes)->Ok_0;
    let h = reads_asset(pre, asset).0;
    let m = with_new_contract(h, id, ContractExecutable::Token)->Ok_0;
    let (made, mid, named) = choose|made: Host, mid: Host, named: Result<Symbol, HostError>| #[trigger]
        makes_symbol(made, mid, "init_asset".spec_bytes(), named) && sets_storage(h, made, m) && makes_token(
            mid,
            post,
            id,
            named,
            asset,
            res,
        );
    law_symbol_text_is_kept(made, mid, "init_asset".spec_bytes(), named->Ok_0);
    let (ran, r) = choose|ran: Host, r: Result<(), HostError>| #[trigger]
        runs_init(mid, ran, id, named->Ok_0, asset, r) && match r {
            Err(e) => post == ran && res == Err::<AddressObject, HostError>(e),
            Ok(_) => stores(ran, post, ObjModel::Address(ScAddress::Contract(id)), address_handle(res)),
        };
    let (inner, after) = choose|inner: Host, after: Host| #[trigger]
        inits(inner, after, asset, r) && opens_token_frame(mid, inner, id, named->Ok_0, asset.to_val())
            && closes_frame(after, ran);
    assert(made.objs() == pre.objs());
    assert(inner.objs() == mid.objs());
    let index = crate::val::spec_handle_to_index(asset.handle);
    assert(mid.objs()[index] == made.objs()[index]);
    assert(visit(inner.objs(), asset.handle, ObjectTag::BytesObject)->Ok_0->Blob_1 == bytes);
    assert(running_id(inner) == id);
    assert(inner.storage@ == m);
    lemma_made_for_asset(inner, after, asset, bytes, id);
}

proof fn lemma_made_for_asset(pre: Host, post: Host, asset: BytesObject, bytes: Seq<u8>, id: Hash32)
    requires
        pre.wf(),
        inits(pre, post, asset, Ok(())),
        visit(pre.objs(), asset.handle, ObjectTag::BytesObject)->Ok_0->Blob_1 == bytes,
        running_id(pre) == id,
        pre.storage@.contains_key(KeyModel::ContractInstance(id)),
    ensures
        asset_info(post.setting(), post.storage@, id) == Ok::<AssetModel, HostError>(
            asset_of_bytes(asset_of_xdr(bytes)->Some_0),
        ),
        post.storage@.contains_key(KeyModel::ContractInstance(id)),
{
    assert(init_guard(pre, asset).1 is Ok);
    law_new_token_is_read_back(pre, post, asset, asset_of_bytes(asset_of_xdr(bytes)->Some_0), asset);
    lemma_init_keeps_instance(pre, post, asset, id);
}

proof fn lemma_init_keeps_instance(pre: Host, post: Host, asset: BytesObject, id: Hash32)
    requires
        inits(pre, post, asset, Ok(())),
        pre.storage@.contains_key(KeyModel::ContractInstance(id)),
    ensures
        post.storage@.contains_key(KeyModel::ContractInstance(id)),
{
    let (h, a) = init_guard(pre, asset);
    lemma_token_written(h, post, running_id(pre), a->Ok_0);
}

impl Host {
    fn open_token_frame(&mut self, contract_id: Hash32, fn_name: Symbol, arg: Val)
        requires
            old(self).wf(),
            crate::model::val_ok(old(self).objs(), fn_name.to_val()),
            crate::model::val_ok(old(self).objs(), arg),
        ensures
            opens_token_frame(*old(self), *final(self), contract_id, fn_name, arg),
    {
        let mut args: Vec<Val> = Vec::new();
        args.push(arg);
        assert(args@ =~= seq![arg]);
        let instance: Vec<ScMapEntry> = Vec::new();
        let frame = Frame::Token { contract_id, fn_name, args };
        assert(instance@ =~= Seq::<ScMapEntry>::empty());
        self.open_frame(frame, instance);
    }

    /// Makes the contract of an asset. Nobody has to agree to that.
    pub fn create_asset_contract(&mut self, serialized_asset: BytesObject) -> (res: Result<AddressObject, HostError>)
        requires
            old(self).wf(),
        ensures
            final(self).wf(),
            makes_asset_contract(*old(self), *final(self), serialized_asset, res),
    {
        let (_, bytes) = self.read_asset(serialized_asset)?;
        let id = self.get_asset_contract_id_hash(bytes.as_slice())?;
        let ghost pre = *self;
        self.create_contract_with_id(id, ContractExecutable::Token)?;
        let ghost made = *self;
        let named = self.symbol_from_str("init_asset");
        let ghost mid = *self;
        assert(makes_symbol(made, mid, "init_asset".spec_bytes(), named));
        let fn_name = match named {
            Ok(sym) => sym,
            Err(e) => {
                assert(makes_token(mid, *self, id, named, serialized_asset, Err(e)));
                return Err(e);
            },
        };
        proof {
            law_symbol_text_is_kept(made, mid, "init_asset".spec_bytes(), fn_name);
            let index = crate::val::spec_handle_to_index(serialized_asset.handle);
            assert(mid.objs()[index] == made.objs()[index]);
        }
        self.open_token_frame(id, fn_name, serialized_asset.to_val());
        let ghost inner = *self;
        let r = Token::init_asset(self, serialized_asset);
        let ghost after = *self;
        self.close_frame();
        let ghost ran = *self;
        assert(inits(inner, after, serialized_asset, r));
        assert(runs_init(mid, ran, id, fn_name, serialized_asset, r));
        let res = match r {
            Ok(_) => self.add_address(ScAddress::Contract(id)),
            Err(e) => Err(e),
        };
        assert(makes_token(mid, *self, id, named, serialized_asset, res));
        res
    }
}

} // verus!
