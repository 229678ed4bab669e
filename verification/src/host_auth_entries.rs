//! What a contract agrees to for the calls that it is about to make.

use crate::error::{bare, bare_error, Fault, HostError, ScErrorCode, ScErrorType};
use crate::host::{fails, AuthorizedFunction, AuthorizedInvocation, Host, DEFAULT_HOST_DEPTH_LIMIT};
use crate::host_auth::{sets_invocations, FunctionModel};
use crate::host_contract::{lemma_u256_of_int, u256_of_int};
use crate::host_frame::current_contract;
use crate::host_int::bytes_as_number;
use crate::host_map::values_of;
use crate::host_object::{gives_up, looks_at, visit};
use crate::host_symbol::{as_symbol, symbol_from_val, symbol_text, texts};
use crate::model::{vals_ok, Hash32, ObjModel, ScAddress};
use crate::util::{bytes_eq, copy_vals};
use crate::val::{AddressObject, BytesObject, MapObject, Object, ObjectTag, Val, VecObject};
use vstd::prelude::*;
use vstd::string::*;

verus! {

/// The characters of a value that is a symbol.
pub open spec fn text_of(objs: Seq<ObjModel>, v: Val) -> Option<Seq<u8>> {
    match as_symbol(v) {
        None => None,
        Some(sym) => match symbol_text(objs, sym) {
            Ok(s) => Some(s),
            Err(_) => None,
        },
    }
}

/// The elements of a value that is a vector.
pub open spec fn list_of(objs: Seq<ObjModel>, v: Val) -> Option<Seq<Val>> {
    match v {
        Val::Object(o) => match visit(objs, o.handle, ObjectTag::VecObject) {
            Ok(ObjModel::Vector(s)) => if o.tag == ObjectTag::VecObject {
                Some(s)
            } else {
                None
            },
            _ => None,
        },
        _ => None,
    }
}

/// The contract of a value that is the address of one.
pub open spec fn contract_of(objs: Seq<ObjModel>, v: Val) -> Option<Hash32> {
    match v {
        Val::Object(o) => match visit(objs, o.handle, ObjectTag::AddressObject) {
            Ok(ObjModel::Address(ScAddress::Contract(id))) => if o.tag == ObjectTag::AddressObject {
                Some(id)
            } else {
                None
            },
            _ => None,
        },
        _ => None,
    }
}

/// The number of a value that is a byte string of 32 bytes.
pub open spec fn number_of(objs: Seq<ObjModel>, v: Val) -> Option<int> {
    match v {
        Val::Object(o) => if o.tag == ObjectTag::BytesObject {
            match bytes_as_number(objs, BytesObject { handle: o.handle }) {
                Ok(x) => Some(x),
                Err(_) => None,
            }
        } else {
            None
        },
        _ => None,
    }
}

/// The values of a value that is a map from given symbols and no others.
pub open spec fn fields_of(objs: Seq<ObjModel>, v: Val, names: Seq<Seq<u8>>) -> Option<Seq<Val>> {
    match v {
        Val::Object(o) => match visit(objs, o.handle, ObjectTag::MapObject) {
            Ok(ObjModel::Mapping(m)) => if o.tag == ObjectTag::MapObject && has_keys(objs, m, names) {
                Some(values_of(m))
            } else {
                None
            },
            _ => None,
        },
        _ => None,
    }
}

/// Whether the keys of a map are given symbols and no others.
pub open spec fn has_keys(objs: Seq<ObjModel>, m: Seq<(Val, Val)>, names: Seq<Seq<u8>>) -> bool {
    &&& m.len() == names.len()
    &&& forall|i: int| 0 <= i < m.len() ==> text_of(objs, (#[trigger] m[i]).0) == Some(names[i])
}

/// The name and the content of a value that is a vector of a symbol and one
/// thing more.
pub open spec fn variant_of(objs: Seq<ObjModel>, v: Val) -> Option<(Seq<u8>, Val)> {
    match list_of(objs, v) {
        None => None,
        Some(s) => if s.len() != 2 {
            None
        } else {
            match text_of(objs, s[0]) {
                None => None,
                Some(name) => Some((name, s[1])),
            }
        },
    }
}

/// The call that a value describes.
pub open spec fn call_of(objs: Seq<ObjModel>, v: Val) -> Option<FunctionModel> {
    let names = seq!["args".spec_bytes(), "contract".spec_bytes(), "fn_name".spec_bytes()];
    match fields_of(objs, v, names) {
        None => None,
        Some(f) => match (list_of(objs, f[0]), contract_of(objs, f[1]), text_of(objs, f[2])) {
            (Some(args), Some(id), Some(name)) => Some(FunctionModel::ContractFn(id, name, args)),
            _ => None,
        },
    }
}

/// The making of a contract by a contract that a value describes.
pub open spec fn creation_of(objs: Seq<ObjModel>, deployer: ScAddress, v: Val) -> Option<FunctionModel> {
    match fields_of(objs, v, seq!["executable".spec_bytes(), "salt".spec_bytes()]) {
        None => None,
        Some(f) => match (variant_of(objs, f[0]), number_of(objs, f[1])) {
            (Some((name, hash)), Some(salt)) => match number_of(objs, hash) {
                Some(hash) => if name == "Wasm".spec_bytes() {
                    Some(FunctionModel::CreateContract(deployer, u256_of_int(salt), Hash32(u256_of_int(hash))))
                } else {
                    None
                },
                None => None,
            },
            _ => None,
        },
    }
}

/// What a value says that a contract agrees to: the making of a contract, or a
/// call and what comes of it.
pub open spec fn entry_of(objs: Seq<ObjModel>, deployer: ScAddress, v: Val, levels: nat) -> Option<Seq<FunctionModel>>
    decreases levels, 0nat,
{
    if levels == 0 {
        None
    } else {
        match variant_of(objs, v) {
            None => None,
            Some((name, content)) => if name == "Contract".spec_bytes() {
                let names = seq!["context".spec_bytes(), "sub_invocations".spec_bytes()];
                match fields_of(objs, content, names) {
                    None => None,
                    Some(f) => match (call_of(objs, f[0]), list_of(objs, f[1])) {
                        (Some(call), Some(subs)) => match entries_of(
                            objs,
                            deployer,
                            subs,
                            subs.len(),
                            (levels - 1) as nat,
                        ) {
                            None => None,
                            Some(more) => Some(seq![call] + more),
                        },
                        _ => None,
                    },
                }
            } else if name == "CreateContractHostFn".spec_bytes() {
                match creation_of(objs, deployer, content) {
                    None => None,
                    Some(c) => Some(seq![c]),
                }
            } else {
                None
            },
        }
    }
}

/// What the first `n` values of a list say that a contract agrees to.
pub open spec fn entries_of(
    objs: Seq<ObjModel>,
    deployer: ScAddress,
    s: Seq<Val>,
    n: nat,
    levels: nat,
) -> Option<Seq<FunctionModel>>
    decreases levels, n,
{
    if n == 0 {
        Some(Seq::empty())
    } else {
        match entries_of(objs, deployer, s, (n - 1) as nat, levels) {
            None => None,
            Some(before) => match entry_of(objs, deployer, s[n - 1], levels) {
                None => None,
                Some(more) => Some(before + more),
            },
        }
    }
}

proof fn lemma_entries_failure(objs: Seq<ObjModel>, deployer: ScAddress, s: Seq<Val>, n: nat, end: nat, levels: nat)
    requires
        n <= end,
        entries_of(objs, deployer, s, n, levels) is None,
    ensures
        entries_of(objs, deployer, s, end, levels) is None,
    decreases end,
{
    if n < end {
        lemma_entries_failure(objs, deployer, s, n, (end - 1) as nat, levels);
    }
}

/// Agreements of one address are added to those that are there.
pub open spec fn adds_agreements(pre: Host, post: Host, address: ScAddress, list: Seq<FunctionModel>) -> bool {
    let before = pre.authorization_manager.invocations@;
    let after = post.authorization_manager.invocations@;
    &&& sets_invocations(pre, post)
    &&& after.len() == before.len() + list.len()
    &&& forall|i: int| 0 <= i < before.len() ==> #[trigger] after[i] == before[i]
    &&& forall|i: int|
        0 <= i < list.len() ==> {
            &&& (#[trigger] after[before.len() + i]).address == address
            &&& after[before.len() + i].function@ == list[i]
            &&& !after[before.len() + i].is_exhausted
        }
}

/// The models of a list of things that can be agreed to.
pub open spec fn functions_model(s: Seq<AuthorizedFunction>) -> Seq<FunctionModel> {
    s.map_values(|f: AuthorizedFunction| f@)
}

pub open spec fn functions_ok(objs: Seq<ObjModel>, s: Seq<AuthorizedFunction>) -> bool {
    forall|i: int| 0 <= i < s.len() ==> (#[trigger] s[i]).ok(objs)
}

impl Host {
    fn text_of_val(&self, v: Val) -> (r: Option<Vec<u8>>)
        requires
            self.wf(),
        ensures
            match (r, text_of(self.objs(), v)) {
                (Some(a), Some(b)) => a@ == b,
                (None, None) => true,
                _ => false,
            },
    {
        match symbol_from_val(v) {
            Err(_) => None,
            Ok(sym) => match self.symbol_bytes(sym) {
                Ok(s) => Some(s),
                Err(_) => None,
            },
        }
    }

    fn list_of_val(&self, v: Val) -> (r: Option<Vec<Val>>)
        requires
            self.wf(),
        ensures
            match (r, list_of(self.objs(), v)) {
                (Some(a), Some(b)) => a@ == b && vals_ok(self.objs(), b),
                (None, None) => true,
                _ => false,
            },
    {
        match v {
            Val::Object(Object { tag: ObjectTag::VecObject, handle }) => match self.visit_vec(VecObject { handle }) {
                Ok(s) => Some(copy_vals(s.as_slice())),
                Err(_) => None,
            },
            _ => None,
        }
    }

    fn contract_of_val(&self, v: Val) -> (r: Option<Hash32>)
        requires
            self.wf(),
        ensures
            r == contract_of(self.objs(), v),
    {
        match v {
            Val::Object(Object { tag: ObjectTag::AddressObject, handle }) => match self.visit_address(
                AddressObject { handle },
            ) {
                Ok(ScAddress::Contract(id)) => Some(id),
                _ => None,
            },
            _ => None,
        }
    }

    fn number_of_val(&self, v: Val) -> (r: Option<crate::bignum::U256>)
        requires
            self.wf(),
        ensures
            match (r, number_of(self.objs(), v)) {
                (Some(a), Some(b)) => a@ == b && a == u256_of_int(b),
                (None, None) => true,
                _ => false,
            },
    {
        match v {
            Val::Object(Object { tag: ObjectTag::BytesObject, handle }) => match self.u256_from_bytesobj_input(
                BytesObject { handle },
            ) {
                Ok(x) => {
                    proof {
                        lemma_u256_of_int(x);
                    }
                    Some(x)
                },
                Err(_) => None,
            },
            _ => None,
        }
    }

    fn fields_of_val(&self, v: Val, names: &[&str]) -> (r: Option<Vec<Val>>)
        requires
            self.wf(),
        ensures
            match (r, fields_of(self.objs(), v, texts(names@))) {
                (Some(a), Some(b)) => a@ == b && a@.len() == names@.len(),
                (None, None) => true,
                _ => false,
            },
    {
        match v {
            Val::Object(Object { tag: ObjectTag::MapObject, handle }) => match self.visit_map(MapObject { handle }) {
                Ok(m) => {
                    if m.len() != names.len() {
                        return None;
                    }
                    let ghost list = texts(names@);
                    let mut i: usize = 0;
                    while i < m.len()
                        invariant
                            self.wf(),
                            i <= m@.len() == names@.len(),
                            list == texts(names@),
                            v == Val::Object(Object { tag: ObjectTag::MapObject, handle }),
                            visit(self.objs(), handle, ObjectTag::MapObject) == Ok::<ObjModel, Fault>(
                                ObjModel::Mapping(m@),
                            ),
                            forall|j: int|
                                0 <= j < i ==> text_of(self.objs(), (#[trigger] m@[j]).0) == Some(list[j]),
                        decreases m@.len() - i,
                    {
                        assert(list[i as int] == names@[i as int].spec_bytes());
                        let same = match self.text_of_val(m[i].0) {
                            Some(s) => bytes_eq(s.as_slice(), names[i].as_bytes()),
                            None => false,
                        };
                        if !same {
                            assert(text_of(self.objs(), m@[i as int].0) != Some(list[i as int]));
                            return None;
                        }
                        i += 1;
                    }
                    Some(crate::host_map::collect_values(m.as_slice()))
                },
                Err(_) => None,
            },
            _ => None,
        }
    }

    fn variant_of_val(&self, v: Val) -> (r: Option<(Vec<u8>, Val)>)
        requires
            self.wf(),
        ensures
            match (r, variant_of(self.objs(), v)) {
                (Some(a), Some(b)) => a.0@ == b.0 && a.1 == b.1,
                (None, None) => true,
                _ => false,
            },
    {
        let s = self.list_of_val(v)?;
        if s.len() != 2 {
            return None;
        }
        let name = self.text_of_val(s[0])?;
        Some((name, s[1]))
    }

    fn call_of_val(&self, v: Val) -> (r: Option<AuthorizedFunction>)
        requires
            self.wf(),
        ensures
            match (r, call_of(self.objs(), v)) {
                (Some(a), Some(b)) => a@ == b && a.ok(self.objs()),
                (None, None) => true,
                _ => false,
            },
    {
        let names = ["args", "contract", "fn_name"];
        assert(texts(names@) =~= seq!["args".spec_bytes(), "contract".spec_bytes(), "fn_name".spec_bytes()]);
        let f = self.fields_of_val(v, names.as_slice())?;
        let args = self.list_of_val(f[0]);
        let contract_id = self.contract_of_val(f[1]);
        let function_name = self.text_of_val(f[2]);
        match (args, contract_id, function_name) {
            (Some(args), Some(contract_id), Some(function_name)) => Some(
                AuthorizedFunction::ContractFn { contract_id, function_name, args },
            ),
            _ => None,
        }
    }

    fn creation_of_val(&self, deployer: ScAddress, v: Val) -> (r: Option<AuthorizedFunction>)
        requires
            self.wf(),
        ensures
            match (r, creation_of(self.objs(), deployer, v)) {
                (Some(a), Some(b)) => a@ == b && a.ok(self.objs()),
                (None, None) => true,
                _ => false,
            },
    {
        let names = ["executable", "salt"];
        assert(texts(names@) =~= seq!["executable".spec_bytes(), "salt".spec_bytes()]);
        let f = self.fields_of_val(v, names.as_slice())?;
        let executable = self.variant_of_val(f[0]);
        let salt = self.number_of_val(f[1]);
        match (executable, salt) {
            (Some((name, hash)), Some(salt)) => {
                let hash = self.number_of_val(hash)?;
                if !bytes_eq(name.as_slice(), "Wasm".as_bytes()) {
                    return None;
                }
                Some(AuthorizedFunction::CreateContract { deployer, salt, wasm_hash: Hash32(hash) })
            },
            _ => None,
        }
    }

    #[verifier::rlimit(30)]
    fn entry_of_val(&self, deployer: ScAddress, v: Val, levels: u32) -> (r: Option<Vec<AuthorizedFunction>>)
        requires
            self.wf(),
        ensures
            match (r, entry_of(self.objs(), deployer, v, levels as nat)) {
                (Some(a), Some(b)) => functions_model(a@) == b && functions_ok(self.objs(), a@),
                (None, None) => true,
                _ => false,
            },
        decreases levels, 0nat,
    {
        if levels == 0 {
            return None;
        }
        let (name, content) = self.variant_of_val(v)?;
        if bytes_eq(name.as_slice(), "Contract".as_bytes()) {
            let names = ["context", "sub_invocations"];
            assert(texts(names@) =~= seq!["context".spec_bytes(), "sub_invocations".spec_bytes()]);
            let f = self.fields_of_val(content, names.as_slice())?;
            let call = self.call_of_val(f[0]);
            let subs = self.list_of_val(f[1]);
            match (call, subs) {
                (Some(call), Some(subs)) => {
                    let mut more = self.entries_of_vals(deployer, subs.as_slice(), levels - 1)?;
                    let mut all: Vec<AuthorizedFunction> = Vec::new();
                    all.push(call);
                    let ghost rest = more@;
                    all.append(&mut more);
                    proof {
                        assert(all@ =~= seq![call] + rest);
                        assert(functions_model(all@) =~= seq![call@] + functions_model(rest));
                    }
                    Some(all)
                },
                _ => None,
            }
        } else if bytes_eq(name.as_slice(), "CreateContractHostFn".as_bytes()) {
            let c = self.creation_of_val(deployer, content)?;
            let mut all: Vec<AuthorizedFunction> = Vec::new();
            all.push(c);
            proof {
                assert(functions_model(all@) =~= seq![c@]);
            }
            Some(all)
        } else {
            None
        }
    }

    fn entries_of_vals(&self, deployer: ScAddress, s: &[Val], levels: u32) -> (r: Option<Vec<AuthorizedFunction>>)
        requires
            self.wf(),
        ensures
            match (r, entries_of(self.objs(), deployer, s@, s@.len(), levels as nat)) {
                (Some(a), Some(b)) => functions_model(a@) == b && functions_ok(self.objs(), a@),
                (None, None) => true,
                _ => false,
            },
        decreases levels, 1nat,
    {
        let mut all: Vec<AuthorizedFunction> = Vec::new();
        let mut i: usize = 0;
        assert(functions_model(all@) =~= Seq::<FunctionModel>::empty());
        while i < s.len()
            invariant
                self.wf(),
                i <= s@.len(),
                functions_ok(self.objs(), all@),
                entries_of(self.objs(), deployer, s@, i as nat, levels as nat) == Some(functions_model(all@)),
            decreases s@.len() - i,
        {
            match self.entry_of_val(deployer, s[i], levels) {
                None => {
                    proof {
                        lemma_entries_failure(
                            self.objs(),
                            deployer,
                            s@,
                            (i + 1) as nat,
                            s@.len(),
                            levels as nat,
                        );
                    }
                    return None;
                },
                Some(more) => {
                    let mut more = more;
                    let ghost (before, rest) = (all@, more@);
                    all.append(&mut more);
                    proof {
                        assert(all@ =~= before + rest);
                        assert(functions_model(all@) =~= functions_model(before) + functions_model(rest));
                    }
                },
            }
            i += 1;
        }
        Some(all)
    }

    /// Lets the running contract agree to what it says in advance: calls that the
    /// contracts that it is about to call will make, and contracts that they will
    /// make.
    pub fn authorize_as_curr_contract(&mut self, auth_entries: VecObject) -> (res: Result<(), HostError>)
        requires
            old(self).wf(),
        ensures
            final(self).wf(),
            does_authorize_as_curr_contract(*old(self), *final(self), auth_entries, res),
    {
        self.charge_visit()?;
        let list = self.call_args_from_obj(auth_entries)?;
        let id = self.get_current_contract_id_internal()?;
        let address = ScAddress::Contract(id);
        let mut functions = match self.entries_of_vals(address, list.as_slice(), DEFAULT_HOST_DEPTH_LIMIT) {
            Some(functions) => functions,
            None => return Err(bare(ScErrorType::Value, ScErrorCode::UnexpectedType)),
        };
        let ghost pre = *self;
        let ghost all = functions@;
        let ghost before = pre.authorization_manager.invocations@;
        let mut fresh: Vec<AuthorizedInvocation> = Vec::new();
        while functions.len() > 0
            invariant
                functions@ == all.take(functions@.len() as int),
                functions@.len() <= all.len(),
                functions_ok(self.objs(), all),
                fresh@.len() == all.len() - functions@.len(),
                forall|i: int|
                    0 <= i < fresh@.len() ==> {
                        &&& (#[trigger] fresh@[i]).address == address
                        &&& fresh@[i].function == all[all.len() - 1 - i]
                        &&& !fresh@[i].is_exhausted
                    },
            decreases functions@.len(),
        {
            let n: usize = functions.len();
            if let Some(function) = functions.pop() {
                assert(function == all[n - 1]);
                fresh.push(AuthorizedInvocation { address, function, is_exhausted: false });
                assert(functions@ =~= all.take(n - 1));
            }
        }
        let ghost reversed = fresh@;
        while fresh.len() > 0
            invariant
                *self == (Host { authorization_manager: self.authorization_manager, ..pre }),
                self.authorization_manager.mode == pre.authorization_manager.mode,
                before == pre.authorization_manager.invocations@,
                reversed.len() == all.len(),
                fresh@ == reversed.take(fresh@.len() as int),
                fresh@.len() <= reversed.len(),
                forall|i: int|
                    0 <= i < reversed.len() ==> {
                        &&& (#[trigger] reversed[i]).address == address
                        &&& reversed[i].function == all[all.len() - 1 - i]
                        &&& !reversed[i].is_exhausted
                    },
                self.authorization_manager.invocations@.len() == before.len() + (reversed.len() - fresh@.len()),
                forall|i: int|
                    0 <= i < before.len() ==> #[trigger] self.authorization_manager.invocations@[i] == before[i],
                forall|i: int|
                    before.len() <= i < self.authorization_manager.invocations@.len() ==> (
                    #[trigger] self.authorization_manager.invocations@[i]) == reversed[reversed.len() - 1 - (i
                        - before.len())],
            decreases fresh@.len(),
        {
            let n: usize = fresh.len();
            if let Some(inv) = fresh.pop() {
                assert(inv == reversed[n - 1]);
                self.authorization_manager.invocations.push(inv);
                assert(fresh@ =~= reversed.take(n - 1));
            }
        }
        proof {
            let after = self.authorization_manager.invocations@;
            assert forall|i: int| 0 <= i < all.len() implies {
                &&& (#[trigger] after[before.len() + i]).address == address
                &&& after[before.len() + i].function@ == functions_model(all)[i]
                &&& !after[before.len() + i].is_exhausted
            } by {
                assert(after[before.len() + i] == reversed[reversed.len() - 1 - i]);
                assert(reversed[reversed.len() - 1 - i].function == all[i]);
            }
            assert forall|i: int| 0 <= i < after.len() implies (#[trigger] after[i]).function.ok(self.objs()) by {
                if i < before.len() {
                    assert(before[i].function.ok(pre.objs()));
                } else {
                    let j = i - before.len();
                    assert(after[i] == reversed[reversed.len() - 1 - j]);
                    assert(reversed[reversed.len() - 1 - j].function == all[j]);
                    assert(all[j].ok(pre.objs()));
                }
            }
        }
        Ok(())
    }
}

/// What `authorize_as_curr_contract` does.
pub open spec fn does_authorize_as_curr_contract(
    pre: Host,
    post: Host,
    auth_entries: VecObject,
    res: Result<(), HostError>,
) -> bool {
    match looks_at(pre, auth_entries.handle, ObjectTag::VecObject) {
        (h, Err(e)) => gives_up(h, post, res, e),
        (h, Ok(obj)) => match current_contract(h) {
            Err(f) => fails(h, post, res, f),
            Ok(id) => match entries_of(
                pre.objs(),
                ScAddress::Contract(id),
                obj->Vector_0,
                obj->Vector_0.len(),
                DEFAULT_HOST_DEPTH_LIMIT as nat,
            ) {
                None => post == h && res == Err::<(), HostError>(
                    bare_error((ScErrorType::Value, ScErrorCode::UnexpectedType)),
                ),
                Some(list) => {
                    &&& res == Ok::<(), HostError>(())
                    &&& adds_agreements(h, post, ScAddress::Contract(id), list)
                },
            },
        },
    }
}

} // verus!
