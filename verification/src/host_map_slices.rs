//! Maps whose keys are symbols, made of slices and taken apart into slices.

use crate::budget::budget_error;
use crate::error::{bare_error, Fault, HostError, ScErrorCode, ScErrorType};
use crate::host::{charge_bulk, charge_copy, fails, runs_out, Host, PAIR_SIZE, VAL_SIZE};
use crate::host_map::{law_lookup, law_map_fault, lookup, map_fault, values_of};
use crate::host_object::{gives_up, looks_at, map_handle, stores, val_fault, visit};
use crate::host_symbol::{
    as_symbol, holds_against, law_symbol_text_is_kept, lemma_symbol_text, makes_symbol, symbol_from_val, symbol_text,
    texts,
};
use crate::model::{
    deep, extends, key_at, law_values_are_immutable, map_ok, val_ok, BlobKind, Deep, ObjModel,
};
use crate::util::copy_pairs;
use crate::val::{MapObject, ObjectTag, Symbol, Val};
use vstd::prelude::*;
use vstd::string::*;

verus! {

/// The first `n` texts are made into symbols, in turn, and paired with the
/// values, each of which is looked at as its turn comes. What is added and
/// charged for before a failure stays.
pub open spec fn gathers(
    pre: Host,
    post: Host,
    keys: Seq<Seq<u8>>,
    vals: Seq<Val>,
    n: nat,
    res: Result<Seq<(Val, Val)>, HostError>,
) -> bool
    decreases n,
{
    if n == 0 {
        post == pre && res == Ok::<Seq<(Val, Val)>, HostError>(Seq::empty())
    } else {
        exists|mid: Host, before: Result<Seq<(Val, Val)>, HostError>|
            gathers(pre, mid, keys, vals, (n - 1) as nat, before) && #[trigger] gathers_one(
                mid,
                post,
                keys[n - 1],
                vals[n - 1],
                before,
                res,
            )
    }
}

/// One more text and value are paired, unless there was a failure before.
pub open spec fn gathers_one(
    pre: Host,
    post: Host,
    key: Seq<u8>,
    v: Val,
    before: Result<Seq<(Val, Val)>, HostError>,
    res: Result<Seq<(Val, Val)>, HostError>,
) -> bool {
    match before {
        Err(e) => post == pre && res == before,
        Ok(s) => exists|sym: Result<Symbol, HostError>|
            #[trigger] makes_symbol(pre, post, key, sym) && res == match sym {
                Err(e) => Err::<Seq<(Val, Val)>, HostError>(e),
                Ok(sym) => match val_fault(post.objs(), v) {
                    Some(f) => Err(post.spec_err(f)),
                    None => Ok(s.push((sym.to_val(), v))),
                },
            },
    }
}

/// A list of keys and values is made into a map object, unless there was a
/// failure before or the keys are not in order.
pub open spec fn makes_map(
    pre: Host,
    post: Host,
    pairs: Result<Seq<(Val, Val)>, HostError>,
    res: Result<MapObject, HostError>,
) -> bool {
    match pairs {
        Err(e) => post == pre && res == Err::<MapObject, HostError>(e),
        Ok(m) => match map_fault(pre.objs(), m, m.len() as int) {
            Some(f) => fails(pre, post, res, f),
            None => stores(pre, post, ObjModel::Mapping(m), map_handle(res)),
        },
    }
}

/// A key of a map that is to be taken apart is checked: it should be the symbol that
/// is expected. Holding it against the text is charged for.
pub open spec fn checks_key(host: Host, k: Val, text: Seq<u8>) -> (Host, Option<HostError>) {
    match as_symbol(k) {
        None => (host, Some(bare_error((ScErrorType::Value, ScErrorCode::UnexpectedType)))),
        Some(sym) => match holds_against(host, text, sym) {
            (h, Err(e)) => (h, Some(e)),
            (h, Ok(is_same)) => (
                h,
                if is_same {
                    None
                } else {
                    Some(h.spec_err((ScErrorType::Value, ScErrorCode::InvalidInput)))
                },
            ),
        },
    }
}

/// The first `n` keys are checked, until there is an error.
pub open spec fn checks_keys(host: Host, m: Seq<(Val, Val)>, keys: Seq<Seq<u8>>, n: nat) -> (Host, Option<HostError>)
    decreases n,
{
    if n == 0 {
        (host, None)
    } else {
        match checks_keys(host, m, keys, (n - 1) as nat) {
            (h, Some(e)) => (h, Some(e)),
            (h, None) => checks_key(h, m[n - 1].0, keys[n - 1]),
        }
    }
}

/// Whether the keys of a map are symbols of given texts.
pub open spec fn has_texts(objs: Seq<ObjModel>, m: Seq<(Val, Val)>, keys: Seq<Seq<u8>>) -> bool {
    &&& m.len() == keys.len()
    &&& forall|i: int|
        0 <= i < m.len() ==> as_symbol((#[trigger] m[i]).0) is Some && symbol_text(objs, as_symbol(m[i].0)->Some_0)
            == Ok::<Seq<u8>, Fault>(keys[i])
}

/// Where the keys of a map are the symbols of the texts that are expected, nothing
/// but the budget keeps the map from being taken apart.
pub proof fn law_expected_keys_pass(host: Host, m: Seq<(Val, Val)>, keys: Seq<Seq<u8>>, n: nat)
    requires
        has_texts(host.objs(), m, keys),
        n <= m.len(),
    ensures
        checks_keys(host, m, keys, n).1 matches Some(e) ==> e == budget_error(),
        checks_keys(host, m, keys, n).0 == (Host { budget: checks_keys(host, m, keys, n).0.budget, ..host }),
    decreases n,
{
    if n > 0 {
        law_expected_keys_pass(host, m, keys, (n - 1) as nat);
        let p = m[n - 1];
    }
}

proof fn lemma_gather_step(
    pre: Host,
    mid: Host,
    post: Host,
    keys: Seq<Seq<u8>>,
    vals: Seq<Val>,
    n: nat,
    before: Result<Seq<(Val, Val)>, HostError>,
    res: Result<Seq<(Val, Val)>, HostError>,
)
    requires
        gathers(pre, mid, keys, vals, n, before),
        gathers_one(mid, post, keys[n as int], vals[n as int], before, res),
    ensures
        gathers(pre, post, keys, vals, n + 1, res),
{
    assert((n + 1) as nat - 1 == n);
}

proof fn lemma_gather_failure(
    pre: Host,
    post: Host,
    keys: Seq<Seq<u8>>,
    vals: Seq<Val>,
    n: nat,
    end: nat,
    res: Result<Seq<(Val, Val)>, HostError>,
)
    requires
        n <= end,
        res is Err,
        gathers(pre, post, keys, vals, n, res),
    ensures
        gathers(pre, post, keys, vals, end, res),
    decreases end,
{
    if n < end {
        lemma_gather_failure(pre, post, keys, vals, n, (end - 1) as nat, res);
        assert(gathers_one(post, post, keys[end - 1], vals[end - 1], res, res));
    }
}

/// What was gathered has one pair for each text and value: a key that denotes
/// the text, and the value.
pub proof fn law_gathered_pairs(
    pre: Host,
    post: Host,
    keys: Seq<Seq<u8>>,
    vals: Seq<Val>,
    n: nat,
    m: Seq<(Val, Val)>,
)
    requires
        pre.wf(),
        n <= keys.len(),
        n <= vals.len(),
        gathers(pre, post, keys, vals, n, Ok(m)),
    ensures
        post.wf(),
        extends(pre.objs(), post.objs()),
        m.len() == n,
        forall|i: int| #![trigger m[i]]
            0 <= i < n ==> {
                &&& val_ok(post.objs(), m[i].0)
                &&& deep(post.objs(), m[i].0) == Deep::Blob(BlobKind::Symbol, keys[i])
                &&& m[i].1 == vals[i]
                &&& val_ok(post.objs(), m[i].1)
            },
    decreases n,
{
    if n > 0 {
        let (mid, before) = choose|mid: Host, before: Result<Seq<(Val, Val)>, HostError>|
            gathers(pre, mid, keys, vals, (n - 1) as nat, before) && #[trigger] gathers_one(
                mid,
                post,
                keys[n - 1],
                vals[n - 1],
                before,
                Ok(m),
            );
        let s = before->Ok_0;
        law_gathered_pairs(pre, mid, keys, vals, (n - 1) as nat, s);
        let sym = choose|sym: Result<Symbol, HostError>|
            #[trigger] makes_symbol(mid, post, keys[n - 1], sym) && Ok::<Seq<(Val, Val)>, HostError>(m)
                == match sym {
                Err(e) => Err::<Seq<(Val, Val)>, HostError>(e),
                Ok(sym) => match val_fault(post.objs(), vals[n - 1]) {
                    Some(f) => Err(post.spec_err(f)),
                    None => Ok(s.push((sym.to_val(), vals[n - 1]))),
                },
            };
        law_symbol_text_is_kept(mid, post, keys[n - 1], sym->Ok_0);
        assert forall|i: int| #![trigger m[i]] 0 <= i < n implies {
            &&& val_ok(post.objs(), m[i].0)
            &&& deep(post.objs(), m[i].0) == Deep::Blob(BlobKind::Symbol, keys[i])
            &&& m[i].1 == vals[i]
            &&& val_ok(post.objs(), m[i].1)
        } by {
            if i < n - 1 {
                assert(m[i] == s[i]);
                law_values_are_immutable(mid.objs(), post.objs(), s[i].0);
                law_values_are_immutable(mid.objs(), post.objs(), s[i].1);
            }
        }
    }
}

/// In a map that was made of slices each text has its value.
pub proof fn law_map_of_slices_is_looked_up(
    pre: Host,
    post: Host,
    keys: Seq<Seq<u8>>,
    vals: Seq<Val>,
    m: Seq<(Val, Val)>,
    i: int,
)
    requires
        pre.wf(),
        keys.len() == vals.len(),
        gathers(pre, post, keys, vals, keys.len(), Ok(m)),
        map_fault(post.objs(), m, m.len() as int) is None,
        0 <= i < keys.len(),
    ensures
        map_ok(post.objs(), m),
        lookup(post.objs(), m, Deep::Blob(BlobKind::Symbol, keys[i])) == Some(vals[i]),
{
    law_gathered_pairs(pre, post, keys, vals, keys.len(), m);
    law_map_fault(post.objs(), m, m.len() as int);
    assert(m.take(m.len() as int) =~= m);
    let p = m[i];
    law_lookup(post.objs(), m, key_at(post.objs(), m, i));
}

/// Taking a map apart with the texts that it was made of gives the values back, if
/// the budget allows it.
pub proof fn law_slices_round_trip(
    pre: Host,
    post: Host,
    keys: Seq<Seq<u8>>,
    vals: Seq<Val>,
    m: Seq<(Val, Val)>,
    later: Host,
)
    requires
        pre.wf(),
        keys.len() == vals.len(),
        gathers(pre, post, keys, vals, keys.len(), Ok(m)),
        later.objs() == post.objs(),
    ensures
        has_texts(post.objs(), m, keys),
        checks_keys(later, m, keys, keys.len()).1 matches Some(e) ==> e == budget_error(),
        values_of(m) == vals,
{
    law_gathered_pairs(pre, post, keys, vals, keys.len(), m);
    assert(values_of(m) =~= vals) by {
        assert forall|i: int| 0 <= i < m.len() implies values_of(m)[i] == vals[i] by {
            let p = m[i];
        }
    }
    assert forall|i: int| 0 <= i < m.len() implies as_symbol((#[trigger] m[i]).0) is Some && symbol_text(
        post.objs(),
        as_symbol(m[i].0)->Some_0,
    ) == Ok::<Seq<u8>, Fault>(keys[i]) by {
        let k = m[i].0;
        assert(as_symbol(k) is Some);
        lemma_symbol_text(post.objs(), as_symbol(k)->Some_0);
    }
    law_expected_keys_pass(later, m, keys, keys.len());
}

impl Host {
    /// A map from the symbols of some texts to values. The texts must be in
    /// rising order of their symbols.
    pub fn map_new_from_slices(&mut self, keys: &[&str], vals: &[Val]) -> (res: Result<MapObject, HostError>)
        requires
            old(self).wf(),
        ensures
            final(self).wf(),
            does_map_new_from_slices(*old(self), *final(self), keys@, vals@, res),
    {
        if keys.len() != vals.len() {
            return Err(self.err(ScErrorType::Object, ScErrorCode::UnexpectedSize));
        }
        self.charge_bulk_init_cpy(keys.len() as u64, PAIR_SIZE)?;
        let ghost start = *self;
        let ghost list = texts(keys@);
        let mut m: Vec<(Val, Val)> = Vec::new();
        let mut i: usize = 0;
        while i < keys.len()
            invariant
                start.wf(),
                self.wf(),
                i <= keys@.len() == vals@.len(),
                list == texts(keys@),
                charge_bulk(*old(self), keys@.len() as int, PAIR_SIZE as int) == (start, Ok::<(), HostError>(())),
                gathers(start, *self, list, vals@, i as nat, Ok(m@)),
            decreases keys@.len() - i,
        {
            let ghost mid = *self;
            let ghost before: Result<Seq<(Val, Val)>, HostError> = Ok(m@);
            assert(list[i as int] == keys@[i as int].spec_bytes());
            let sym = self.symbol_from_str(keys[i]);
            let sym = match sym {
                Ok(sym) => sym,
                Err(e) => {
                    proof {
                        let failed: Result<Seq<(Val, Val)>, HostError> = Err(e);
                        assert(makes_symbol(mid, *self, list[i as int], Err(e)));
                        lemma_gather_step(start, mid, *self, list, vals@, i as nat, before, failed);
                        lemma_gather_failure(start, *self, list, vals@, (i + 1) as nat, keys@.len(), failed);
                        assert(makes_map(*self, *self, failed, Err(e)));
                    }
                    return Err(e);
                },
            };
            assert(makes_symbol(mid, *self, list[i as int], Ok(sym)));
            match self.check_val_integrity(vals[i]) {
                Ok(_) => {},
                Err(e) => {
                    proof {
                        let failed: Result<Seq<(Val, Val)>, HostError> = Err(e);
                        lemma_gather_step(start, mid, *self, list, vals@, i as nat, before, failed);
                        lemma_gather_failure(start, *self, list, vals@, (i + 1) as nat, keys@.len(), failed);
                        assert(makes_map(*self, *self, failed, Err(e)));
                    }
                    return Err(e);
                },
            }
            m.push((sym.to_val(), vals[i]));
            proof {
                lemma_gather_step(start, mid, *self, list, vals@, i as nat, before, Ok(m@));
            }
            i += 1;
        }
        proof {
            law_gathered_pairs(start, *self, list, vals@, keys@.len(), m@);
        }
        let ghost mid = *self;
        let ghost pairs: Result<Seq<(Val, Val)>, HostError> = Ok(m@);
        let res = match self.check_map_order(&m) {
            Ok(_) => self.add_map(m),
            Err(e) => Err(e),
        };
        assert(makes_map(mid, *self, pairs, res));
        res
    }

    /// Writes the values of a map to a slice. The keys of the map must be the
    /// symbols of the given texts.
    pub fn map_unpack_to_slice(&mut self, map: MapObject, keys: &[&str], vals: &mut [Val]) -> (res: Result<
        (),
        HostError,
    >)
        requires
            old(self).wf(),
        ensures
            final(self).wf(),
            does_map_unpack_to_slice(*old(self), *final(self), map, keys@, old(vals)@, final(vals)@, res),
    {
        if keys.len() != vals.len() {
            return Err(self.err(ScErrorType::Object, ScErrorCode::UnexpectedSize));
        }
        let n: usize = keys.len();
        self.charge_visit()?;
        let hm = copy_pairs(self.visit_map(map)?.as_slice());
        if hm.len() != vals.len() {
            return Err(self.err(ScErrorType::Object, ScErrorCode::UnexpectedSize));
        }
        let ghost list = texts(keys@);
        let ghost seen = *self;
        let mut i: usize = 0;
        while i < n
            invariant
                self.wf(),
                i <= n == keys@.len() == hm@.len(),
                list == texts(keys@),
                looks_at(*old(self), map.handle, ObjectTag::MapObject) == (
                    seen,
                    Ok::<ObjModel, HostError>(ObjModel::Mapping(hm@)),
                ),
                checks_keys(seen, hm@, list, i as nat) == (*self, None::<HostError>),
                keys@.len() == old(vals)@.len(),
                vals@ == old(vals)@,
            decreases n - i,
        {
            assert(list[i as int] == keys@[i as int].spec_bytes());
            proof {
                lemma_key_error_in_front(seen, hm@, list, (i + 1) as nat, n as nat);
            }
            match symbol_from_val(hm[i].0) {
                Ok(sym) => self.check_symbol_matches(keys[i].as_bytes(), sym)?,
                Err(e) => return Err(e),
            }
            i += 1;
        }
        let values = crate::host_map::collect_values(hm.as_slice());
        self.charge_shallow_copy(n as u64, VAL_SIZE)?;
        copy_into(vals, values.as_slice());
        Ok(())
    }
}

proof fn lemma_key_error_in_front(host: Host, m: Seq<(Val, Val)>, keys: Seq<Seq<u8>>, n: nat, end: nat)
    requires
        n <= end,
    ensures
        checks_keys(host, m, keys, n).1 is Some ==> checks_keys(host, m, keys, end) == checks_keys(host, m, keys, n),
    decreases end,
{
    if n < end {
        lemma_key_error_in_front(host, m, keys, n, (end - 1) as nat);
    }
}

/// Overwrites a slice with another of the same length.
pub(crate) fn copy_into(to: &mut [Val], from: &[Val])
    requires
        old(to)@.len() == from@.len(),
    ensures
        final(to)@ == from@,
{
    let mut i: usize = 0;
    while i < from.len()
        invariant
            i <= from@.len() == to@.len(),
            forall|j: int| 0 <= j < i ==> to@[j] == from@[j],
        decreases from@.len() - i,
    {
        to[i] = from[i];
        i += 1;
    }
    assert(to@ =~= from@);
}

/// What `map_new_from_slices` does.
pub open spec fn does_map_new_from_slices(
    pre: Host,
    post: Host,
    keys: Seq<&str>,
    vals: Seq<Val>,
    res: Result<MapObject, HostError>,
) -> bool {
    if keys.len() != vals.len() {
        fails(pre, post, res, (ScErrorType::Object, ScErrorCode::UnexpectedSize))
    } else {
        let charged = charge_bulk(pre, keys.len() as int, PAIR_SIZE as int);
        if charged.1 is Err {
            runs_out(charged, post, res)
        } else {
            exists|mid: Host, pairs: Result<Seq<(Val, Val)>, HostError>|
                gathers(charged.0, mid, texts(keys), vals, keys.len(), pairs) && #[trigger] makes_map(
                    mid,
                    post,
                    pairs,
                    res,
                )
        }
    }
}

/// What `map_unpack_to_slice` does.
pub open spec fn does_map_unpack_to_slice(
    pre: Host,
    post: Host,
    map: MapObject,
    keys: Seq<&str>,
    vals: Seq<Val>,
    changed: Seq<Val>,
    res: Result<(), HostError>,
) -> bool {
    &&& changed == if res is Ok {
        values_of(visit(pre.objs(), map.handle, ObjectTag::MapObject)->Ok_0->Mapping_0)
    } else {
        vals
    }
    &&& if keys.len() != vals.len() {
        fails(pre, post, res, (ScErrorType::Object, ScErrorCode::UnexpectedSize))
    } else {
        match looks_at(pre, map.handle, ObjectTag::MapObject) {
            (h, Err(e)) => gives_up(h, post, res, e),
            (h, Ok(obj)) => if obj->Mapping_0.len() != vals.len() {
                fails(h, post, res, (ScErrorType::Object, ScErrorCode::UnexpectedSize))
            } else {
                match checks_keys(h, obj->Mapping_0, texts(keys), keys.len()) {
                    (h, Some(e)) => gives_up(h, post, res, e),
                    (h, None) => (post, res) == charge_copy(h, keys.len() as int, VAL_SIZE as int),
                }
            },
        }
    }
}

} // verus!
