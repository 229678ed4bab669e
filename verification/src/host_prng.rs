//! Pseudo-random numbers for the running contract.

use crate::budget::ContractCostType;
use crate::error::{HostError, ScErrorCode, ScErrorType};
use crate::host::{charge, fails, runs_out, Context, Host};
use crate::host_frame::no_frame;
use crate::host_object::{bytes_handle, gives_up, looks_at, stores, stores_list, vec_handle};
use crate::model::{val_ok, BlobKind, ObjModel};
use crate::prng::{
    chacha20_bytes, chacha20_in_range, chacha20_shuffled, empty_range_error, is_permutation, positions,
    seed_from_bytes, Prng, SEED_BYTES,
};
use crate::util::{copy_bytes, copy_vals};
use crate::val::{BytesObject, ObjectTag, Val, VecObject};
use vstd::prelude::*;

verus! {

/// The generator of the running contract, once it has one.
pub open spec fn running_prng(host: Host) -> Prng {
    host.context@.last().prng->Some_0
}

/// Only the generator of the running contract has changed, to the given one.
pub open spec fn sets_prng(pre: Host, post: Host, prng: Prng) -> bool {
    &&& post.wf()
    &&& pre.context@.len() > 0
    &&& post.context@.len() == pre.context@.len()
    &&& post.context@.drop_last() == pre.context@.drop_last()
    &&& post.context@.last() == (Context { prng: Some(prng), ..pre.context@.last() })
    &&& post == (Host { context: post.context, ..pre })
}

/// The running contract gets its generator, unless it has one: its seed is drawn
/// from the generator of the host.
pub open spec fn readies_prng(pre: Host, post: Host, res: Result<(), HostError>) -> bool {
    if pre.context@.len() == 0 {
        fails(pre, post, res, no_frame())
    } else if pre.context@.last().prng is Some {
        post == pre && res == Ok::<(), HostError>(())
    } else {
        match pre.base_prng {
            None => fails(pre, post, res, (ScErrorType::Context, ScErrorCode::MissingValue)),
            Some(base) => {
                let (seed, word_pos) = chacha20_bytes(base.seed@, base.word_pos, 32);
                &&& res == Ok::<(), HostError>(())
                &&& running_prng(post).seed@ == seed
                &&& running_prng(post).word_pos == 0
                &&& post.base_prng == Some(Prng { word_pos, ..base })
                &&& sets_prng(Host { base_prng: post.base_prng, ..pre }, post, running_prng(post))
            },
        }
    }
}

/// With its generator at hand, the running contract draws bytes, each of which is
/// charged for.
pub open spec fn draws_bytes(
    pre: Host,
    post: Host,
    ready: Result<(), HostError>,
    length: nat,
    res: Result<BytesObject, HostError>,
) -> bool {
    match ready {
        Err(e) => post == pre && res == Err::<BytesObject, HostError>(e),
        Ok(_) => {
            let p = running_prng(pre);
            let (bytes, word_pos) = chacha20_bytes(p.seed@, p.word_pos, length);
            let charged = charge(pre, ContractCostType::ChaCha20DrawBytes, Some(length as u64));
            if charged.1 is Err {
                runs_out(charged, post, res)
            } else {
                exists|mid: Host| #[trigger]
                    sets_prng(charged.0, mid, Prng { word_pos, ..p }) && stores(
                        mid,
                        post,
                        ObjModel::Blob(BlobKind::Bytes, bytes),
                        bytes_handle(res),
                    )
            }
        },
    }
}

/// With its generator at hand, the running contract draws a number, which is
/// charged for as eight bytes.
pub open spec fn draws_number(
    pre: Host,
    post: Host,
    ready: Result<(), HostError>,
    lo: u64,
    hi: u64,
    res: Result<u64, HostError>,
) -> bool {
    match ready {
        Err(e) => post == pre && res == Err::<u64, HostError>(e),
        Ok(_) => {
            let p = running_prng(pre);
            let charged = charge(pre, ContractCostType::ChaCha20DrawBytes, Some(8u64));
            if charged.1 is Err {
                runs_out(charged, post, res)
            } else if lo > hi {
                sets_prng(charged.0, post, p) && res == Err::<u64, HostError>(empty_range_error())
            } else {
                let (x, word_pos) = chacha20_in_range(p.seed@, p.word_pos, lo, hi);
                &&& sets_prng(charged.0, post, Prng { word_pos, ..p })
                &&& res == Ok::<u64, HostError>(x)
                &&& lo <= x <= hi
            }
        },
    }
}

/// The elements of a list in another order.
pub open spec fn reordered(s: Seq<Val>, order: Seq<usize>) -> Seq<Val> {
    Seq::new(order.len(), |i: int| s[order[i] as int])
}

/// Puts the elements of a list in another order.
pub fn reorder_vals(s: &[Val], order: &[usize]) -> (r: Vec<Val>)
    requires
        forall|i: int| 0 <= i < order@.len() ==> (#[trigger] order@[i]) < s@.len(),
    ensures
        r@ == reordered(s@, order@),
{
    let mut r: Vec<Val> = Vec::new();
    let mut i: usize = 0;
    while i < order.len()
        invariant
            i <= order@.len(),
            forall|i: int| 0 <= i < order@.len() ==> (#[trigger] order@[i]) < s@.len(),
            r@ == reordered(s@, order@.take(i as int)),
        decreases order@.len() - i,
    {
        r.push(s[order[i]]);
        assert(r@ =~= reordered(s@, order@.take(i + 1)));
        i += 1;
    }
    assert(order@.take(i as int) =~= order@);
    r
}

/// With its generator at hand, the running contract shuffles a list.
pub open spec fn shuffles(
    pre: Host,
    post: Host,
    ready: Result<(), HostError>,
    s: Seq<Val>,
    res: Result<VecObject, HostError>,
) -> bool {
    match ready {
        Err(e) => post == pre && res == Err::<VecObject, HostError>(e),
        Ok(_) => {
            let p = running_prng(pre);
            let (order, word_pos) = chacha20_shuffled(p.seed@, p.word_pos, positions(s.len()));
            &&& is_permutation(order, s.len())
            &&& order.to_multiset() == positions(s.len()).to_multiset()
            &&& exists|mid: Host| #[trigger]
                sets_prng(pre, mid, Prng { word_pos, ..p }) && stores_list(
                    mid,
                    post,
                    reordered(s, order),
                    vec_handle(res),
                )
        },
    }
}

/// With its generator at hand, the running contract starts it over from a seed.
pub open spec fn starts_over(
    pre: Host,
    post: Host,
    ready: Result<(), HostError>,
    seed: Seq<u8>,
    res: Result<(), HostError>,
) -> bool {
    match ready {
        Err(e) => post == pre && res == ready,
        Ok(_) => {
            &&& res == Ok::<(), HostError>(())
            &&& running_prng(post).seed@ == seed
            &&& running_prng(post).word_pos == 0
            &&& sets_prng(pre, post, running_prng(post))
        },
    }
}

/// Two generators that were started over from the same seed draw the same, where
/// the budget allows the drawing.
pub proof fn law_reseeding_makes_draws_repeatable(
    a: Host,
    a1: Host,
    b: Host,
    b1: Host,
    seed: Seq<u8>,
    lo: u64,
    hi: u64,
    a2: Host,
    b2: Host,
    ra: Result<u64, HostError>,
    rb: Result<u64, HostError>,
)
    requires
        starts_over(a, a1, Ok(()), seed, Ok(())),
        starts_over(b, b1, Ok(()), seed, Ok(())),
        charge(a1, ContractCostType::ChaCha20DrawBytes, Some(8u64)).1 is Ok,
        charge(b1, ContractCostType::ChaCha20DrawBytes, Some(8u64)).1 is Ok,
        draws_number(a1, a2, Ok(()), lo, hi, ra),
        draws_number(b1, b2, Ok(()), lo, hi, rb),
    ensures
        ra == rb,
{
}

/// A shuffled list has the same elements, each as often as before.
pub proof fn law_shuffle_keeps_elements(s: Seq<Val>, order: Seq<usize>)
    requires
        is_permutation(order, s.len()),
        order.to_multiset() == positions(s.len()).to_multiset(),
        s.len() <= usize::MAX,
    ensures
        reordered(s, order).to_multiset() == s.to_multiset(),
{
    let p = positions(s.len());
    assert(reordered(s, p) =~= s);
    assert forall|i: int| 0 <= i < p.len() implies (#[trigger] p[i]) < s.len() by {}
    lemma_same_elements(s, order, p);
}

proof fn lemma_same_elements(s: Seq<Val>, a: Seq<usize>, b: Seq<usize>)
    requires
        a.to_multiset() == b.to_multiset(),
    ensures
        reordered(s, a).to_multiset() == reordered(s, b).to_multiset(),
    decreases a.len(),
{
    broadcast use vstd::seq_lib::group_to_multiset_ensures;

    assert(a.len() == a.to_multiset().len() && b.len() == b.to_multiset().len());
    if a.len() == 0 {
        assert(reordered(s, a) =~= reordered(s, b));
    } else {
        let n = a.len() - 1;
        let x = a[n];
        assert(a.contains(x));
        assert(b.to_multiset().count(x) > 0);
        assert(b.contains(x));
        let j = choose|j: int| 0 <= j < b.len() && b[j] == x;
        let (a1, b1) = (a.remove(n), b.remove(j));
        assert(a1.to_multiset() =~= a.to_multiset().remove(x));
        assert(b1.to_multiset() =~= b.to_multiset().remove(x));
        lemma_same_elements(s, a1, b1);
        let (ra, rb) = (reordered(s, a), reordered(s, b));
        assert(ra.remove(n) =~= reordered(s, a1));
        assert(rb.remove(j) =~= reordered(s, b1));
        let v = s[x as int];
        assert(ra[n] == v && rb[j] == v);
        assert(ra.remove(n).to_multiset() =~= ra.to_multiset().remove(v));
        assert(rb.remove(j).to_multiset() =~= rb.to_multiset().remove(v));
        assert(ra.contains(ra[n]) && rb.contains(rb[j]));
        assert(ra.to_multiset().remove(v).insert(v) =~= ra.to_multiset());
        assert(rb.to_multiset().remove(v).insert(v) =~= rb.to_multiset());
    }
}

impl Host {
    fn ready_prng(&mut self) -> (res: Result<(), HostError>)
        requires
            old(self).wf(),
        ensures
            final(self).wf(),
            readies_prng(*old(self), *final(self), res),
            res is Ok ==> {
                &&& final(self).context@.len() > 0
                &&& final(self).context@.last().prng is Some
                &&& final(self).objs() == old(self).objs()
            },
    {
        let n: usize = self.context.len();
        if n == 0 {
            return Err(self.err(ScErrorType::Context, ScErrorCode::MissingValue));
        }
        if self.context[n - 1].prng.is_some() {
            return Ok(());
        }
        match self.base_prng {
            None => Err(self.err(ScErrorType::Context, ScErrorCode::MissingValue)),
            Some(p) => {
                let mut base = p;
                let prng = base.sub_prng();
                self.base_prng = Some(base);
                self.set_prng(prng);
                Ok(())
            },
        }
    }

    fn set_prng(&mut self, prng: Prng)
        requires
            old(self).wf(),
            old(self).context@.len() > 0,
        ensures
            sets_prng(*old(self), *final(self), prng),
    {
        let n: usize = self.context.len();
        let ghost pre = *self;
        self.context[n - 1].prng = Some(prng);
        proof {
            assert(self.context@.drop_last() =~= pre.context@.drop_last());
            assert forall|i: int| 0 <= i < n implies (#[trigger] self.context@[i]).ok(self.objs()) by {
                assert(pre.context@[i].ok(pre.objs()));
            }
        }
    }

    fn take_prng(&self) -> (p: Prng)
        requires
            self.context@.len() > 0,
            self.context@.last().prng is Some,
        ensures
            p == running_prng(*self),
    {
        let n: usize = self.context.len();
        match self.context[n - 1].prng {
            Some(p) => p,
            None => Prng::new_from_seed([0u8; 32]),
        }
    }

    /// Starts the generator of the running contract over from a seed. Copying
    /// the seed is charged for.
    pub fn prng_reseed(&mut self, seed: BytesObject) -> (res: Result<(), HostError>)
        requires
            old(self).wf(),
        ensures
            final(self).wf(),
            does_prng_reseed(*old(self), *final(self), seed, res),
    {
        self.charge_visit()?;
        let bytes = copy_bytes(self.visit_bytes(seed)?.as_slice());
        self.charge_budget(ContractCostType::HostMemCpy, Some(SEED_BYTES))?;
        if bytes.len() != SEED_BYTES as usize {
            return Err(self.err(ScErrorType::Value, ScErrorCode::UnexpectedSize));
        }
        let ghost charged = *self;
        assert(charged == charge(
            looks_at(*old(self), seed.handle, ObjectTag::BytesObject).0,
            ContractCostType::HostMemCpy,
            Some(SEED_BYTES),
        ).0);
        let ready = self.ready_prng();
        let ghost mid = *self;
        assert(readies_prng(charged, mid, ready));
        ready?;
        self.set_prng(Prng::new_from_seed(seed_from_bytes(bytes.as_slice())));
        Ok(())
    }

    /// Draws bytes.
    pub fn prng_bytes_new(&mut self, length: u32) -> (res: Result<BytesObject, HostError>)
        requires
            old(self).wf(),
        ensures
            final(self).wf(),
            does_prng_bytes_new(*old(self), *final(self), length, res),
    {
        let ghost pre = *self;
        let ready = self.ready_prng();
        let ghost mid = *self;
        assert(readies_prng(pre, mid, ready));
        ready?;
        self.charge_budget(ContractCostType::ChaCha20DrawBytes, Some(length as u64))?;
        let ghost charged = charge(mid, ContractCostType::ChaCha20DrawBytes, Some(length as u64)).0;
        let mut prng = self.take_prng();
        let bytes = prng.bytes_new(length);
        self.set_prng(prng);
        assert(sets_prng(charged, *self, prng));
        let res = self.add_bytes(bytes);
        assert(draws_bytes(mid, *self, ready, length as nat, res));
        res
    }

    /// Draws a number from an inclusive range.
    pub fn prng_u64_in_inclusive_range(&mut self, lo: u64, hi: u64) -> (res: Result<u64, HostError>)
        requires
            old(self).wf(),
        ensures
            final(self).wf(),
            does_prng_u64_in_inclusive_range(*old(self), *final(self), lo, hi, res),
    {
        let ghost pre = *self;
        let ready = self.ready_prng();
        let ghost mid = *self;
        assert(readies_prng(pre, mid, ready));
        ready?;
        self.charge_budget(ContractCostType::ChaCha20DrawBytes, Some(8))?;
        let mut prng = self.take_prng();
        let x = prng.u64_in_inclusive_range(lo, hi);
        self.set_prng(prng);
        x
    }

    /// The vector with its elements in a random order.
    pub fn prng_vec_shuffle(&mut self, vec: VecObject) -> (res: Result<VecObject, HostError>)
        requires
            old(self).wf(),
        ensures
            final(self).wf(),
            does_prng_vec_shuffle(*old(self), *final(self), vec, res),
    {
        self.charge_visit()?;
        let s = copy_vals(self.visit_vec(vec)?.as_slice());
        let ghost pre = *self;
        let ready = self.ready_prng();
        let ghost mid = *self;
        assert(readies_prng(pre, mid, ready));
        ready?;
        let mut prng = self.take_prng();
        let order = prng.shuffled_positions(s.len());
        self.set_prng(prng);
        assert(sets_prng(mid, *self, prng));
        let new = reorder_vals(s.as_slice(), order.as_slice());
        proof {
            let objs = self.objs();
            assert forall|j: int| 0 <= j < new@.len() implies val_ok(objs, #[trigger] new@[j]) by {
                assert(order@[j] < s@.len());
                assert(val_ok(objs, s@[order@[j] as int]));
            }
        }
        self.add_list(new)
    }
}

/// What `prng_reseed` does.
pub open spec fn does_prng_reseed(
    pre: Host,
    post: Host,
    seed: BytesObject,
    res: Result<(), HostError>,
) -> bool {
    match looks_at(pre, seed.handle, ObjectTag::BytesObject) {
        (h, Err(e)) => gives_up(h, post, res, e),
        (h, Ok(obj)) => {
            let charged = charge(h, ContractCostType::HostMemCpy, Some(SEED_BYTES));
            if charged.1 is Err {
                runs_out(charged, post, res)
            } else if obj->Blob_1.len() != SEED_BYTES {
                fails(
                    charged.0,
                    post,
                    res,
                    (ScErrorType::Value, ScErrorCode::UnexpectedSize),
                )
            } else {
                exists|mid: Host, ready: Result<(), HostError>| #[trigger]
                    readies_prng(charged.0, mid, ready) && starts_over(
                        mid,
                        post,
                        ready,
                        obj->Blob_1,
                        res,
                    )
            }
        },
    }
}

/// What `prng_bytes_new` does.
pub open spec fn does_prng_bytes_new(
    pre: Host,
    post: Host,
    length: u32,
    res: Result<BytesObject, HostError>,
) -> bool {
    exists|mid: Host, ready: Result<(), HostError>| #[trigger]
        readies_prng(pre, mid, ready) && draws_bytes(mid, post, ready, length as nat, res)
}

/// What `prng_u64_in_inclusive_range` does.
pub open spec fn does_prng_u64_in_inclusive_range(
    pre: Host,
    post: Host,
    lo: u64,
    hi: u64,
    res: Result<u64, HostError>,
) -> bool {
    exists|mid: Host, ready: Result<(), HostError>| #[trigger]
        readies_prng(pre, mid, ready) && draws_number(mid, post, ready, lo, hi, res)
}

/// What `prng_vec_shuffle` does.
pub open spec fn does_prng_vec_shuffle(
    pre: Host,
    post: Host,
    vec: VecObject,
    res: Result<VecObject, HostError>,
) -> bool {
    match looks_at(pre, vec.handle, ObjectTag::VecObject) {
        (h, Err(e)) => gives_up(h, post, res, e),
        (h, Ok(obj)) => exists|mid: Host, ready: Result<(), HostError>| #[trigger]
            readies_prng(h, mid, ready) && shuffles(mid, post, ready, obj->Vector_0, res),
    }
}

} // verus!
