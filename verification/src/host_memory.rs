//! Vectors, maps and symbols in the linear memory of a guest.

use crate::budget::{saturated, saturating_mul, ContractCostType};
use crate::error::{bare, bare_error, Fault, HostError, ScErrorCode, ScErrorType};
use crate::host::{charge, charge_bulk, fails, runs_out, Frame, Host, SYMBOL_SIZE, VAL_SIZE};
use crate::host_convert::{adds, lemma_symbol_val, symbol_val};
use crate::host_frame::{absolute_val, guest_table, no_frame, relative_val, sets_guest_table};
use crate::host_map_slices::{checks_key, makes_map};
use crate::host_object::{gives_up, law_vals_fault, looks_at, stores, vals_fault, vec_handle};
use crate::host_symbol::{first_match, holds_against, symbol_from_val, symbol_text};
use crate::memory::{law_word_is_read_back, lemma_written_word, mem_range, with_word, word_at, VmCaller};
use crate::model::{
    deep, extends, law_values_are_immutable, lemma_vals_ok_extends, val_ok, vals_ok, BlobKind, Deep, ObjModel,
};
use crate::symbol::SCSYMBOL_LIMIT;
use crate::util::copy_pairs;
use crate::val::{law_payload_round_trip, val_of_word, MapObject, Object, ObjectTag, Symbol, Val, VecObject};
use vstd::prelude::*;

verus! {

/// What is wrong with a look into guest memory, if no guest is running.
pub open spec fn vm_fault(host: Host) -> Option<Fault> {
    if host.context@.len() == 0 {
        Some(no_frame())
    } else if !(host.context@.last().frame is ContractVM) {
        Some((ScErrorType::WasmVm, ScErrorCode::MissingValue))
    } else {
        None
    }
}

/// The fault of a place that is not in guest memory.
pub open spec fn outside_memory() -> Fault {
    (ScErrorType::WasmVm, ScErrorCode::IndexBounds)
}

/// The range of memory that a table of ranges names at an index. Each entry of
/// the table is a word, with the position in its lower half and the length in
/// its upper half.
pub open spec fn named_range(mem: Seq<u8>, table: int, i: int) -> Option<Seq<u8>> {
    let w = word_at(mem, table + 8 * i);
    mem_range(mem, w % 0x1_0000_0000, w / 0x1_0000_0000)
}

/// The values that the first `n` words from a position on stand for.
pub open spec fn guest_vals(table: Seq<Object>, mem: Seq<u8>, pos: int, n: nat) -> Result<Seq<Val>, Fault>
    decreases n,
{
    if n == 0 {
        Ok(Seq::empty())
    } else {
        match guest_vals(table, mem, pos, (n - 1) as nat) {
            Err(f) => Err(f),
            Ok(s) => match absolute_val(table, val_of_word(word_at(mem, pos + 8 * (n - 1)) as u64)) {
                Err(f) => Err(f),
                Ok(v) => Ok(s.push(v)),
            },
        }
    }
}

/// The values in a stretch of guest memory.
pub open spec fn memory_vals(host: Host, mem: Seq<u8>, pos: int, n: nat) -> Result<Seq<Val>, Fault> {
    if pos + 8 * n > mem.len() {
        Err(outside_memory())
    } else {
        guest_vals(guest_table(host), mem, pos, n)
    }
}

/// The values in a stretch of guest memory, none of which may be bad.
pub open spec fn good_memory_vals(host: Host, mem: Seq<u8>, pos: int, n: nat) -> Result<Seq<Val>, Fault> {
    match memory_vals(host, mem, pos, n) {
        Err(f) => Err(f),
        Ok(vals) => match vals_fault(host.objs(), vals) {
            Some(f) => Err(f),
            None => Ok(vals),
        },
    }
}

/// The first `n` values of a list are written to memory in turn, as the guest
/// will know them: the objects that it knows then, the memory, and what went
/// wrong.
pub open spec fn given_vals(table: Seq<Object>, mem: Seq<u8>, pos: int, vals: Seq<Val>, n: nat) -> (
    Seq<Object>,
    Seq<u8>,
    Option<Fault>,
)
    decreases n,
{
    if n == 0 {
        (table, mem, None)
    } else {
        let before = given_vals(table, mem, pos, vals, (n - 1) as nat);
        if before.2 is Some {
            before
        } else {
            match relative_val(before.0, vals[n - 1]) {
                Err(f) => (before.0, before.1, Some(f)),
                Ok((v, known)) => (known, with_word(before.1, pos + 8 * (n - 1), v.payload()), None),
            }
        }
    }
}

/// What is charged for as read or written when a number of values is.
pub open spec fn words_size(n: nat) -> u64 {
    saturated(n * VAL_SIZE) as u64
}

/// A list of values is written to guest memory, which is charged for.
pub open spec fn gives_vals(
    pre: Host,
    post: Host,
    mem: Seq<u8>,
    mem_post: Seq<u8>,
    pos: int,
    vals: Seq<Val>,
    res: Result<(), HostError>,
) -> bool {
    let charged = charge(pre, ContractCostType::VmMemWrite, Some(words_size(vals.len())));
    if charged.1 is Err {
        runs_out(charged, post, res) && mem_post == mem
    } else {
        writes_vals(charged.0, post, mem, mem_post, pos, vals, res)
    }
}

/// A list of values is written to guest memory, where there is room for it.
pub open spec fn writes_vals(
    pre: Host,
    post: Host,
    mem: Seq<u8>,
    mem_post: Seq<u8>,
    pos: int,
    vals: Seq<Val>,
    res: Result<(), HostError>,
) -> bool {
    if pos + 8 * vals.len() > mem.len() {
        fails(pre, post, res, outside_memory()) && mem_post == mem
    } else {
        let out = given_vals(guest_table(pre), mem, pos, vals, vals.len());
        &&& sets_guest_table(pre, post, out.0)
        &&& mem_post == out.1
        &&& res == match out.2 {
            None => Ok::<(), HostError>(()),
            Some(f) => Err(pre.spec_err(f)),
        }
    }
}

/// The first `n` keys that a table of ranges names are held against the keys of a
/// map, until there is an error.
pub open spec fn checks_named_keys(host: Host, mem: Seq<u8>, table: int, m: Seq<(Val, Val)>, n: nat) -> (
    Host,
    Option<HostError>,
)
    decreases n,
{
    if n == 0 {
        (host, None)
    } else {
        match checks_named_keys(host, mem, table, m, (n - 1) as nat) {
            (h, Some(e)) => (h, Some(e)),
            (h, None) => checks_named_key(h, mem, table, m, n - 1),
        }
    }
}

/// One key that a table of ranges names is held against a key of a map.
pub open spec fn checks_named_key(host: Host, mem: Seq<u8>, table: int, m: Seq<(Val, Val)>, i: int) -> (
    Host,
    Option<HostError>,
) {
    match named_range(mem, table, i) {
        None => (host, Some(host.spec_err(outside_memory()))),
        Some(s) => if i >= m.len() {
            (host, Some(host.spec_err((ScErrorType::Object, ScErrorCode::IndexBounds))))
        } else {
            checks_key(host, m[i].0, s)
        },
    }
}

/// A symbol is held against the first `n` texts that a table of ranges names, until
/// there is an error.
pub open spec fn seeks_symbol(host: Host, mem: Seq<u8>, table: int, sym: Symbol, n: nat) -> (Host, Option<HostError>)
    decreases n,
{
    if n == 0 {
        (host, None)
    } else {
        match seeks_symbol(host, mem, table, sym, (n - 1) as nat) {
            (h, Some(e)) => (h, Some(e)),
            (h, None) => match named_range(mem, table, n - 1) {
                None => (h, Some(h.spec_err(outside_memory()))),
                Some(s) => match holds_against(h, s, sym) {
                    (h, Err(e)) => (h, Some(e)),
                    (h, Ok(_)) => (h, None),
                },
            },
        }
    }
}

/// Where the search for a symbol does not fail, all ranges that it looked at were in
/// memory; an error ends it.
pub proof fn law_sought_ranges_are_in_memory(
    host: Host,
    mem: Seq<u8>,
    table: int,
    sym: Symbol,
    n: nat,
    end: nat,
)
    requires
        n <= end,
    ensures
        seeks_symbol(host, mem, table, sym, n).1 is None ==> ranges_in_memory(mem, table, n),
        seeks_symbol(host, mem, table, sym, n).1 is Some ==> seeks_symbol(host, mem, table, sym, end)
            == seeks_symbol(host, mem, table, sym, n),
    decreases end,
{
    if n < end {
        law_sought_ranges_are_in_memory(host, mem, table, sym, n, (end - 1) as nat);
    } else if n > 0 {
        law_sought_ranges_are_in_memory(host, mem, table, sym, (n - 1) as nat, (n - 1) as nat);
    }
}

/// Whether the first `n` ranges that a table names are in memory.
pub open spec fn ranges_in_memory(mem: Seq<u8>, table: int, n: nat) -> bool {
    forall|i: int| 0 <= i < n ==> #[trigger] named_range(mem, table, i) is Some
}

/// The texts that a table of ranges names.
pub open spec fn named_texts(mem: Seq<u8>, table: int, n: nat) -> Seq<Seq<u8>> {
    Seq::new(n, |i: int| named_range(mem, table, i)->Some_0)
}

/// A text of guest memory is made into a symbol: reading it is charged for.
pub open spec fn reads_symbol(pre: Host, post: Host, text: Option<Seq<u8>>, res: Result<Val, HostError>) -> bool {
    match text {
        None => fails(pre, post, res, outside_memory()),
        Some(s) => {
            let read = charge(pre, ContractCostType::VmMemRead, Some(s.len() as u64));
            if read.1 is Err {
                runs_out(read, post, res)
            } else if s.len() > SCSYMBOL_LIMIT {
                post == read.0 && res == Err::<Val, HostError>(
                    bare_error((ScErrorType::Value, ScErrorCode::InvalidInput)),
                )
            } else {
                adds(read.0, post, res, symbol_val(pre.objs(), s))
            }
        },
    }
}

/// The first `n` texts that a table of ranges names are made into symbols in
/// turn. What is added and charged for before a failure stays.
pub open spec fn reads_symbols(
    pre: Host,
    post: Host,
    mem: Seq<u8>,
    table: int,
    n: nat,
    res: Result<Seq<Val>, HostError>,
) -> bool
    decreases n,
{
    if n == 0 {
        post == pre && res == Ok::<Seq<Val>, HostError>(Seq::empty())
    } else {
        exists|mid: Host, before: Result<Seq<Val>, HostError>|
            reads_symbols(pre, mid, mem, table, (n - 1) as nat, before) && #[trigger] reads_one_more(
                mid,
                post,
                named_range(mem, table, n - 1),
                before,
                res,
            )
    }
}

/// One more text is made into a symbol, unless there was a failure before.
pub open spec fn reads_one_more(
    pre: Host,
    post: Host,
    text: Option<Seq<u8>>,
    before: Result<Seq<Val>, HostError>,
    res: Result<Seq<Val>, HostError>,
) -> bool {
    match before {
        Err(e) => post == pre && res == before,
        Ok(s) => match res {
            Ok(all) => {
                &&& all.len() == s.len() + 1
                &&& all.drop_last() == s
                &&& reads_symbol(pre, post, text, Ok(all.last()))
            },
            Err(e) => reads_symbol(pre, post, text, Err(e)),
        },
    }
}

/// The pairs of keys and values.
pub open spec fn zip(keys: Seq<Val>, vals: Seq<Val>) -> Seq<(Val, Val)> {
    Seq::new(keys.len(), |i: int| (keys[i], vals[i]))
}

/// With its keys at hand, a map is made of them and the values in guest memory.
pub open spec fn makes_map_of_memory(
    pre: Host,
    post: Host,
    mem: Seq<u8>,
    vals_pos: int,
    n: nat,
    keys: Result<Seq<Val>, HostError>,
    res: Result<MapObject, HostError>,
) -> bool {
    match keys {
        Err(e) => post == pre && res == Err::<MapObject, HostError>(e),
        Ok(keys) => {
            let charged = charge_bulk(pre, n as int, VAL_SIZE as int);
            let read = charge(charged.0, ContractCostType::VmMemRead, Some(words_size(n)));
            if charged.1 is Err {
                runs_out(charged, post, res)
            } else if read.1 is Err {
                runs_out(read, post, res)
            } else {
                match good_memory_vals(read.0, mem, vals_pos, n) {
                    Err(f) => fails(read.0, post, res, f),
                    Ok(vals) => makes_map(read.0, post, Ok(zip(keys, vals)), res),
                }
            }
        },
    }
}

proof fn lemma_reads_failure(
    pre: Host,
    post: Host,
    mem: Seq<u8>,
    table: int,
    n: nat,
    end: nat,
    res: Result<Seq<Val>, HostError>,
)
    requires
        n <= end,
        res is Err,
        reads_symbols(pre, post, mem, table, n, res),
    ensures
        reads_symbols(pre, post, mem, table, end, res),
    decreases end,
{
    if n < end {
        lemma_reads_failure(pre, post, mem, table, n, (end - 1) as nat, res);
        assert(reads_one_more(post, post, named_range(mem, table, end - 1), res, res));
    }
}

proof fn lemma_reads_step(
    pre: Host,
    mid: Host,
    post: Host,
    mem: Seq<u8>,
    table: int,
    n: nat,
    before: Result<Seq<Val>, HostError>,
    res: Result<Seq<Val>, HostError>,
)
    requires
        reads_symbols(pre, mid, mem, table, n, before),
        reads_one_more(mid, post, named_range(mem, table, n as int), before, res),
    ensures
        reads_symbols(pre, post, mem, table, n + 1, res),
{
    assert((n + 1) as nat - 1 == n);
}

/// The symbols that were read denote the texts that the table names.
pub proof fn law_read_symbols(pre: Host, post: Host, mem: Seq<u8>, table: int, n: nat, keys: Seq<Val>)
    requires
        pre.wf(),
        reads_symbols(pre, post, mem, table, n, Ok(keys)),
    ensures
        post.wf(),
        post.context == pre.context,
        extends(pre.objs(), post.objs()),
        keys.len() == n,
        vals_ok(post.objs(), keys),
        forall|i: int|
            0 <= i < n ==> named_range(mem, table, i) is Some && deep(post.objs(), #[trigger] keys[i]) == Deep::Blob(
                BlobKind::Symbol,
                named_range(mem, table, i)->Some_0,
            ),
    decreases n,
{
    if n > 0 {
        let (mid, before) = choose|mid: Host, before: Result<Seq<Val>, HostError>|
            reads_symbols(pre, mid, mem, table, (n - 1) as nat, before) && #[trigger] reads_one_more(
                mid,
                post,
                named_range(mem, table, n - 1),
                before,
                Ok(keys),
            );
        let s = before->Ok_0;
        law_read_symbols(pre, mid, mem, table, (n - 1) as nat, s);
        let text = named_range(mem, table, n - 1)->Some_0;
        lemma_symbol_val(mid.objs(), text);
        lemma_vals_ok_extends(mid.objs(), post.objs(), s);
        assert forall|i: int| 0 <= i < n implies named_range(mem, table, i) is Some && val_ok(
            post.objs(),
            #[trigger] keys[i],
        ) && deep(post.objs(), keys[i]) == Deep::Blob(BlobKind::Symbol, named_range(mem, table, i)->Some_0) by {
            if i < n - 1 {
                assert(keys[i] == s[i]);
                law_values_are_immutable(mid.objs(), post.objs(), s[i]);
            }
        }
    }
}

proof fn lemma_sets_guest_table_chain(pre: Host, mid: Host, post: Host, first: Seq<Object>, table: Seq<Object>)
    requires
        sets_guest_table(pre, mid, first),
        sets_guest_table(mid, post, table),
    ensures
        sets_guest_table(pre, post, table),
{
}

proof fn lemma_named_keys_failure(host: Host, mem: Seq<u8>, table: int, m: Seq<(Val, Val)>, n: nat, end: nat)
    requires
        n <= end,
    ensures
        checks_named_keys(host, mem, table, m, n).1 is Some ==> checks_named_keys(host, mem, table, m, end)
            == checks_named_keys(host, mem, table, m, n),
    decreases end,
{
    if n < end {
        lemma_named_keys_failure(host, mem, table, m, n, (end - 1) as nat);
    }
}

proof fn lemma_guest_vals_failure(table: Seq<Object>, mem: Seq<u8>, pos: int, n: nat, end: nat)
    requires
        n <= end,
        guest_vals(table, mem, pos, n) is Err,
    ensures
        guest_vals(table, mem, pos, end) == guest_vals(table, mem, pos, n),
    decreases end,
{
    if n < end {
        lemma_guest_vals_failure(table, mem, pos, n, (end - 1) as nat);
    }
}

proof fn lemma_given_vals_failure(table: Seq<Object>, mem: Seq<u8>, pos: int, vals: Seq<Val>, n: nat, end: nat)
    requires
        n <= end,
        given_vals(table, mem, pos, vals, n).2 is Some,
    ensures
        given_vals(table, mem, pos, vals, end) == given_vals(table, mem, pos, vals, n),
    decreases end,
{
    if n < end {
        lemma_given_vals_failure(table, mem, pos, vals, n, (end - 1) as nat);
    }
}

/// Writing values keeps the objects that the guest knew, and the size of its
/// memory.
proof fn lemma_given_vals_extend(table: Seq<Object>, mem: Seq<u8>, pos: int, vals: Seq<Val>, n: nat)
    ensures
        given_vals(table, mem, pos, vals, n).1.len() == mem.len(),
        table.len() <= given_vals(table, mem, pos, vals, n).0.len(),
        forall|i: int| 0 <= i < table.len() ==> #[trigger] given_vals(table, mem, pos, vals, n).0[i] == table[i],
    decreases n,
{
    if n > 0 {
        lemma_given_vals_extend(table, mem, pos, vals, (n - 1) as nat);
    }
}

/// Values that were written to guest memory are read back from it.
pub proof fn law_given_vals_are_read_back(table: Seq<Object>, mem: Seq<u8>, pos: int, vals: Seq<Val>, n: nat)
    requires
        0 <= pos,
        pos + 8 * n <= mem.len(),
        n <= vals.len(),
        forall|i: int| 0 <= i < n ==> (#[trigger] vals[i]).in_range(),
        given_vals(table, mem, pos, vals, n).2 is None,
    ensures
        ({
            let out = given_vals(table, mem, pos, vals, n);
            guest_vals(out.0, out.1, pos, n) == Ok::<Seq<Val>, Fault>(vals.take(n as int))
        }),
{
    let out = given_vals(table, mem, pos, vals, n);
    lemma_read_back(table, mem, pos, vals, n, out.0, out.1);
}

/// A list that was unpacked to guest memory is what a vector of that stretch of
/// memory has for elements.
pub proof fn law_unpacked_list_is_read_back(
    pre: Host,
    mid: Host,
    mem: Seq<u8>,
    now: Seq<u8>,
    pos: int,
    vals: Seq<Val>,
)
    requires
        pre.wf(),
        vals_ok(pre.objs(), vals),
        0 <= pos,
        gives_vals(pre, mid, mem, now, pos, vals, Ok(())),
    ensures
        memory_vals(mid, now, pos, vals.len()) == Ok::<Seq<Val>, Fault>(vals),
{
    let table = guest_table(pre);
    assert forall|i: int| 0 <= i < vals.len() implies (#[trigger] vals[i]).in_range() by {
        assert(val_ok(pre.objs(), vals[i]));
    }
    lemma_given_vals_extend(table, mem, pos, vals, vals.len());
    law_given_vals_are_read_back(table, mem, pos, vals, vals.len());
    assert(vals.take(vals.len() as int) =~= vals);
}

proof fn lemma_read_back(
    table: Seq<Object>,
    mem: Seq<u8>,
    pos: int,
    vals: Seq<Val>,
    n: nat,
    later: Seq<Object>,
    now: Seq<u8>,
)
    requires
        0 <= pos,
        pos + 8 * n <= mem.len(),
        n <= vals.len(),
        forall|i: int| 0 <= i < n ==> (#[trigger] vals[i]).in_range(),
        given_vals(table, mem, pos, vals, n).2 is None,
        given_vals(table, mem, pos, vals, n).0.len() <= later.len(),
        forall|i: int|
            0 <= i < given_vals(table, mem, pos, vals, n).0.len() ==> #[trigger] later[i] == given_vals(
                table,
                mem,
                pos,
                vals,
                n,
            ).0[i],
        forall|k: int|
            0 <= k < n ==> #[trigger] word_at(now, pos + 8 * k) == word_at(
                given_vals(table, mem, pos, vals, n).1,
                pos + 8 * k,
            ),
    ensures
        guest_vals(later, now, pos, n) == Ok::<Seq<Val>, Fault>(vals.take(n as int)),
    decreases n,
{
    if n > 0 {
        let before = given_vals(table, mem, pos, vals, (n - 1) as nat);
        let out = given_vals(table, mem, pos, vals, n);
        lemma_given_vals_extend(table, mem, pos, vals, (n - 1) as nat);
        let v = vals[n - 1];
        let (r, known) = relative_val(before.0, v)->Ok_0;
        let at = pos + 8 * (n - 1);
        law_payload_round_trip(r);
        assert forall|i: int| 0 <= i < before.0.len() implies #[trigger] later[i] == before.0[i] by {
            assert(out.0[i] == before.0[i]);
        }
        assert forall|k: int| 0 <= k < n - 1 implies #[trigger] word_at(now, pos + 8 * k) == word_at(
            before.1,
            pos + 8 * k,
        ) by {
            law_word_is_read_back(before.1, at, r.payload(), pos + 8 * k);
        }
        lemma_read_back(table, mem, pos, vals, (n - 1) as nat, later, now);
        lemma_written_word(before.1, at, r.payload());
        assert(word_at(now, pos + 8 * (n - 1)) == r.payload());
        crate::host_frame::law_relative_val_round_trip(before.0, v, later);
        assert(vals.take(n as int) =~= vals.take(n - 1).push(v));
    } else {
        assert(vals.take(0) =~= Seq::<Val>::empty());
    }
}

impl Host {
    /// Fails unless a guest is running whose memory can be looked into.
    pub(crate) fn check_vm_frame(&self) -> (res: Result<(), HostError>)
        ensures
            res == match vm_fault(*self) {
                None => Ok::<(), HostError>(()),
                Some(f) => Err(self.spec_err(f)),
            },
    {
        match self.current_frame()? {
            Frame::ContractVM { .. } => Ok(()),
            _ => Err(self.err(ScErrorType::WasmVm, ScErrorCode::MissingValue)),
        }
    }

    /// The range of memory that a table of ranges names at an index.
    pub(crate) fn read_named_range(&self, vm: &VmCaller, table: u32, i: usize) -> (res: Result<Vec<u8>, HostError>)
        requires
            table + 8 * (i + 1) <= vm.memory@.len(),
        ensures
            match res {
                Ok(s) => named_range(vm.memory@, table as int, i as int) == Some(s@),
                Err(e) => {
                    &&& named_range(vm.memory@, table as int, i as int) is None
                    &&& e == self.spec_err(outside_memory())
                },
            },
    {
        assert(vm.memory.len() <= usize::MAX);
        let w: u64 = vm.read_word(table as usize + 8 * i);
        match vm.read_range((w % 0x1_0000_0000) as u32, (w / 0x1_0000_0000) as u32) {
            Some(s) => Ok(s),
            None => Err(self.err(ScErrorType::WasmVm, ScErrorCode::IndexBounds)),
        }
    }

    /// The values in a stretch of guest memory.
    pub(crate) fn read_guest_vals(&self, vm: &VmCaller, pos: u32, n: usize) -> (res: Result<Vec<Val>, HostError>)
        requires
            self.wf(),
            self.context@.len() > 0,
        ensures
            match res {
                Ok(vals) => {
                    &&& memory_vals(*self, vm.memory@, pos as int, n as nat) == Ok::<Seq<Val>, Fault>(vals@)
                    &&& vals@.len() == n
                },
                Err(e) => memory_vals(*self, vm.memory@, pos as int, n as nat) matches Err(f) && e
                    == self.spec_err(f),
            },
    {
        if !vm.holds_words(pos, n) {
            return Err(self.err(ScErrorType::WasmVm, ScErrorCode::IndexBounds));
        }
        assert(vm.memory.len() <= usize::MAX);
        let ghost table = guest_table(*self);
        let mut vals: Vec<Val> = Vec::new();
        let mut i: usize = 0;
        while i < n
            invariant
                self.wf(),
                self.context@.len() > 0,
                table == guest_table(*self),
                i <= n,
                vals@.len() == i,
                pos + 8 * n <= vm.memory@.len() <= usize::MAX,
                guest_vals(table, vm.memory@, pos as int, i as nat) == Ok::<Seq<Val>, Fault>(vals@),
            decreases n - i,
        {
            let w: u64 = vm.read_word(pos as usize + 8 * i);
            match self.relative_to_absolute(Val::from_payload(w)) {
                Ok(v) => {
                    vals.push(v);
                },
                Err(e) => {
                    proof {
                        lemma_guest_vals_failure(table, vm.memory@, pos as int, (i + 1) as nat, n as nat);
                    }
                    return Err(e);
                },
            }
            i += 1;
        }
        Ok(vals)
    }

    /// Writes values to guest memory, as the guest will know them. The writing is
    /// charged for.
    pub(crate) fn write_guest_vals(&mut self, vm: &mut VmCaller, pos: u32, vals: &[Val]) -> (res: Result<
        (),
        HostError,
    >)
        requires
            old(self).wf(),
            old(self).context@.len() > 0,
            vals_ok(old(self).objs(), vals@),
        ensures
            final(self).wf(),
            gives_vals(
                *old(self),
                *final(self),
                old(vm).memory@,
                final(vm).memory@,
                pos as int,
                vals@,
                res,
            ),
    {
        let size: u64 = saturating_mul(vals.len() as u64, VAL_SIZE);
        self.charge_budget(ContractCostType::VmMemWrite, Some(size))?;
        self.put_guest_vals(vm, pos, vals)
    }

    fn put_guest_vals(&mut self, vm: &mut VmCaller, pos: u32, vals: &[Val]) -> (res: Result<(), HostError>)
        requires
            old(self).wf(),
            old(self).context@.len() > 0,
            vals_ok(old(self).objs(), vals@),
        ensures
            final(self).wf(),
            writes_vals(
                *old(self),
                *final(self),
                old(vm).memory@,
                final(vm).memory@,
                pos as int,
                vals@,
                res,
            ),
    {
        if !vm.holds_words(pos, vals.len()) {
            return Err(self.err(ScErrorType::WasmVm, ScErrorCode::IndexBounds));
        }
        assert(vm.memory.len() <= usize::MAX);
        let ghost pre = *self;
        let ghost mem = vm.memory@;
        let ghost table = guest_table(pre);
        let mut i: usize = 0;
        while i < vals.len()
            invariant
                self.wf(),
                pre == *old(self),
                mem == old(vm).memory@,
                table == guest_table(pre),
                sets_guest_table(pre, *self, guest_table(*self)),
                i <= vals@.len(),
                vals_ok(self.objs(), vals@),
                vm.memory@.len() == mem.len() <= usize::MAX,
                pos + 8 * vals@.len() <= mem.len(),
                given_vals(table, mem, pos as int, vals@, i as nat) == (
                    guest_table(*self),
                    vm.memory@,
                    None::<Fault>,
                ),
            decreases vals@.len() - i,
        {
            let ghost mid = *self;
            assert(val_ok(self.objs(), vals@[i as int]));
            match self.absolute_to_relative(vals[i]) {
                Ok(v) => {
                    proof {
                        lemma_sets_guest_table_chain(pre, mid, *self, guest_table(mid), guest_table(*self));
                    }
                    vm.write_word(pos as usize + 8 * i, v.get_payload());
                },
                Err(e) => {
                    proof {
                        lemma_given_vals_failure(table, mem, pos as int, vals@, (i + 1) as nat, vals@.len());
                    }
                    return Err(e);
                },
            }
            i += 1;
        }
        Ok(())
    }

    /// A map of guest memory: a table of ranges names the symbols of its keys,
    /// which must be in order, and its values are in another stretch.
    pub fn map_new_from_linear_memory(&mut self, vmcaller: &VmCaller, keys_pos: u32, vals_pos: u32, len: u32) -> (res:
        Result<MapObject, HostError>)
        requires
            old(self).wf(),
        ensures
            final(self).wf(),
            does_map_new_from_linear_memory(*old(self), *final(self), vmcaller.memory@, keys_pos, vals_pos, len, res),
    {
        self.check_vm_frame()?;
        self.charge_bulk_init_cpy(len as u64, SYMBOL_SIZE)?;
        if !vmcaller.holds_words(keys_pos, len as usize) {
            return Err(self.err(ScErrorType::WasmVm, ScErrorCode::IndexBounds));
        }
        let ghost start = *self;
        let ghost mem = vmcaller.memory@;
        let keys = self.read_named_symbols(vmcaller, keys_pos, len as usize);
        let ghost mid = *self;
        let keys = match keys {
            Ok(keys) => keys,
            Err(e) => {
                assert(makes_map_of_memory(mid, *self, mem, vals_pos as int, len as nat, Err(e), Err(e)));
                return Err(e);
            },
        };
        proof {
            law_read_symbols(start, *self, mem, keys_pos as int, len as nat, keys@);
        }
        let res = self.map_of_keys_and_memory(vmcaller, keys, vals_pos);
        assert(makes_map_of_memory(mid, *self, mem, vals_pos as int, len as nat, Ok(keys@), res));
        res
    }

    /// Makes symbols of the texts that a table of ranges names.
    fn read_named_symbols(&mut self, vm: &VmCaller, table: u32, n: usize) -> (res: Result<Vec<Val>, HostError>)
        requires
            old(self).wf(),
            table + 8 * n <= vm.memory@.len(),
        ensures
            final(self).wf(),
            match res {
                Ok(keys) => reads_symbols(*old(self), *final(self), vm.memory@, table as int, n as nat, Ok(keys@)),
                Err(e) => reads_symbols(*old(self), *final(self), vm.memory@, table as int, n as nat, Err(e)),
            },
    {
        let ghost pre = *self;
        let ghost mem = vm.memory@;
        let mut keys: Vec<Val> = Vec::new();
        let mut i: usize = 0;
        while i < n
            invariant
                self.wf(),
                pre == *old(self),
                mem == vm.memory@,
                i <= n,
                table + 8 * n <= mem.len(),
                reads_symbols(pre, *self, mem, table as int, i as nat, Ok(keys@)),
            decreases n - i,
        {
            let ghost mid = *self;
            let ghost before: Result<Seq<Val>, HostError> = Ok(keys@);
            match self.read_named_symbol(vm, table, i) {
                Ok(v) => {
                    keys.push(v);
                    proof {
                        assert(keys@.drop_last() =~= before->Ok_0);
                        lemma_reads_step(pre, mid, *self, mem, table as int, i as nat, before, Ok(keys@));
                    }
                },
                Err(e) => {
                    proof {
                        let failed: Result<Seq<Val>, HostError> = Err(e);
                        lemma_reads_step(pre, mid, *self, mem, table as int, i as nat, before, failed);
                        lemma_reads_failure(pre, *self, mem, table as int, (i + 1) as nat, n as nat, failed);
                    }
                    return Err(e);
                },
            }
            i += 1;
        }
        Ok(keys)
    }

    fn read_named_symbol(&mut self, vm: &VmCaller, table: u32, i: usize) -> (res: Result<Val, HostError>)
        requires
            old(self).wf(),
            table + 8 * (i + 1) <= vm.memory@.len(),
        ensures
            final(self).wf(),
            reads_symbol(*old(self), *final(self), named_range(vm.memory@, table as int, i as int), res),
    {
        let text = self.read_named_range(vm, table, i)?;
        self.charge_budget(ContractCostType::VmMemRead, Some(text.len() as u64))?;
        if text.len() > SCSYMBOL_LIMIT {
            return Err(bare(ScErrorType::Value, ScErrorCode::InvalidInput));
        }
        self.symbol_to_val(text.as_slice())
    }

    fn map_of_keys_and_memory(&mut self, vm: &VmCaller, keys: Vec<Val>, vals_pos: u32) -> (res: Result<
        MapObject,
        HostError,
    >)
        requires
            old(self).wf(),
            old(self).context@.len() > 0,
            vals_ok(old(self).objs(), keys@),
        ensures
            final(self).wf(),
            makes_map_of_memory(
                *old(self),
                *final(self),
                vm.memory@,
                vals_pos as int,
                keys@.len(),
                Ok(keys@),
                res,
            ),
    {
        let n: usize = keys.len();
        self.charge_bulk_init_cpy(n as u64, VAL_SIZE)?;
        self.charge_budget(ContractCostType::VmMemRead, Some(saturating_mul(n as u64, VAL_SIZE)))?;
        let vals = self.read_guest_vals(vm, vals_pos, n)?;
        proof {
            law_vals_fault(self.objs(), vals@);
        }
        self.check_vals_integrity(vals.as_slice())?;
        let pairs = zip_vals(keys.as_slice(), vals.as_slice());
        let ghost objs = self.objs();
        assert forall|i: int| 0 <= i < pairs@.len() implies val_ok(objs, (#[trigger] pairs@[i]).0) && val_ok(
            objs,
            pairs@[i].1,
        ) by {
            assert(val_ok(objs, keys@[i]) && val_ok(objs, vals@[i]));
        }
        self.check_map_order(&pairs)?;
        self.add_map(pairs)
    }

    /// Writes the values of a map to guest memory. A table of ranges names the
    /// symbols that its first keys must be.
    pub fn map_unpack_to_linear_memory(
        &mut self,
        vmcaller: &mut VmCaller,
        map: MapObject,
        keys_pos: u32,
        vals_pos: u32,
        len: u32,
    ) -> (res: Result<(), HostError>)
        requires
            old(self).wf(),
        ensures
            final(self).wf(),
            does_map_unpack_to_linear_memory(
                *old(self),
                *final(self),
                old(vmcaller).memory@,
                final(vmcaller).memory@,
                map,
                keys_pos,
                vals_pos,
                len,
                res,
            ),
    {
        self.check_vm_frame()?;
        self.charge_visit()?;
        let m = copy_pairs(self.visit_map(map)?.as_slice());
        if !vmcaller.holds_words(keys_pos, len as usize) {
            return Err(self.err(ScErrorType::WasmVm, ScErrorCode::IndexBounds));
        }
        self.check_named_keys(vmcaller, keys_pos, &m, len as usize)?;
        let vals = crate::host_map::collect_values(m.as_slice());
        proof {
            let objs = self.objs();
            assert forall|i: int| 0 <= i < vals@.len() implies val_ok(objs, #[trigger] vals@[i]) by {
                let p = m@[i];
            }
        }
        self.write_guest_vals(vmcaller, vals_pos, vals.as_slice())
    }

    fn check_named_keys(&mut self, vm: &VmCaller, table: u32, m: &Vec<(Val, Val)>, n: usize) -> (res: Result<
        (),
        HostError,
    >)
        requires
            old(self).wf(),
            table + 8 * n <= vm.memory@.len(),
        ensures
            final(self).wf(),
            final(self).objs() == old(self).objs(),
            final(self).context == old(self).context,
            match checks_named_keys(*old(self), vm.memory@, table as int, m@, n as nat) {
                (h, None) => *final(self) == h && res == Ok::<(), HostError>(()),
                (h, Some(e)) => gives_up(h, *final(self), res, e),
            },
    {
        let mut i: usize = 0;
        while i < n
            invariant
                self.wf(),
                i <= n,
                table + 8 * n <= vm.memory@.len(),
                self.objs() == old(self).objs(),
                self.context == old(self).context,
                checks_named_keys(*old(self), vm.memory@, table as int, m@, i as nat) == (*self, None::<HostError>),
            decreases n - i,
        {
            proof {
                lemma_named_keys_failure(*old(self), vm.memory@, table as int, m@, (i + 1) as nat, n as nat);
            }
            self.check_named_key(vm, table, m, i)?;
            i += 1;
        }
        Ok(())
    }

    fn check_named_key(&mut self, vm: &VmCaller, table: u32, m: &Vec<(Val, Val)>, i: usize) -> (res: Result<
        (),
        HostError,
    >)
        requires
            old(self).wf(),
            table + 8 * (i + 1) <= vm.memory@.len(),
        ensures
            final(self).wf(),
            *final(self) == (Host { budget: final(self).budget, ..*old(self) }),
            match checks_named_key(*old(self), vm.memory@, table as int, m@, i as int) {
                (h, None) => *final(self) == h && res == Ok::<(), HostError>(()),
                (h, Some(e)) => gives_up(h, *final(self), res, e),
            },
    {
        let text = self.read_named_range(vm, table, i)?;
        if i >= m.len() {
            return Err(self.err(ScErrorType::Object, ScErrorCode::IndexBounds));
        }
        let sym = symbol_from_val(m[i].0)?;
        self.check_symbol_matches(text.as_slice(), sym)
    }

    /// A vector of the values in a stretch of guest memory.
    pub fn vec_new_from_linear_memory(&mut self, vmcaller: &VmCaller, vals_pos: u32, len: u32) -> (res: Result<
        VecObject,
        HostError,
    >)
        requires
            old(self).wf(),
        ensures
            final(self).wf(),
            does_vec_new_from_linear_memory(*old(self), *final(self), vmcaller.memory@, vals_pos, len, res),
    {
        self.check_vm_frame()?;
        self.charge_bulk_init_cpy(len as u64, VAL_SIZE)?;
        self.charge_budget(ContractCostType::VmMemRead, Some(saturating_mul(len as u64, VAL_SIZE)))?;
        let vals = self.read_guest_vals(vmcaller, vals_pos, len as usize)?;
        proof {
            law_vals_fault(self.objs(), vals@);
        }
        self.check_vals_integrity(vals.as_slice())?;
        self.add_vec(vals)
    }

    /// Writes a vector to guest memory.
    pub fn vec_unpack_to_linear_memory(
        &mut self,
        vmcaller: &mut VmCaller,
        vec: VecObject,
        vals_pos: u32,
        len: u32,
    ) -> (res: Result<(), HostError>)
        requires
            old(self).wf(),
        ensures
            final(self).wf(),
            does_vec_unpack_to_linear_memory(
                *old(self),
                *final(self),
                old(vmcaller).memory@,
                final(vmcaller).memory@,
                vec,
                vals_pos,
                len,
                res,
            ),
    {
        self.check_vm_frame()?;
        self.charge_visit()?;
        let vals = crate::util::copy_vals(self.visit_vec(vec)?.as_slice());
        self.write_guest_vals(vmcaller, vals_pos, vals.as_slice())
    }

    /// Where a symbol first stands among the texts that a table of ranges in
    /// guest memory names. All ranges must be in memory.
    pub fn symbol_index_in_linear_memory(&mut self, vmcaller: &VmCaller, sym: Symbol, lm_pos: u32, len: u32) -> (res:
        Result<u32, HostError>)
        requires
            old(self).wf(),
        ensures
            final(self).wf(),
            finds_in_memory(*old(self), *final(self), vmcaller.memory@, sym, lm_pos, len, res),
    {
        self.check_vm_frame()?;
        if !vmcaller.holds_words(lm_pos, len as usize) {
            return Err(self.err(ScErrorType::WasmVm, ScErrorCode::IndexBounds));
        }
        let n: usize = len as usize;
        let ghost mem = vmcaller.memory@;
        let ghost list = named_texts(mem, lm_pos as int, len as nat);
        let ghost t = symbol_text(self.objs(), sym)->Ok_0;
        let mut found: Option<u32> = None;
        let mut i: usize = 0;
        while i < n
            invariant
                self.wf(),
                vm_fault(*old(self)) is None,
                vm_fault(*self) is None,
                i <= n,
                n == len,
                lm_pos + 8 * len <= mem.len(),
                mem == vmcaller.memory@,
                list == named_texts(mem, lm_pos as int, len as nat),
                self.objs() == old(self).objs(),
                t == symbol_text(self.objs(), sym)->Ok_0,
                seeks_symbol(*old(self), mem, lm_pos as int, sym, i as nat) == (*self, None::<HostError>),
                match found {
                    Some(k) => first_match(list, t, 0) == Some(k as nat),
                    None => first_match(list, t, 0) == first_match(list, t, i as nat),
                },
            decreases n - i,
        {
            proof {
                law_sought_ranges_are_in_memory(*old(self), mem, lm_pos as int, sym, (i + 1) as nat, n as nat);
            }
            let slice = self.read_named_range(vmcaller, lm_pos, i)?;
            assert(list[i as int] == slice@);
            if self.symbol_matches(slice.as_slice(), sym)? {
                if found.is_none() {
                    found = Some(i as u32);
                }
            }
            i += 1;
        }
        match found {
            None => Err(self.err(ScErrorType::Value, ScErrorCode::MissingValue)),
            Some(idx) => Ok(idx),
        }
    }
}

fn zip_vals(keys: &[Val], vals: &[Val]) -> (pairs: Vec<(Val, Val)>)
    requires
        keys@.len() == vals@.len(),
    ensures
        pairs@ == zip(keys@, vals@),
{
    let mut pairs: Vec<(Val, Val)> = Vec::new();
    let mut i: usize = 0;
    while i < keys.len()
        invariant
            i <= keys@.len() == vals@.len(),
            pairs@ == zip(keys@.take(i as int), vals@.take(i as int)),
        decreases keys@.len() - i,
    {
        pairs.push((keys[i], vals[i]));
        assert(pairs@ =~= zip(keys@.take(i + 1), vals@.take(i + 1)));
        i += 1;
    }
    assert(keys@.take(i as int) =~= keys@);
    assert(vals@.take(i as int) =~= vals@);
    pairs
}

/// It is found out where a symbol first stands among the texts that a table of ranges in
/// guest memory names.
pub open spec fn finds_in_memory(
    pre: Host,
    post: Host,
    mem: Seq<u8>,
    sym: Symbol,
    lm_pos: u32,
    len: u32,
    res: Result<u32, HostError>,
) -> bool {
    match vm_fault(pre) {
        Some(f) => fails(pre, post, res, f),
        None => if lm_pos + 8 * len > mem.len() {
            fails(pre, post, res, outside_memory())
        } else {
            match seeks_symbol(pre, mem, lm_pos as int, sym, len as nat) {
                (h, Some(e)) => gives_up(h, post, res, e),
                (h, None) => {
                    &&& post == h
                    &&& res == match first_match(
                        named_texts(mem, lm_pos as int, len as nat),
                        symbol_text(h.objs(), sym)->Ok_0,
                        0,
                    ) {
                        Some(i) => Ok::<u32, HostError>(i as u32),
                        None => Err(h.spec_err((ScErrorType::Value, ScErrorCode::MissingValue))),
                    }
                },
            }
        },
    }
}

/// What `map_new_from_linear_memory` does.
pub open spec fn does_map_new_from_linear_memory(
    pre: Host,
    post: Host,
    memory: Seq<u8>,
    keys_pos: u32,
    vals_pos: u32,
    len: u32,
    res: Result<MapObject, HostError>,
) -> bool {
    match vm_fault(pre) {
        Some(f) => fails(pre, post, res, f),
        None => {
            let charged = charge_bulk(pre, len as int, SYMBOL_SIZE as int);
            if charged.1 is Err {
                runs_out(charged, post, res)
            } else if keys_pos + 8 * len > memory.len() {
                fails(charged.0, post, res, outside_memory())
            } else {
                exists|mid: Host, keys: Result<Seq<Val>, HostError>|
                    reads_symbols(charged.0, mid, memory, keys_pos as int, len as nat, keys)
                        && #[trigger] makes_map_of_memory(
                        mid,
                        post,
                        memory,
                        vals_pos as int,
                        len as nat,
                        keys,
                        res,
                    )
            }
        },
    }
}

/// What `map_unpack_to_linear_memory` does.
pub open spec fn does_map_unpack_to_linear_memory(
    pre: Host,
    post: Host,
    memory: Seq<u8>,
    changed: Seq<u8>,
    map: MapObject,
    keys_pos: u32,
    vals_pos: u32,
    len: u32,
    res: Result<(), HostError>,
) -> bool {
    match vm_fault(pre) {
        Some(f) => fails(pre, post, res, f) && changed == memory,
        None => match looks_at(pre, map.handle, ObjectTag::MapObject) {
            (h, Err(e)) => gives_up(h, post, res, e) && changed
                == memory,
            (h, Ok(obj)) => if keys_pos + 8 * len > memory.len() {
                fails(h, post, res, outside_memory()) && changed
                    == memory
            } else {
                match checks_named_keys(
                    h,
                    memory,
                    keys_pos as int,
                    obj->Mapping_0,
                    len as nat,
                ) {
                    (h, Some(e)) => {
                        &&& gives_up(h, post, res, e)
                        &&& changed == memory
                    },
                    (h, None) => gives_vals(
                        h,
                        post,
                        memory,
                        changed,
                        vals_pos as int,
                        crate::host_map::values_of(obj->Mapping_0),
                        res,
                    ),
                }
            },
        },
    }
}

/// What `vec_new_from_linear_memory` does.
pub open spec fn does_vec_new_from_linear_memory(
    pre: Host,
    post: Host,
    memory: Seq<u8>,
    vals_pos: u32,
    len: u32,
    res: Result<VecObject, HostError>,
) -> bool {
    match vm_fault(pre) {
        Some(f) => fails(pre, post, res, f),
        None => {
            let charged = charge_bulk(pre, len as int, VAL_SIZE as int);
            let read = charge(charged.0, ContractCostType::VmMemRead, Some(words_size(len as nat)));
            if charged.1 is Err {
                runs_out(charged, post, res)
            } else if read.1 is Err {
                runs_out(read, post, res)
            } else {
                match good_memory_vals(read.0, memory, vals_pos as int, len as nat) {
                    Err(f) => fails(read.0, post, res, f),
                    Ok(vals) => stores(read.0, post, ObjModel::Vector(vals), vec_handle(res)),
                }
            }
        },
    }
}

/// What `vec_unpack_to_linear_memory` does.
pub open spec fn does_vec_unpack_to_linear_memory(
    pre: Host,
    post: Host,
    memory: Seq<u8>,
    changed: Seq<u8>,
    vec: VecObject,
    vals_pos: u32,
    len: u32,
    res: Result<(), HostError>,
) -> bool {
    match vm_fault(pre) {
        Some(f) => fails(pre, post, res, f) && changed == memory,
        None => match looks_at(pre, vec.handle, ObjectTag::VecObject) {
            (h, Err(e)) => gives_up(h, post, res, e) && changed
                == memory,
            (h, Ok(obj)) => gives_vals(
                h,
                post,
                memory,
                changed,
                vals_pos as int,
                obj->Vector_0,
                res,
            ),
        },
    }
}

} // verus!
