//! What symbols, handles, small values and guest memory are for.

use crate::budget::ContractCostType;
use crate::collection_laws::{at, has_room, is_new, law_free_work_is_allowed, only_charged};
use crate::error::{Fault, HostError, ScErrorCode, ScErrorType};
use crate::host::{charge, Host};
use crate::host_buf::{part_for_memory, range_fault, reads_memory, slice_fault};
use crate::host_convert::num_val;
use crate::host_frame::{absolute_val, relative_val};
use crate::host_map::{keys_of, values_of};
use crate::host_map_slices::checks_keys;
use crate::host_memory::{
    finds_in_memory, guest_vals, makes_map_of_memory, memory_vals, named_range, named_texts, seeks_symbol, zip,
};
use crate::host_object::{stores, stores_copy, stores_entries, stores_list, val_fault, visit};
use crate::host_symbol::{
    finds_in_texts, holds_against, holds_against_all, law_first_match, lemma_holds_against_all, makes_symbol,
    symbol_text,
};
use crate::memory::{from_le, le_bytes, mem_range, overwritten, word_at};
use crate::model::{val_ok, BlobKind, NumKind, ObjModel};
use crate::order_laws::blob_of;
use crate::symbol::{
    fits_small_symbol, is_symbol, small_symbol_body, spec_char_code, spec_code_char, spec_is_symbol_char,
};
use crate::val::{
    is_relative_object_handle, spec_handle_to_index, val_of_word, MapObject, Object, ObjectTag, Symbol, Val,
    MAX_OBJECTS,
};
use vstd::prelude::*;

verus! {

proof fn lemma_free(host: Host)
    ensures
        host.budget.is_free() ==> forall|ty: ContractCostType, input: Option<u64>| #[trigger]
            charge(host, ty, input) == (host, Ok::<(), HostError>(())),
{
    if host.budget.is_free() {
        assert forall|ty: ContractCostType, input: Option<u64>| #[trigger] charge(host, ty, input) == (
            host,
            Ok::<(), HostError>(()),
        ) by {
            law_free_work_is_allowed(host, ty, input);
        }
    }
}

/// Symbols are made of the underscore, digits and letters, and have at most 32 characters;
/// those with at most nine are small. The characters have the codes 1 to 63, in that order.
pub proof fn law_symbol_characters(s: Seq<u8>, c: u8)
    ensures
        spec_is_symbol_char(c) <==> c == 95 || 48 <= c <= 57 || 65 <= c <= 90 || 97 <= c <= 122,
        c == 95 ==> spec_char_code(c) == 1,
        48 <= c <= 57 ==> spec_char_code(c) == c - 46,
        65 <= c <= 90 ==> spec_char_code(c) == c - 53,
        97 <= c <= 122 ==> spec_char_code(c) == c - 59,
        spec_is_symbol_char(c) ==> spec_code_char(spec_char_code(c)) == c,
        is_symbol(s) <==> s.len() <= 32 && forall|i: int| 0 <= i < s.len() ==> spec_is_symbol_char(#[trigger] s[i]),
        fits_small_symbol(s) <==> s.len() <= 9 && forall|i: int|
            0 <= i < s.len() ==> spec_is_symbol_char(#[trigger] s[i]),
        small_symbol_body(Seq::<u8>::empty()) == 0,
        small_symbol_body(s.push(c)) == 64 * small_symbol_body(s) + spec_char_code(c),
{
    assert(s.push(c).drop_last() =~= s);
}

/// A symbol is made of a text if and only if the text is one, where there is room and work
/// is free; it is small if it has at most nine characters, and an object otherwise.
pub proof fn law_symbols_are_made(pre: Host, post: Host, s: Seq<u8>, res: Result<Symbol, HostError>)
    requires
        pre.wf(),
        makes_symbol(pre, post, s, res),
    ensures
        res is Ok ==> is_symbol(s) && (res->Ok_0 is Small <==> s.len() <= 9),
        res is Ok && s.len() <= 9 ==> post == pre,
        res is Ok && s.len() > 9 ==> {
            &&& is_new(pre, post, res->Ok_0->Object_0.handle)
            &&& at(post, res->Ok_0->Object_0.handle) == ObjModel::Blob(BlobKind::Symbol, s)
        },
        has_room(pre) && is_symbol(s) ==> res is Ok,
        !is_symbol(s) ==> res is Err,
{
    lemma_free(pre);
    if res is Ok && s.len() > 9 {
        let h = res->Ok_0->Object_0.handle;
        assert(at(post, h) == post.objs()[pre.objs().len() as int]);
    }
}

/// A symbol matches a text if and only if it has the very same characters. Where work is
/// free, a good symbol can always be held against a text.
pub proof fn law_symbol_matches(host: Host, s: Seq<u8>, sym: Symbol, text: Seq<u8>)
    requires
        val_ok(host.objs(), sym.to_val()),
        blob_of(host.objs(), sym.to_val()) == Some((BlobKind::Symbol, text)),
    ensures
        only_charged(host, holds_against(host, s, sym).0),
        holds_against(host, s, sym).1 matches Ok(b) ==> (b <==> text == s),
        host.budget.is_free() ==> holds_against(host, s, sym).1 is Ok,
{
    lemma_free(host);
}

/// Where a symbol is found in a list is where it first stands in it; it is not found if and
/// only if it stands nowhere.
pub proof fn law_symbol_is_found_in_texts(
    pre: Host,
    post: Host,
    list: Seq<Seq<u8>>,
    sym: Symbol,
    text: Seq<u8>,
    res: Result<u32, HostError>,
)
    requires
        pre.wf(),
        val_ok(pre.objs(), sym.to_val()),
        blob_of(pre.objs(), sym.to_val()) == Some((BlobKind::Symbol, text)),
        finds_in_texts(pre, post, list, sym, res),
    ensures
        only_charged(pre, post),
        res matches Ok(k) ==> {
            &&& k < list.len()
            &&& list[k as int] == text
            &&& forall|i: int| 0 <= i < k ==> #[trigger] list[i] != text
        },
        pre.budget.is_free() && list.len() <= u32::MAX && (exists|i: int|
            0 <= i < list.len() && #[trigger] list[i] == text) ==> res is Ok,
        pre.budget.is_free() && (forall|i: int| 0 <= i < list.len() ==> #[trigger] list[i] != text) ==> res is Err,
{
    lemma_holds_against_all(pre, list, sym, list.len(), list.len());
    law_first_match(list, text, 0);
    assert(symbol_text(pre.objs(), sym) == Ok::<Seq<u8>, Fault>(text));
    if pre.budget.is_free() {
        lemma_free_matching(pre, list, sym, list.len());
    }
}

proof fn lemma_free_matching(host: Host, list: Seq<Seq<u8>>, sym: Symbol, n: nat)
    requires
        host.budget.is_free(),
        val_ok(host.objs(), sym.to_val()),
    ensures
        holds_against_all(host, list, sym, n) == (host, None::<HostError>),
    decreases n,
{
    lemma_free(host);
    if n > 0 {
        lemma_free_matching(host, list, sym, (n - 1) as nat);
    }
}

/// Likewise among the texts that a table of ranges in guest memory names.
pub proof fn law_symbol_is_found_in_memory(
    pre: Host,
    post: Host,
    mem: Seq<u8>,
    sym: Symbol,
    text: Seq<u8>,
    lm_pos: u32,
    len: u32,
    res: Result<u32, HostError>,
)
    requires
        pre.wf(),
        val_ok(pre.objs(), sym.to_val()),
        blob_of(pre.objs(), sym.to_val()) == Some((BlobKind::Symbol, text)),
        finds_in_memory(pre, post, mem, sym, lm_pos, len, res),
    ensures
        res matches Ok(k) ==> {
            &&& k < len
            &&& named_range(mem, lm_pos as int, k as int) == Some(text)
            &&& forall|i: int| 0 <= i < k ==> #[trigger] named_range(mem, lm_pos as int, i) != Some(text)
        },
        pre.budget.is_free() && pre.context@.len() > 0 && pre.context@.last().frame is ContractVM && lm_pos + 8 * len
            <= mem.len() && (forall|i: int| 0 <= i < len ==> #[trigger] named_range(mem, lm_pos as int, i) is Some) ==> (
        res is Ok <==> exists|i: int| 0 <= i < len && #[trigger] named_range(mem, lm_pos as int, i) == Some(text)),
{
    let list = named_texts(mem, lm_pos as int, len as nat);
    let table = lm_pos as int;
    crate::host_memory::law_sought_ranges_are_in_memory(pre, mem, table, sym, len as nat, len as nat);
    lemma_seek(pre, mem, table, sym, len as nat);
    law_first_match(list, text, 0);
    assert(symbol_text(pre.objs(), sym) == Ok::<Seq<u8>, Fault>(text));
    assert forall|i: int| 0 <= i < len && named_range(mem, table, i) is Some implies (#[trigger] list[i] == text
        <==> named_range(mem, table, i) == Some(text)) by {}
    if let Ok(k) = res {
        assert(named_range(mem, table, k as int) is Some);
        assert(list[k as int] == text);
        assert forall|i: int| 0 <= i < k implies #[trigger] named_range(mem, table, i) != Some(text) by {
            assert(list[i] != text);
        }
    }
    if pre.budget.is_free() && (forall|i: int| 0 <= i < len ==> #[trigger] named_range(mem, table, i) is Some) {
        lemma_free_seek(pre, mem, table, sym, len as nat);
        if exists|i: int| 0 <= i < len && #[trigger] named_range(mem, table, i) == Some(text) {
            let i = choose|i: int| 0 <= i < len && #[trigger] named_range(mem, table, i) == Some(text);
            assert(list[i] == text);
        }
    }
}

proof fn lemma_seek(host: Host, mem: Seq<u8>, table: int, sym: Symbol, n: nat)
    ensures
        only_charged(host, seeks_symbol(host, mem, table, sym, n).0),
    decreases n,
{
    if n > 0 {
        lemma_seek(host, mem, table, sym, (n - 1) as nat);
    }
}

proof fn lemma_free_seek(host: Host, mem: Seq<u8>, table: int, sym: Symbol, n: nat)
    requires
        host.budget.is_free(),
        val_ok(host.objs(), sym.to_val()),
        forall|i: int| 0 <= i < n ==> #[trigger] named_range(mem, table, i) is Some,
    ensures
        seeks_symbol(host, mem, table, sym, n) == (host, None::<HostError>),
    decreases n,
{
    lemma_free(host);
    if n > 0 {
        lemma_free_seek(host, mem, table, sym, (n - 1) as nat);
        assert(named_range(mem, table, n - 1) is Some);
    }
}

/// A handle is followed to the object at its place in the table, if it is one of the host's,
/// there is such a place, and the object is of the type that is expected; and only then.
pub proof fn law_handles_are_followed(objs: Seq<ObjModel>, handle: u32, tag: ObjectTag)
    ensures
        ({
            let i = handle as int / 2;
            let is_good = handle % 2 == 1 && i < objs.len() && objs[i].tag() == tag;
            &&& is_good ==> visit(objs, handle, tag) == Ok::<ObjModel, Fault>(objs[i])
            &&& !is_good ==> visit(objs, handle, tag) is Err
            &&& handle % 2 == 0 ==> visit(objs, handle, tag) == Err::<ObjModel, Fault>(
                (ScErrorType::Context, ScErrorCode::InternalError),
            )
            &&& handle % 2 == 1 && i >= objs.len() ==> visit(objs, handle, tag) == Err::<ObjModel, Fault>(
                (ScErrorType::Object, ScErrorCode::MissingValue),
            )
        }),
{
}

/// A value is good if it has no fault: no bad value, no small value that is too large, no
/// handle of a guest's, none that points nowhere, and none that claims another type.
pub proof fn law_faults_of_values(objs: Seq<ObjModel>, v: Val)
    ensures
        v is Bad ==> val_fault(objs, v) is Some,
        v matches Val::U64Small(x) ==> (val_fault(objs, v) is None <==> x < 0x100_0000_0000_0000),
        v matches Val::I64Small(x) ==> (val_fault(objs, v) is None <==> -0x80_0000_0000_0000 <= x
            < 0x80_0000_0000_0000),
        v is Void || v is Bool || v is U32 || v is I32 || v is Error ==> val_fault(objs, v) is None,
        v matches Val::Object(o) ==> (val_fault(objs, v) is None <==> o.handle % 2 == 1 && o.handle as int / 2
            < objs.len() && objs[o.handle as int / 2].tag() == o.tag),
{
}

/// An object that is stored is found under the handle that is given back, whatever it is
/// stored as; there is always room until the table is full.
pub proof fn law_objects_are_stored(
    pre: Host,
    posts: (Host, Host, Host, Host),
    o: ObjModel,
    list: Seq<Val>,
    entries: Seq<(Val, Val)>,
    kind: BlobKind,
    s: Seq<u8>,
    res: (Result<u32, HostError>, Result<u32, HostError>, Result<u32, HostError>, Result<u32, HostError>),
)
    requires
        stores(pre, posts.0, o, res.0),
        stores_list(pre, posts.1, list, res.1),
        stores_entries(pre, posts.2, entries, res.2),
        stores_copy(pre, posts.3, kind, s, res.3),
    ensures
        res.0 matches Ok(h) ==> is_new(pre, posts.0, h) && at(posts.0, h) == o,
        res.1 matches Ok(h) ==> is_new(pre, posts.1, h) && at(posts.1, h) == ObjModel::Vector(list),
        res.2 matches Ok(h) ==> is_new(pre, posts.2, h) && at(posts.2, h) == ObjModel::Mapping(entries),
        res.3 matches Ok(h) ==> is_new(pre, posts.3, h) && at(posts.3, h) == ObjModel::Blob(kind, s),
        has_room(pre) ==> res.0 is Ok && res.1 is Ok && res.2 is Ok,
        has_room(pre) && s.len() <= u32::MAX ==> res.3 is Ok,
        pre.objs().len() >= MAX_OBJECTS ==> res.0 is Err && res.1 is Err && res.2 is Err && res.3 is Err,
{
    lemma_free(pre);
    if let Ok(h) = res.0 {
        assert(at(posts.0, h) == posts.0.objs()[pre.objs().len() as int]);
    }
    if let Ok(h) = res.1 {
        assert(at(posts.1, h) == posts.1.objs()[pre.objs().len() as int]);
    }
    if let Ok(h) = res.2 {
        assert(at(posts.2, h) == posts.2.objs()[pre.objs().len() as int]);
    }
    if let Ok(h) = res.3 {
        assert(at(posts.3, h) == posts.3.objs()[pre.objs().len() as int]);
    }
}

/// A number is small if and only if it takes at most 56 bits, and is an object otherwise:
/// equal numbers of a type are never told apart by that.
pub proof fn law_small_numbers(objs: Seq<ObjModel>, kind: NumKind, x: int)
    requires
        kind != NumKind::U32,
        kind != NumKind::I32,
    ensures
        ({
            let is_signed = kind == NumKind::I64 || kind == NumKind::I128 || kind == NumKind::I256;
            let is_small = if is_signed {
                -0x80_0000_0000_0000 <= x < 0x80_0000_0000_0000
            } else {
                0 <= x < 0x100_0000_0000_0000
            };
            let v = num_val(objs, kind, x);
            &&& is_small ==> v.0 == objs && v.1 is Ok && !(v.1->Ok_0 is Object) && crate::order_laws::number_of(
                objs,
                v.1->Ok_0,
            ) == Some((kind, x))
            &&& !is_small && objs.len() < MAX_OBJECTS ==> v.0 == objs.push(ObjModel::Num(kind, x)) && v.1 is Ok
                && v.1->Ok_0 is Object
            &&& !is_small && objs.len() >= MAX_OBJECTS ==> v.0 == objs && v.1 is Err
        }),
{
}

/// A range is good if it starts no later than it ends and ends within the bound.
pub proof fn law_ranges(start: int, end: int, pos: int, len: int, bound: int)
    requires
        0 <= start,
        0 <= end,
        0 <= pos,
        0 <= len,
        0 <= bound,
    ensures
        slice_fault(start, end, bound) is None <==> start <= end && end <= bound,
        range_fault(pos, len, bound) is None <==> pos + len <= bound && pos + len <= u32::MAX,
{
}

/// A stretch of memory is there if it ends within it, and has the bytes that stand there.
/// What is written over memory stands there then, and nothing else changes.
pub proof fn law_memory(mem: Seq<u8>, pos: int, len: int, s: Seq<u8>)
    requires
        0 <= pos,
        0 <= len,
        pos + s.len() <= mem.len(),
    ensures
        mem_range(mem, pos, len) is Some <==> pos + len <= mem.len(),
        mem_range(mem, pos, len) matches Some(t) ==> t.len() == len && forall|i: int|
            0 <= i < len ==> #[trigger] t[i] == mem[pos + i],
        overwritten(mem, pos, s).len() == mem.len(),
        forall|i: int| 0 <= i < s.len() ==> overwritten(mem, pos, s)[pos + i] == #[trigger] s[i],
        forall|i: int|
            0 <= i < mem.len() && !(pos <= i < pos + s.len()) ==> #[trigger] overwritten(mem, pos, s)[i] == mem[i],
{
}

/// Numbers stand in memory with the least significant byte first.
pub proof fn law_words(b: u8, s: Seq<u8>, x: int, n: nat)
    requires
        n > 0,
    ensures
        from_le(seq![b] + s) == b + 256 * from_le(s),
        from_le(Seq::<u8>::empty()) == 0,
        le_bytes(x, n).len() > 0,
        le_bytes(x, n)[0] == x % 256,
        le_bytes(x, n).drop_first() == le_bytes(x / 256, (n - 1) as nat),
{
    assert((seq![b] + s).drop_first() =~= s);
    assert(le_bytes(x, n).drop_first() =~= le_bytes(x / 256, (n - 1) as nat));
}

/// What is read from guest memory are the bytes that stand there, and what is written is the
/// part of the string that was asked for; where work is free, both succeed if and only if a
/// guest is running and both ends are within their bounds.
pub proof fn law_strings_and_memory(
    host: Host,
    mem: Seq<u8>,
    handle: u32,
    tag: ObjectTag,
    kind: BlobKind,
    s: Seq<u8>,
    pos: int,
    lm_pos: int,
    len: int,
)
    requires
        0 <= pos,
        0 <= lm_pos,
        0 <= len <= u32::MAX,
        !is_relative_object_handle(handle),
        spec_handle_to_index(handle) < host.objs().len(),
        host.objs()[spec_handle_to_index(handle)] == ObjModel::Blob(kind, s),
        ObjModel::Blob(kind, s).tag() == tag,
    ensures
        ({
            let guest = host.context@.len() > 0 && host.context@.last().frame is ContractVM;
            let read = reads_memory(host, mem, lm_pos, len);
            let part = part_for_memory(host, handle, tag, pos, lm_pos, len, mem.len() as int);
            &&& only_charged(host, read.0) && only_charged(host, part.0)
            &&& read.1 matches Ok(t) ==> t.len() == len && forall|i: int| 0 <= i < len ==> #[trigger] t[i] == mem[lm_pos + i]
            &&& part.1 matches Ok(t) ==> t.len() == len && forall|i: int| 0 <= i < len ==> #[trigger] t[i] == s[pos + i]
            &&& host.budget.is_free() ==> (read.1 is Ok <==> guest && lm_pos + len <= mem.len())
            &&& host.budget.is_free() ==> (part.1 is Ok <==> guest && lm_pos + len <= mem.len() && pos + len <= s.len()
                && pos + len <= u32::MAX)
        }),
{
    lemma_free(host);
}

/// The word at an index of a table of ranges has the position of the range in its lower half
/// and the length in its upper half.
pub proof fn law_named_ranges(mem: Seq<u8>, table: int, i: int)
    ensures
        ({
            let w = word_at(mem, table + 8 * i);
            let (pos, len) = (w % 0x1_0000_0000, w / 0x1_0000_0000);
            &&& named_range(mem, table, i) is Some <==> pos + len <= mem.len()
            &&& named_range(mem, table, i) matches Some(s) ==> s == mem.subrange(pos, pos + len)
        }),
{
}

/// A guest's value stands for the object that the guest knows by its handle, if the handle is
/// the guest's, is known and claims the right type; a handle of the host's stands for nothing,
/// and what is no handle stands for itself.
pub proof fn law_guest_values(table: Seq<Object>, v: Val)
    ensures
        !(v is Object) ==> absolute_val(table, v) == Ok::<Val, Fault>(v),
        v matches Val::Object(o) ==> {
            let i = o.handle as int / 2;
            let is_known = o.handle % 2 == 0 && i < table.len() && table[i].tag == o.tag;
            &&& is_known ==> absolute_val(table, v) == Ok::<Val, Fault>(Val::Object(table[i]))
            &&& !is_known ==> absolute_val(table, v) is Err
        },
        !(v is Object) ==> relative_val(table, v) == Ok::<(Val, Seq<Object>), Fault>((v, table)),
        v matches Val::Object(o) && (o.handle % 2 == 0 || table.len() >= MAX_OBJECTS) ==> relative_val(table, v) is Err,
        v matches Val::Object(o) && o.handle % 2 == 1 && table.len() < MAX_OBJECTS ==> {
            let r = relative_val(table, v);
            &&& r is Ok
            &&& r->Ok_0.1 == table.push(v->Object_0)
            &&& r->Ok_0.0 is Object
            &&& r->Ok_0.0->Object_0.tag == v->Object_0.tag
            &&& r->Ok_0.0->Object_0.handle == 2 * table.len()
        },
{
}

/// The values in guest memory are those that its words stand for, in order.
pub proof fn law_memory_values(table: Seq<Object>, mem: Seq<u8>, pos: int, n: nat, i: int)
    requires
        guest_vals(table, mem, pos, n) is Ok,
        0 <= i < n,
    ensures
        guest_vals(table, mem, pos, n)->Ok_0.len() == n,
        absolute_val(table, val_of_word(word_at(mem, pos + 8 * i) as u64)) == Ok::<Val, Fault>(
            guest_vals(table, mem, pos, n)->Ok_0[i],
        ),
    decreases n,
{
    if n > 1 {
        if i < n - 1 {
            law_memory_values(table, mem, pos, (n - 1) as nat, i);
        } else {
            law_memory_values(table, mem, pos, (n - 1) as nat, 0);
        }
    } else {
        reveal_with_fuel(guest_vals, 2);
    }
}

/// The keys and values of a map each in turn, and the pairs of two lists.
pub proof fn law_pairs(m: Seq<(Val, Val)>, keys: Seq<Val>, vals: Seq<Val>)
    requires
        keys.len() == vals.len(),
    ensures
        keys_of(m).len() == m.len() && values_of(m).len() == m.len(),
        forall|i: int| 0 <= i < m.len() ==> (#[trigger] m[i]).0 == keys_of(m)[i] && m[i].1 == values_of(m)[i],
        zip(keys, vals).len() == keys.len(),
        forall|i: int| 0 <= i < keys.len() ==> (#[trigger] zip(keys, vals)[i]) == (keys[i], vals[i]),
{
}

/// A map that was made of guest memory has the keys that were named and the values that stand
/// in memory, in order.
pub proof fn law_map_of_memory(
    pre: Host,
    post: Host,
    mem: Seq<u8>,
    vals_pos: int,
    n: nat,
    keys: Seq<Val>,
    r: MapObject,
    i: int,
)
    requires
        keys.len() == n,
        makes_map_of_memory(pre, post, mem, vals_pos, n, Ok(keys), Ok(r)),
        0 <= i < n,
    ensures
        is_new(pre, post, r.handle),
        at(post, r.handle) is Mapping,
        at(post, r.handle)->Mapping_0.len() == n,
        at(post, r.handle)->Mapping_0[i].0 == keys[i],
        memory_vals(pre, mem, vals_pos, n) is Ok,
        at(post, r.handle)->Mapping_0[i].1 == memory_vals(pre, mem, vals_pos, n)->Ok_0[i],
{
    law_memory_values(crate::host_frame::guest_table(pre), mem, vals_pos, n, i);
    assert(at(post, r.handle) == post.objs()[pre.objs().len() as int]);
}

/// A map whose keys pass is one whose keys are the symbols of the expected texts, in order.
pub proof fn law_passed_keys_are_expected(
    host: Host,
    m: Seq<(Val, Val)>,
    keys: Seq<Seq<u8>>,
    n: nat,
    i: int,
)
    requires
        checks_keys(host, m, keys, n).1 is None,
        n <= m.len(),
        n <= keys.len(),
        0 <= i < n,
    ensures
        blob_of(host.objs(), m[i].0) == Some((BlobKind::Symbol, keys[i])),
        checks_keys(host, m, keys, n).0.objs() == host.objs(),
    decreases n,
{
    if n > 0 {
        if i < n - 1 {
            law_passed_keys_are_expected(host, m, keys, (n - 1) as nat, i);
        } else if n > 1 {
            law_passed_keys_are_expected(host, m, keys, (n - 1) as nat, 0);
        }
    }
}

} // verus!
