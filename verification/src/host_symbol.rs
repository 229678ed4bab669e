//! Symbols as values and as objects.

use crate::budget::ContractCostType;
use crate::error::{bare, bare_error, Fault, HostError, ScErrorCode, ScErrorType};
use crate::host::{charge, charge_bulk, fails, runs_out, Host};
use crate::host_object::{gives_up, looks_at, stores, symbol_handle, visit};
use crate::model::{deep, val_ok, BlobKind, Deep, ObjModel};
use crate::symbol::{
    all_symbol_chars, check_symbol_chars, fits_small_symbol, is_symbol, law_small_symbol_round_trip,
    lemma_small_symbol_body_bound, small_symbol_body, small_symbol_bytes, small_symbol_to_bytes, try_small_symbol,
    SCSYMBOL_LIMIT,
};
use crate::util::{bytes_eq, copy_bytes};
use crate::val::{Object, ObjectTag, Symbol, SymbolObject, Val};
use vstd::prelude::*;
use vstd::string::*;

verus! {

/// The characters of a symbol, or what is wrong with its handle.
pub open spec fn symbol_text(objs: Seq<ObjModel>, sym: Symbol) -> Result<Seq<u8>, Fault> {
    match sym {
        Symbol::Small(body) => Ok(small_symbol_bytes(body as int)),
        Symbol::Object(o) => match visit(objs, o.handle, ObjectTag::SymbolObject) {
            Ok(ObjModel::Blob(_, s)) => Ok(s),
            Ok(_) => Err((ScErrorType::Object, ScErrorCode::UnexpectedType)),
            Err(f) => Err(f),
        },
    }
}

/// The symbol that a value is, if it is one.
pub open spec fn as_symbol(v: Val) -> Option<Symbol> {
    match v {
        Val::SymbolSmall(body) => Some(Symbol::Small(body)),
        Val::Object(Object { tag: ObjectTag::SymbolObject, handle }) => Some(Symbol::Object(SymbolObject { handle })),
        _ => None,
    }
}

pub(crate) fn symbol_from_val(v: Val) -> (res: Result<Symbol, HostError>)
    ensures
        res == match as_symbol(v) {
            Some(sym) => Ok::<Symbol, HostError>(sym),
            None => Err(bare_error((ScErrorType::Value, ScErrorCode::UnexpectedType))),
        },
{
    match v {
        Val::SymbolSmall(body) => Ok(Symbol::Small(body)),
        Val::Object(Object { tag: ObjectTag::SymbolObject, handle }) => Ok(Symbol::Object(SymbolObject { handle })),
        _ => Err(bare(ScErrorType::Value, ScErrorCode::UnexpectedType)),
    }
}

/// The bytes of each text.
pub open spec fn texts(strs: Seq<&str>) -> Seq<Seq<u8>> {
    Seq::new(strs.len(), |i: int| strs[i].spec_bytes())
}

/// The characters of a symbol are read: looking up an object is charged for.
pub open spec fn reads_text(host: Host, sym: Symbol) -> (Host, Result<Seq<u8>, HostError>) {
    match sym {
        Symbol::Small(body) => (host, Ok(small_symbol_bytes(body as int))),
        Symbol::Object(o) => match looks_at(host, o.handle, ObjectTag::SymbolObject) {
            (h, Err(e)) => (h, Err(e)),
            (h, Ok(obj)) => (h, Ok(obj->Blob_1)),
        },
    }
}

/// A symbol is held against a text: the comparison of as many characters as both
/// have is charged for.
pub open spec fn holds_against(host: Host, s: Seq<u8>, sym: Symbol) -> (Host, Result<bool, HostError>) {
    match reads_text(host, sym) {
        (h, Err(e)) => (h, Err(e)),
        (h, Ok(text)) => match charge(h, ContractCostType::HostMemCmp, Some(shorter(text, s))) {
            (h, Err(e)) => (h, Err(e)),
            (h, Ok(_)) => (h, Ok(text == s)),
        },
    }
}

/// The length of the shorter of two byte strings.
pub open spec fn shorter(s: Seq<u8>, t: Seq<u8>) -> u64 {
    if s.len() <= t.len() {
        s.len() as u64
    } else {
        t.len() as u64
    }
}

/// A symbol is held against the first `n` texts of a list, until there is an
/// error.
pub open spec fn holds_against_all(host: Host, list: Seq<Seq<u8>>, sym: Symbol, n: nat) -> (Host, Option<HostError>)
    decreases n,
{
    if n == 0 {
        (host, None)
    } else {
        match holds_against_all(host, list, sym, (n - 1) as nat) {
            (h, Some(e)) => (h, Some(e)),
            (h, None) => match holds_against(h, list[n - 1], sym) {
                (h, Err(e)) => (h, Some(e)),
                (h, Ok(_)) => (h, None),
            },
        }
    }
}

/// Holding a symbol against texts changes nothing but the budget, and an error ends
/// it.
pub proof fn lemma_holds_against_all(host: Host, list: Seq<Seq<u8>>, sym: Symbol, n: nat, end: nat)
    requires
        n <= end,
    ensures
        ({
            let h = holds_against_all(host, list, sym, n).0;
            h == (Host { budget: h.budget, ..host })
        }),
        holds_against_all(host, list, sym, n).1 is Some ==> holds_against_all(host, list, sym, end)
            == holds_against_all(host, list, sym, n),
    decreases end,
{
    if n < end {
        lemma_holds_against_all(host, list, sym, n, (end - 1) as nat);
    } else if n > 0 {
        lemma_holds_against_all(host, list, sym, (n - 1) as nat, (n - 1) as nat);
    }
}

/// A symbol object is made of a byte string: the look at its characters is
/// charged for, they have to be characters of symbols, the copy is charged for,
/// and then it must not be too long.
pub open spec fn makes_symbol_object(pre: Host, post: Host, s: Seq<u8>, res: Result<SymbolObject, HostError>) -> bool {
    let looked = charge(pre, ContractCostType::HostMemCmp, Some(s.len() as u64));
    if looked.1 is Err {
        runs_out(looked, post, res)
    } else if !all_symbol_chars(s) {
        post == looked.0 && res == Err::<SymbolObject, HostError>(
            bare_error((ScErrorType::Value, ScErrorCode::InvalidInput)),
        )
    } else {
        let copied = charge_bulk(looked.0, s.len() as int, 1);
        if copied.1 is Err {
            runs_out(copied, post, res)
        } else if s.len() > SCSYMBOL_LIMIT {
            post == copied.0 && res == Err::<SymbolObject, HostError>(
                bare_error((ScErrorType::Value, ScErrorCode::InvalidInput)),
            )
        } else {
            stores(copied.0, post, ObjModel::Blob(BlobKind::Symbol, s), symbol_handle(res))
        }
    }
}

/// A symbol is made of a byte string: a small one where it fits, else an object.
pub open spec fn makes_symbol(pre: Host, post: Host, s: Seq<u8>, res: Result<Symbol, HostError>) -> bool {
    if fits_small_symbol(s) {
        &&& post == pre
        &&& res is Ok
        &&& res->Ok_0 is Small
        &&& res->Ok_0->Small_0 == small_symbol_body(s)
    } else {
        match res {
            Ok(sym) => sym is Object && makes_symbol_object(pre, post, s, Ok(sym->Object_0)),
            Err(e) => makes_symbol_object(pre, post, s, Err(e)),
        }
    }
}

/// Where a text first stands in a list from position `i` on.
pub open spec fn first_match(list: Seq<Seq<u8>>, s: Seq<u8>, i: nat) -> Option<nat>
    decreases list.len() - i,
{
    if i >= list.len() {
        None
    } else if list[i as int] == s {
        Some(i)
    } else {
        first_match(list, s, i + 1)
    }
}

/// It is found out where a symbol first stands in a list of texts.
pub open spec fn finds_in_texts(
    pre: Host,
    post: Host,
    list: Seq<Seq<u8>>,
    sym: Symbol,
    res: Result<u32, HostError>,
) -> bool {
    match holds_against_all(pre, list, sym, list.len()) {
        (h, Some(e)) => gives_up(h, post, res, e),
        (h, None) => {
            &&& post == h
            &&& res == match first_match(list, symbol_text(h.objs(), sym)->Ok_0, 0) {
                Some(i) => if i <= u32::MAX {
                    Ok::<u32, HostError>(i as u32)
                } else {
                    Err(h.spec_err((ScErrorType::Value, ScErrorCode::ArithDomain)))
                },
                None => Err(h.spec_err((ScErrorType::Value, ScErrorCode::InvalidInput))),
            }
        },
    }
}

/// A symbol that was made of a text has that text, and is well formed.
pub proof fn law_symbol_text_is_kept(pre: Host, post: Host, s: Seq<u8>, sym: Symbol)
    requires
        pre.wf(),
        makes_symbol(pre, post, s, Ok(sym)),
    ensures
        symbol_text(post.objs(), sym) == Ok::<Seq<u8>, Fault>(s),
        val_ok(post.objs(), sym.to_val()),
        deep(post.objs(), sym.to_val()) == Deep::Blob(BlobKind::Symbol, s),
        is_symbol(s),
{
    if fits_small_symbol(s) {
        law_small_symbol_round_trip(s);
        lemma_small_symbol_body_bound(s, 9);
    } else {
        assert(post.objs()[pre.objs().len() as int] == ObjModel::Blob(BlobKind::Symbol, s));
    }
}

/// A well-formed symbol has a text, and denotes it.
pub proof fn lemma_symbol_text(objs: Seq<ObjModel>, sym: Symbol)
    requires
        val_ok(objs, sym.to_val()),
    ensures
        symbol_text(objs, sym) is Ok,
        deep(objs, sym.to_val()) == Deep::Blob(BlobKind::Symbol, symbol_text(objs, sym)->Ok_0),
{
}

/// The first match of a text is the first place at which it stands.
pub proof fn law_first_match(list: Seq<Seq<u8>>, s: Seq<u8>, i: nat)
    ensures
        match first_match(list, s, i) {
            Some(k) => {
                &&& i <= k < list.len()
                &&& list[k as int] == s
                &&& forall|j: int| i <= j < k ==> #[trigger] list[j] != s
            },
            None => forall|j: int| i <= j < list.len() ==> #[trigger] list[j] != s,
        },
    decreases list.len() - i,
{
    if i < list.len() && list[i as int] != s {
        law_first_match(list, s, i + 1);
    }
}

impl Host {
    /// Whether a symbol has the given characters.
    pub fn symbol_matches(&mut self, s: &[u8], sym: Symbol) -> (res: Result<bool, HostError>)
        requires
            old(self).wf(),
        ensures
            final(self).wf(),
            does_symbol_matches(*old(self), *final(self), s@, sym, res),
    {
        let text = match sym {
            Symbol::Small(body) => small_symbol_to_bytes(body),
            Symbol::Object(o) => {
                self.charge_visit()?;
                copy_bytes(self.visit_symbol(o)?.as_slice())
            },
        };
        let n: usize = if text.len() <= s.len() {
            text.len()
        } else {
            s.len()
        };
        self.charge_budget(ContractCostType::HostMemCmp, Some(n as u64))?;
        Ok(bytes_eq(text.as_slice(), s))
    }

    /// Fails unless a symbol has the given characters.
    pub fn check_symbol_matches(&mut self, s: &[u8], sym: Symbol) -> (res: Result<(), HostError>)
        requires
            old(self).wf(),
        ensures
            final(self).wf(),
            does_check_symbol_matches(*old(self), *final(self), s@, sym, res),
    {
        if self.symbol_matches(s, sym)? {
            Ok(())
        } else {
            Err(self.err(ScErrorType::Value, ScErrorCode::InvalidInput))
        }
    }

    /// Makes a symbol object of a byte string.
    pub(crate) fn symbol_object_from_bytes(&mut self, s: &[u8]) -> (res: Result<SymbolObject, HostError>)
        requires
            old(self).wf(),
        ensures
            final(self).wf(),
            makes_symbol_object(*old(self), *final(self), s@, res),
    {
        self.charge_budget(ContractCostType::HostMemCmp, Some(s.len() as u64))?;
        if !check_symbol_chars(s) {
            return Err(bare(ScErrorType::Value, ScErrorCode::InvalidInput));
        }
        self.charge_bulk_init_cpy(s.len() as u64, 1)?;
        if s.len() > SCSYMBOL_LIMIT {
            return Err(bare(ScErrorType::Value, ScErrorCode::InvalidInput));
        }
        self.add_symbol(copy_bytes(s))
    }

    /// Makes a symbol object of a text.
    pub fn symbol_new_from_slice(&mut self, s: &str) -> (res: Result<SymbolObject, HostError>)
        requires
            old(self).wf(),
        ensures
            final(self).wf(),
            makes_symbol_object(*old(self), *final(self), s.spec_bytes(), res),
    {
        self.symbol_object_from_bytes(s.as_bytes())
    }

    /// Makes a symbol of a text, a small one where that can be.
    pub fn symbol_from_str(&mut self, s: &str) -> (res: Result<Symbol, HostError>)
        requires
            old(self).wf(),
        ensures
            final(self).wf(),
            makes_symbol(*old(self), *final(self), s.spec_bytes(), res),
    {
        match try_small_symbol(s.as_bytes()) {
            Some(body) => Ok(Symbol::Small(body)),
            None => match self.symbol_new_from_slice(s) {
                Ok(o) => Ok(Symbol::Object(o)),
                Err(e) => Err(e),
            },
        }
    }

    /// Where a symbol first stands in a list of texts.
    pub fn symbol_index_in_strs(&mut self, sym: Symbol, slices: &[&str]) -> (res: Result<u32, HostError>)
        requires
            old(self).wf(),
        ensures
            final(self).wf(),
            finds_in_texts(*old(self), *final(self), texts(slices@), sym, res),
    {
        let ghost list = texts(slices@);
        let ghost t = symbol_text(self.objs(), sym)->Ok_0;
        let mut found: Option<usize> = None;
        let mut i: usize = 0;
        while i < slices.len()
            invariant
                self.wf(),
                i <= slices@.len(),
                list == texts(slices@),
                self.objs() == old(self).objs(),
                t == symbol_text(self.objs(), sym)->Ok_0,
                holds_against_all(*old(self), list, sym, i as nat) == (*self, None::<HostError>),
                match found {
                    Some(k) => first_match(list, t, 0) == Some(k as nat),
                    None => first_match(list, t, 0) == first_match(list, t, i as nat),
                },
            decreases slices@.len() - i,
        {
            assert(list[i as int] == slices@[i as int].spec_bytes());
            proof {
                lemma_holds_against_all(*old(self), list, sym, (i + 1) as nat, slices@.len());
            }
            if self.symbol_matches(slices[i].as_bytes(), sym)? && found.is_none() {
                found = Some(i);
            }
            i += 1;
        }
        match found {
            None => Err(self.err(ScErrorType::Value, ScErrorCode::InvalidInput)),
            Some(i) => self.usize_to_u32(i),
        }
    }

    /// A length or an index as a value has it.
    pub(crate) fn usize_to_u32(&self, n: usize) -> (res: Result<u32, HostError>)
        ensures
            res == if n <= u32::MAX {
                Ok::<u32, HostError>(n as u32)
            } else {
                Err(self.spec_err((ScErrorType::Value, ScErrorCode::ArithDomain)))
            },
    {
        if n <= u32::MAX as usize {
            Ok(n as u32)
        } else {
            Err(self.err(ScErrorType::Value, ScErrorCode::ArithDomain))
        }
    }
}

/// What `symbol_matches` does.
pub open spec fn does_symbol_matches(
    pre: Host,
    post: Host,
    s: Seq<u8>,
    sym: Symbol,
    res: Result<bool, HostError>,
) -> bool {
    &&& (post, res) == holds_against(pre, s, sym)
    &&& res is Ok ==> symbol_text(pre.objs(), sym) is Ok && res->Ok_0 == (symbol_text(
        pre.objs(),
        sym,
    )->Ok_0 == s)
}

/// What `check_symbol_matches` does.
pub open spec fn does_check_symbol_matches(
    pre: Host,
    post: Host,
    s: Seq<u8>,
    sym: Symbol,
    res: Result<(), HostError>,
) -> bool {
    match holds_against(pre, s, sym) {
        (h, Err(e)) => gives_up(h, post, res, e),
        (h, Ok(is_same)) => if is_same {
            post == h && res == Ok::<(), HostError>(())
        } else {
            fails(h, post, res, (ScErrorType::Value, ScErrorCode::InvalidInput))
        },
    }
}

} // verus!
