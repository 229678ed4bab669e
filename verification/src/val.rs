//! Tagged values: small values held in the word itself, and handles of objects
//! in the host's object table.

use crate::error::{Error, ScErrorType};
use vstd::prelude::*;

verus! {

/// The type of a host object, in the order in which values of different types
/// are sorted.
#[derive(Clone, Copy, PartialEq, Eq, Structural, Debug)]
pub enum ObjectTag {
    U64Object,
    I64Object,
    TimepointObject,
    DurationObject,
    U128Object,
    I128Object,
    U256Object,
    I256Object,
    BytesObject,
    StringObject,
    SymbolObject,
    VecObject,
    MapObject,
    AddressObject,
}

/// A handle of a host object, with the type that it claims.
#[derive(Clone, Copy, PartialEq, Eq, Structural, Debug)]
pub struct Object {
    pub tag: ObjectTag,
    pub handle: u32,
}

/// A value as it passes between a guest and the host.
///
/// The small variants hold 56-bit numbers, or up to nine symbol characters. A
/// word of a guest that is the packed form of nothing is a bad value.
#[derive(Clone, Copy, PartialEq, Eq, Structural, Debug)]
pub enum Val {
    Bool(bool),
    Void,
    Error(Error),
    U32(u32),
    I32(i32),
    U64Small(u64),
    I64Small(i64),
    TimepointSmall(u64),
    DurationSmall(u64),
    U128Small(u64),
    I128Small(i64),
    U256Small(u64),
    I256Small(i64),
    SymbolSmall(u64),
    Object(Object),
    Bad(u64),
}

/// One more than the largest unsigned small number.
pub const SMALL_LIMIT: u64 = 0x100_0000_0000_0000;

/// One more than the largest signed small number; its negation is the smallest.
pub const SIGNED_SMALL_LIMIT: i64 = 0x80_0000_0000_0000;

/// The number of objects that handles can tell apart.
pub const MAX_OBJECTS: usize = 0x8000_0000;

/// Absolute handles are odd, and number the host's table; relative handles are
/// even, and number the table of the running guest.
#[verifier::allow_in_spec]
pub fn is_relative_object_handle(handle: u32) -> bool
    returns
        handle % 2 == 0,
{
    handle % 2 == 0
}

/// The table position that a handle stands for.
pub open spec fn spec_handle_to_index(handle: u32) -> int {
    handle as int / 2
}

pub fn handle_to_index(handle: u32) -> (index: usize)
    ensures
        index == spec_handle_to_index(handle),
        index < MAX_OBJECTS,
{
    (handle / 2) as usize
}

/// The handle of a table position.
pub open spec fn spec_index_to_handle(index: int, relative: bool) -> int {
    if relative {
        2 * index
    } else {
        2 * index + 1
    }
}

/// The handle of a table position, unless the position is too large for one.
pub fn index_to_handle(index: usize, relative: bool) -> (handle: Option<u32>)
    ensures
        handle is Some <==> index < MAX_OBJECTS,
        handle matches Some(h) ==> h == spec_index_to_handle(index as int, relative)
            && spec_handle_to_index(h) == index && is_relative_object_handle(h) == relative,
{
    if index < MAX_OBJECTS {
        let doubled: u32 = (index as u32) * 2;
        if relative {
            Some(doubled)
        } else {
            Some(doubled + 1)
        }
    } else {
        None
    }
}

impl Val {
    /// Whether a value is not bad and, if it is small, fits the bits that it is
    /// packed into.
    pub open spec fn in_range(self) -> bool {
        match self {
            Val::U64Small(x) | Val::TimepointSmall(x) | Val::DurationSmall(x) | Val::U128Small(x) | Val::U256Small(x)
            | Val::SymbolSmall(x) => x < SMALL_LIMIT,
            Val::I64Small(x) | Val::I128Small(x) | Val::I256Small(x) => -SIGNED_SMALL_LIMIT <= x < SIGNED_SMALL_LIMIT,
            Val::Bad(_) => false,
            _ => true,
        }
    }

    pub fn is_in_range(self) -> (ok: bool)
        ensures
            ok == self.in_range(),
    {
        match self {
            Val::U64Small(x) => x < SMALL_LIMIT,
            Val::TimepointSmall(x) => x < SMALL_LIMIT,
            Val::DurationSmall(x) => x < SMALL_LIMIT,
            Val::U128Small(x) => x < SMALL_LIMIT,
            Val::U256Small(x) => x < SMALL_LIMIT,
            Val::SymbolSmall(x) => x < SMALL_LIMIT,
            Val::I64Small(x) => -SIGNED_SMALL_LIMIT <= x && x < SIGNED_SMALL_LIMIT,
            Val::I128Small(x) => -SIGNED_SMALL_LIMIT <= x && x < SIGNED_SMALL_LIMIT,
            Val::I256Small(x) => -SIGNED_SMALL_LIMIT <= x && x < SIGNED_SMALL_LIMIT,
            Val::Bad(_) => false,
            _ => true,
        }
    }

    #[verifier::allow_in_spec]
    pub fn is_object(self) -> bool
        returns
            self is Object,
    {
        match self {
            Val::Object(_) => true,
            _ => false,
        }
    }

    /// The low byte of the packed word.
    pub open spec fn payload_tag(self) -> int {
        match self {
            Val::Bool(b) => if b {
                1
            } else {
                0
            },
            Val::Void => 2,
            Val::Error(_) => 3,
            Val::U32(_) => 4,
            Val::I32(_) => 5,
            Val::U64Small(_) => 6,
            Val::I64Small(_) => 7,
            Val::TimepointSmall(_) => 8,
            Val::DurationSmall(_) => 9,
            Val::U128Small(_) => 10,
            Val::I128Small(_) => 11,
            Val::U256Small(_) => 12,
            Val::I256Small(_) => 13,
            Val::SymbolSmall(_) => 14,
            Val::Object(o) => 64 + o.tag.spec_number(),
            Val::Bad(w) => w as int % 256,
        }
    }

    /// The upper 56 bits of the packed word. A 32-bit number takes the upper 32
    /// of them; signed small numbers are kept modulo 2^56.
    pub open spec fn payload_body(self) -> int {
        match self {
            Val::Bool(_) | Val::Void => 0,
            Val::Error(e) => e.code * 0x100_0000 + e.type_.spec_number(),
            Val::U32(x) => x * 0x100_0000,
            Val::I32(x) => (x as int % 0x1_0000_0000) * 0x100_0000,
            Val::U64Small(x) | Val::TimepointSmall(x) | Val::DurationSmall(x) | Val::U128Small(x) | Val::U256Small(x)
            | Val::SymbolSmall(x) => x as int,
            Val::I64Small(x) | Val::I128Small(x) | Val::I256Small(x) => x as int % (SMALL_LIMIT as int),
            Val::Object(o) => o.handle * 0x100_0000,
            Val::Bad(w) => w as int / 256,
        }
    }

    /// The packed word of a value.
    pub open spec fn payload(self) -> int {
        self.payload_body() * 256 + self.payload_tag()
    }

    /// Packs a value into a word.
    pub fn get_payload(self) -> (payload: u64)
        requires
            self.in_range(),
        ensures
            payload == self.payload(),
    {
        let tag: u64 = match self {
            Val::Bool(b) => if b {
                1
            } else {
                0
            },
            Val::Void => 2,
            Val::Error(_) => 3,
            Val::U32(_) => 4,
            Val::I32(_) => 5,
            Val::U64Small(_) => 6,
            Val::I64Small(_) => 7,
            Val::TimepointSmall(_) => 8,
            Val::DurationSmall(_) => 9,
            Val::U128Small(_) => 10,
            Val::I128Small(_) => 11,
            Val::U256Small(_) => 12,
            Val::I256Small(_) => 13,
            Val::SymbolSmall(_) => 14,
            Val::Object(o) => 64 + o.tag.number() as u64,
            Val::Bad(w) => w % 256,
        };
        let body: u64 = match self {
            Val::Bool(_) => 0,
            Val::Void => 0,
            Val::Error(e) => (e.code as u64) * 0x100_0000 + e.type_.number() as u64,
            Val::U32(x) => (x as u64) * 0x100_0000,
            Val::I32(x) => {
                let wide: i64 = x as i64;
                let unsigned: u64 = if wide < 0 {
                    (wide + 0x1_0000_0000) as u64
                } else {
                    wide as u64
                };
                unsigned * 0x100_0000
            },
            Val::U64Small(x) => x,
            Val::I64Small(x) => signed_small_to_body(x),
            Val::TimepointSmall(x) => x,
            Val::DurationSmall(x) => x,
            Val::U128Small(x) => x,
            Val::I128Small(x) => signed_small_to_body(x),
            Val::U256Small(x) => x,
            Val::I256Small(x) => signed_small_to_body(x),
            Val::SymbolSmall(x) => x,
            Val::Object(o) => (o.handle as u64) * 0x100_0000,
            Val::Bad(w) => w / 256,
        };
        body * 256 + tag
    }

    /// Unpacks a word.
    pub fn from_payload(payload: u64) -> (val: Val)
        ensures
            val == val_of_word(payload),
            val.payload() == payload,
    {
        match Val::unpack(payload) {
            Some(v) => {
                proof {
                    law_payload_round_trip(v);
                }
                v
            },
            None => Val::Bad(payload),
        }
    }

    fn unpack(payload: u64) -> (val: Option<Val>)
        ensures
            val matches Some(v) ==> v.in_range() && v.payload() == payload,
            val is None ==> forall|v: Val| v.in_range() ==> #[trigger] v.payload() != payload,
    {
        let tag: u64 = payload % 256;
        let body: u64 = payload / 256;
        let major: u32 = (body / 0x100_0000) as u32;
        let minor: u32 = (body % 0x100_0000) as u32;
        if tag == 0 || tag == 1 || tag == 2 {
            if body != 0 {
                None
            } else if tag == 2 {
                Some(Val::Void)
            } else {
                Some(Val::Bool(tag == 1))
            }
        } else if tag == 3 {
            match ScErrorType::from_number(minor) {
                Some(type_) => Some(Val::Error(Error { type_, code: major })),
                None => None,
            }
        } else if tag == 4 || tag == 5 {
            if minor != 0 {
                None
            } else if tag == 4 {
                Some(Val::U32(major))
            } else {
                let wide: i64 = major as i64;
                let signed: i32 = if wide < 0x8000_0000 {
                    wide as i32
                } else {
                    (wide - 0x1_0000_0000) as i32
                };
                Some(Val::I32(signed))
            }
        } else if tag == 6 {
            Some(Val::U64Small(body))
        } else if tag == 7 {
            Some(Val::I64Small(signed_small_from_body(body)))
        } else if tag == 8 {
            Some(Val::TimepointSmall(body))
        } else if tag == 9 {
            Some(Val::DurationSmall(body))
        } else if tag == 10 {
            Some(Val::U128Small(body))
        } else if tag == 11 {
            Some(Val::I128Small(signed_small_from_body(body)))
        } else if tag == 12 {
            Some(Val::U256Small(body))
        } else if tag == 13 {
            Some(Val::I256Small(signed_small_from_body(body)))
        } else if tag == 14 {
            Some(Val::SymbolSmall(body))
        } else if tag >= 64 && minor == 0 {
            match ObjectTag::from_number((tag - 64) as u32) {
                Some(tag) => Some(Val::Object(Object { tag, handle: major })),
                None => None,
            }
        } else {
            None
        }
    }
}

/// The value that a word is the packed form of; a bad one, if there is none.
pub open spec fn val_of_word(w: u64) -> Val {
    if exists|v: Val| #![trigger v.payload()] v.in_range() && v.payload() == w {
        choose|v: Val| #![trigger v.payload()] v.in_range() && v.payload() == w
    } else {
        Val::Bad(w)
    }
}

/// Unpacking gives back what was packed.
pub proof fn law_payload_round_trip(v: Val)
    requires
        v.in_range(),
    ensures
        0 <= v.payload() <= u64::MAX,
        val_of_word(v.payload() as u64) == v,
{
    assert(0 <= v.payload_body() < 0x100_0000_0000_0000);
    assert(0 <= v.payload_tag() < 256);
    let w = v.payload();
    let u = choose|u: Val| #![trigger u.payload()] u.in_range() && u.payload() == w;
    law_payload_injective(u, v);
}

/// Packing loses nothing: two values with the same packed word are the same.
pub proof fn law_payload_injective(a: Val, b: Val)
    requires
        a.in_range(),
        b.in_range(),
        a.payload() == b.payload(),
    ensures
        a == b,
{
    assert(a.payload_tag() == a.payload() % 256);
    assert(b.payload_tag() == b.payload() % 256);
    assert(a.payload_body() == b.payload_body());
}

fn signed_small_to_body(x: i64) -> (body: u64)
    requires
        -SIGNED_SMALL_LIMIT <= x < SIGNED_SMALL_LIMIT,
    ensures
        body == x as int % (SMALL_LIMIT as int),
        body < SMALL_LIMIT,
{
    if x < 0 {
        (x + SMALL_LIMIT as i64) as u64
    } else {
        x as u64
    }
}

fn signed_small_from_body(body: u64) -> (x: i64)
    requires
        body < SMALL_LIMIT,
    ensures
        -SIGNED_SMALL_LIMIT <= x < SIGNED_SMALL_LIMIT,
        body == x as int % (SMALL_LIMIT as int),
{
    if body < SIGNED_SMALL_LIMIT as u64 {
        body as i64
    } else {
        body as i64 - SMALL_LIMIT as i64
    }
}

impl ObjectTag {
    pub open spec fn spec_number(self) -> u32 {
        match self {
            ObjectTag::U64Object => 0,
            ObjectTag::I64Object => 1,
            ObjectTag::TimepointObject => 2,
            ObjectTag::DurationObject => 3,
            ObjectTag::U128Object => 4,
            ObjectTag::I128Object => 5,
            ObjectTag::U256Object => 6,
            ObjectTag::I256Object => 7,
            ObjectTag::BytesObject => 8,
            ObjectTag::StringObject => 9,
            ObjectTag::SymbolObject => 10,
            ObjectTag::VecObject => 11,
            ObjectTag::MapObject => 12,
            ObjectTag::AddressObject => 13,
        }
    }

    #[verifier::when_used_as_spec(spec_number)]
    pub fn number(self) -> (n: u32)
        ensures
            n == self.spec_number(),
            n < 14,
    {
        match self {
            ObjectTag::U64Object => 0,
            ObjectTag::I64Object => 1,
            ObjectTag::TimepointObject => 2,
            ObjectTag::DurationObject => 3,
            ObjectTag::U128Object => 4,
            ObjectTag::I128Object => 5,
            ObjectTag::U256Object => 6,
            ObjectTag::I256Object => 7,
            ObjectTag::BytesObject => 8,
            ObjectTag::StringObject => 9,
            ObjectTag::SymbolObject => 10,
            ObjectTag::VecObject => 11,
            ObjectTag::MapObject => 12,
            ObjectTag::AddressObject => 13,
        }
    }

    /// The object type with the given number, if there is one.
    pub fn from_number(n: u32) -> (t: Option<ObjectTag>)
        ensures
            t is Some <==> n < 14,
            t matches Some(x) ==> x.spec_number() == n,
    {
        if n == 0 {
            Some(ObjectTag::U64Object)
        } else if n == 1 {
            Some(ObjectTag::I64Object)
        } else if n == 2 {
            Some(ObjectTag::TimepointObject)
        } else if n == 3 {
            Some(ObjectTag::DurationObject)
        } else if n == 4 {
            Some(ObjectTag::U128Object)
        } else if n == 5 {
            Some(ObjectTag::I128Object)
        } else if n == 6 {
            Some(ObjectTag::U256Object)
        } else if n == 7 {
            Some(ObjectTag::I256Object)
        } else if n == 8 {
            Some(ObjectTag::BytesObject)
        } else if n == 9 {
            Some(ObjectTag::StringObject)
        } else if n == 10 {
            Some(ObjectTag::SymbolObject)
        } else if n == 11 {
            Some(ObjectTag::VecObject)
        } else if n == 12 {
            Some(ObjectTag::MapObject)
        } else if n == 13 {
            Some(ObjectTag::AddressObject)
        } else {
            None
        }
    }
}

/// A handle of an unsigned 64-bit number.
#[derive(Clone, Copy, PartialEq, Eq, Structural, Debug)]
pub struct U64Object {
    pub handle: u32,
}

impl U64Object {
    #[verifier::allow_in_spec]
    pub fn to_val(self) -> Val
        returns
            Val::Object(Object { tag: ObjectTag::U64Object, handle: self.handle }),
    {
        Val::Object(Object { tag: ObjectTag::U64Object, handle: self.handle })
    }
}

/// A handle of a signed 64-bit number.
#[derive(Clone, Copy, PartialEq, Eq, Structural, Debug)]
pub struct I64Object {
    pub handle: u32,
}

impl I64Object {
    #[verifier::allow_in_spec]
    pub fn to_val(self) -> Val
        returns
            Val::Object(Object { tag: ObjectTag::I64Object, handle: self.handle }),
    {
        Val::Object(Object { tag: ObjectTag::I64Object, handle: self.handle })
    }
}

/// A handle of a point in time.
#[derive(Clone, Copy, PartialEq, Eq, Structural, Debug)]
pub struct TimepointObject {
    pub handle: u32,
}

impl TimepointObject {
    #[verifier::allow_in_spec]
    pub fn to_val(self) -> Val
        returns
            Val::Object(Object { tag: ObjectTag::TimepointObject, handle: self.handle }),
    {
        Val::Object(Object { tag: ObjectTag::TimepointObject, handle: self.handle })
    }
}

/// A handle of a length of time.
#[derive(Clone, Copy, PartialEq, Eq, Structural, Debug)]
pub struct DurationObject {
    pub handle: u32,
}

impl DurationObject {
    #[verifier::allow_in_spec]
    pub fn to_val(self) -> Val
        returns
            Val::Object(Object { tag: ObjectTag::DurationObject, handle: self.handle }),
    {
        Val::Object(Object { tag: ObjectTag::DurationObject, handle: self.handle })
    }
}

/// A handle of an unsigned 128-bit number.
#[derive(Clone, Copy, PartialEq, Eq, Structural, Debug)]
pub struct U128Object {
    pub handle: u32,
}

impl U128Object {
    #[verifier::allow_in_spec]
    pub fn to_val(self) -> Val
        returns
            Val::Object(Object { tag: ObjectTag::U128Object, handle: self.handle }),
    {
        Val::Object(Object { tag: ObjectTag::U128Object, handle: self.handle })
    }
}

/// A handle of a signed 128-bit number.
#[derive(Clone, Copy, PartialEq, Eq, Structural, Debug)]
pub struct I128Object {
    pub handle: u32,
}

impl I128Object {
    #[verifier::allow_in_spec]
    pub fn to_val(self) -> Val
        returns
            Val::Object(Object { tag: ObjectTag::I128Object, handle: self.handle }),
    {
        Val::Object(Object { tag: ObjectTag::I128Object, handle: self.handle })
    }
}

/// A handle of an unsigned 256-bit number.
#[derive(Clone, Copy, PartialEq, Eq, Structural, Debug)]
pub struct U256Object {
    pub handle: u32,
}

impl U256Object {
    #[verifier::allow_in_spec]
    pub fn to_val(self) -> Val
        returns
            Val::Object(Object { tag: ObjectTag::U256Object, handle: self.handle }),
    {
        Val::Object(Object { tag: ObjectTag::U256Object, handle: self.handle })
    }
}

/// A handle of a signed 256-bit number.
#[derive(Clone, Copy, PartialEq, Eq, Structural, Debug)]
pub struct I256Object {
    pub handle: u32,
}

impl I256Object {
    #[verifier::allow_in_spec]
    pub fn to_val(self) -> Val
        returns
            Val::Object(Object { tag: ObjectTag::I256Object, handle: self.handle }),
    {
        Val::Object(Object { tag: ObjectTag::I256Object, handle: self.handle })
    }
}

/// A handle of a byte string.
#[derive(Clone, Copy, PartialEq, Eq, Structural, Debug)]
pub struct BytesObject {
    pub handle: u32,
}

impl BytesObject {
    #[verifier::allow_in_spec]
    pub fn to_val(self) -> Val
        returns
            Val::Object(Object { tag: ObjectTag::BytesObject, handle: self.handle }),
    {
        Val::Object(Object { tag: ObjectTag::BytesObject, handle: self.handle })
    }
}

/// A handle of a text string.
#[derive(Clone, Copy, PartialEq, Eq, Structural, Debug)]
pub struct StringObject {
    pub handle: u32,
}

impl StringObject {
    #[verifier::allow_in_spec]
    pub fn to_val(self) -> Val
        returns
            Val::Object(Object { tag: ObjectTag::StringObject, handle: self.handle }),
    {
        Val::Object(Object { tag: ObjectTag::StringObject, handle: self.handle })
    }
}

/// A handle of a symbol.
#[derive(Clone, Copy, PartialEq, Eq, Structural, Debug)]
pub struct SymbolObject {
    pub handle: u32,
}

impl SymbolObject {
    #[verifier::allow_in_spec]
    pub fn to_val(self) -> Val
        returns
            Val::Object(Object { tag: ObjectTag::SymbolObject, handle: self.handle }),
    {
        Val::Object(Object { tag: ObjectTag::SymbolObject, handle: self.handle })
    }
}

/// A handle of a vector.
#[derive(Clone, Copy, PartialEq, Eq, Structural, Debug)]
pub struct VecObject {
    pub handle: u32,
}

impl VecObject {
    #[verifier::allow_in_spec]
    pub fn to_val(self) -> Val
        returns
            Val::Object(Object { tag: ObjectTag::VecObject, handle: self.handle }),
    {
        Val::Object(Object { tag: ObjectTag::VecObject, handle: self.handle })
    }
}

/// A handle of a map.
#[derive(Clone, Copy, PartialEq, Eq, Structural, Debug)]
pub struct MapObject {
    pub handle: u32,
}

impl MapObject {
    #[verifier::allow_in_spec]
    pub fn to_val(self) -> Val
        returns
            Val::Object(Object { tag: ObjectTag::MapObject, handle: self.handle }),
    {
        Val::Object(Object { tag: ObjectTag::MapObject, handle: self.handle })
    }
}

/// A handle of an address.
#[derive(Clone, Copy, PartialEq, Eq, Structural, Debug)]
pub struct AddressObject {
    pub handle: u32,
}

impl AddressObject {
    #[verifier::allow_in_spec]
    pub fn to_val(self) -> Val
        returns
            Val::Object(Object { tag: ObjectTag::AddressObject, handle: self.handle }),
    {
        Val::Object(Object { tag: ObjectTag::AddressObject, handle: self.handle })
    }
}

/// A symbol: packed, or a handle of a longer one.
#[derive(Clone, Copy, PartialEq, Eq, Structural, Debug)]
pub enum Symbol {
    Small(u64),
    Object(SymbolObject),
}

impl Symbol {
    #[verifier::allow_in_spec]
    pub fn to_val(self) -> Val
        returns
            match self {
                Symbol::Small(body) => Val::SymbolSmall(body),
                Symbol::Object(o) => Val::Object(Object { tag: ObjectTag::SymbolObject, handle: o.handle }),
            },
    {
        match self {
            Symbol::Small(body) => Val::SymbolSmall(body),
            Symbol::Object(o) => Val::Object(Object { tag: ObjectTag::SymbolObject, handle: o.handle }),
        }
    }
}

/// An unsigned 64-bit number: small, or a handle of a larger one.
#[derive(Clone, Copy, PartialEq, Eq, Structural, Debug)]
pub enum U64Val {
    Small(u64),
    Object(U64Object),
}

impl U64Val {
    #[verifier::allow_in_spec]
    pub fn to_val(self) -> Val
        returns
            match self {
                U64Val::Small(x) => Val::U64Small(x),
                U64Val::Object(o) => Val::Object(Object { tag: ObjectTag::U64Object, handle: o.handle }),
            },
    {
        match self {
            U64Val::Small(x) => Val::U64Small(x),
            U64Val::Object(o) => Val::Object(Object { tag: ObjectTag::U64Object, handle: o.handle }),
        }
    }
}

/// An unsigned 256-bit number: small, or a handle of a larger one.
#[derive(Clone, Copy, PartialEq, Eq, Structural, Debug)]
pub enum U256Val {
    Small(u64),
    Object(U256Object),
}

impl U256Val {
    #[verifier::allow_in_spec]
    pub fn to_val(self) -> Val
        returns
            match self {
                U256Val::Small(x) => Val::U256Small(x),
                U256Val::Object(o) => Val::Object(Object { tag: ObjectTag::U256Object, handle: o.handle }),
            },
    {
        match self {
            U256Val::Small(x) => Val::U256Small(x),
            U256Val::Object(o) => Val::Object(Object { tag: ObjectTag::U256Object, handle: o.handle }),
        }
    }
}

/// A signed 256-bit number: small, or a handle of a larger one.
#[derive(Clone, Copy, PartialEq, Eq, Structural, Debug)]
pub enum I256Val {
    Small(i64),
    Object(I256Object),
}

impl I256Val {
    #[verifier::allow_in_spec]
    pub fn to_val(self) -> Val
        returns
            match self {
                I256Val::Small(x) => Val::I256Small(x),
                I256Val::Object(o) => Val::Object(Object { tag: ObjectTag::I256Object, handle: o.handle }),
            },
    {
        match self {
            I256Val::Small(x) => Val::I256Small(x),
            I256Val::Object(o) => Val::Object(Object { tag: ObjectTag::I256Object, handle: o.handle }),
        }
    }
}

} // verus!
