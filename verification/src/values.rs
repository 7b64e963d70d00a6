//! Decoded values and their mathematical model.
//!
//! A register holds a [`Value`]: a scalar, a boolean, a byte string, a
//! container assembled from other registers, an enumeration variant, or an
//! optional.  Scalars are kept as their raw big-endian bit pattern together
//! with their declared kind, so that one representation serves the whole
//! family of fixed-width types.  The spec-level twin [`VVal`] replaces every
//! `Vec` by a `Seq` and every `String` by a `Seq<char>`; contracts speak of
//! `VVal` through the view function [`vval`].

use vstd::prelude::*;

verus! {

broadcast use {vstd::std_specs::vec::axiom_vec_decreases_to_view, vstd::seq::axiom_seq_index_decreases};

/// The fixed-width scalar kinds a program may decode.
#[derive(Clone, Copy, PartialEq, Eq, Structural, Debug)]
pub enum ScalarType {
    I8,
    I16,
    I32,
    I64,
    I128,
    U8,
    U16,
    U32,
    U64,
    U128,
}

impl ScalarType {
    /// Byte width of one scalar of this kind.
    pub open spec fn spec_size(self) -> nat {
        match self {
            ScalarType::I8 => 1,
            ScalarType::I16 => 2,
            ScalarType::I32 => 4,
            ScalarType::I64 => 8,
            ScalarType::I128 => 16,
            ScalarType::U8 => 1,
            ScalarType::U16 => 2,
            ScalarType::U32 => 4,
            ScalarType::U64 => 8,
            ScalarType::U128 => 16,
        }
    }

    pub fn size(self) -> (n: usize)
        ensures
            n == self.spec_size(),
    {
        match self {
            ScalarType::I8 => 1,
            ScalarType::I16 => 2,
            ScalarType::I32 => 4,
            ScalarType::I64 => 8,
            ScalarType::I128 => 16,
            ScalarType::U8 => 1,
            ScalarType::U16 => 2,
            ScalarType::U32 => 4,
            ScalarType::U64 => 8,
            ScalarType::U128 => 16,
        }
    }

    /// Whether the kind is interpreted in two's complement.
    pub open spec fn spec_signed(self) -> bool {
        match self {
            ScalarType::I8 => true,
            ScalarType::I16 => true,
            ScalarType::I32 => true,
            ScalarType::I64 => true,
            ScalarType::I128 => true,
            _ => false,
        }
    }

    pub fn is_signed(self) -> (b: bool)
        ensures
            b == self.spec_signed(),
    {
        match self {
            ScalarType::I8 => true,
            ScalarType::I16 => true,
            ScalarType::I32 => true,
            ScalarType::I64 => true,
            ScalarType::I128 => true,
            _ => false,
        }
    }
}

/// What a `DecodePrimitive` instruction reads: a boolean byte or a scalar.
#[derive(Clone, Copy, PartialEq, Eq, Structural, Debug)]
pub enum PrimitiveType {
    Bool,
    Scalar(ScalarType),
}

/// A decoded value held in a register.
///
/// `Scalar` keeps the raw bit pattern (always below `256^width`); signedness
/// is a matter of interpretation by the consumer, recorded in the kind.
#[derive(Debug)]
pub enum Value {
    Bool(bool),
    Scalar(ScalarType, u128),
    /// A byte string, e.g. a loop terminator sequence.
    Bytes(Vec<u8>),
    /// Items accumulated by a loop.
    List(Vec<Value>),
    /// A positional tuple assembled from registers.
    Tuple(Vec<Value>),
    /// A named variant wrapping positional values.
    TaggedTuple(String, Vec<Value>),
    /// A named record of (field name, value) pairs, in declared order.
    Record(String, Vec<(String, Value)>),
    /// An enumeration variant, by enumeration and variant name.
    EnumVariant(String, String),
    /// A conditional field whose condition was false.
    Absent,
    /// A conditional field whose condition was true.
    Present(Box<Value>),
}

/// The mathematical twin of [`Value`].
#[verifier::ext_equal]
pub enum VVal {
    Bool(bool),
    Scalar(ScalarType, u128),
    Bytes(Seq<u8>),
    List(Seq<VVal>),
    Tuple(Seq<VVal>),
    TaggedTuple(Seq<char>, Seq<VVal>),
    Record(Seq<char>, Seq<(Seq<char>, VVal)>),
    EnumVariant(Seq<char>, Seq<char>),
    Absent,
    Present(Box<VVal>),
}

/// The model of a value: `Vec` becomes `Seq`, `String` becomes `Seq<char>`.
pub open spec fn vval(v: Value) -> VVal
    decreases v,
{
    match v {
        Value::Bool(b) => VVal::Bool(b),
        Value::Scalar(t, x) => VVal::Scalar(t, x),
        Value::Bytes(bs) => VVal::Bytes(bs@),
        Value::List(items) => VVal::List(vval_seq(items@)),
        Value::Tuple(items) => VVal::Tuple(vval_seq(items@)),
        Value::TaggedTuple(name, items) => VVal::TaggedTuple(name@, vval_seq(items@)),
        Value::Record(name, fields) => VVal::Record(name@, vval_fields(fields@)),
        Value::EnumVariant(name, variant) => VVal::EnumVariant(name@, variant@),
        Value::Absent => VVal::Absent,
        Value::Present(inner) => VVal::Present(Box::new(vval(*inner))),
    }
}

pub open spec fn vval_seq(s: Seq<Value>) -> Seq<VVal>
    decreases s,
{
    if s.len() == 0 {
        Seq::empty()
    } else {
        vval_seq(s.drop_last()).push(vval(s.last()))
    }
}

pub open spec fn vval_fields(s: Seq<(String, Value)>) -> Seq<(Seq<char>, VVal)>
    decreases s,
{
    if s.len() == 0 {
        Seq::empty()
    } else {
        vval_fields(s.drop_last()).push((s.last().0@, vval(s.last().1)))
    }
}

pub proof fn lemma_vval_seq(s: Seq<Value>)
    ensures
        vval_seq(s).len() == s.len(),
        forall|i: int| 0 <= i < s.len() ==> vval_seq(s)[i] == vval(#[trigger] s[i]),
    decreases s.len(),
{
    if s.len() > 0 {
        lemma_vval_seq(s.drop_last());
        assert forall|i: int| 0 <= i < s.len() implies vval_seq(s)[i] == vval(#[trigger] s[i]) by {
            if i < s.len() - 1 {
                assert(s.drop_last()[i] == s[i]);
            } else {
                assert(s[i] == s.last());
            }
        }
    }
}

pub proof fn lemma_vval_fields(s: Seq<(String, Value)>)
    ensures
        vval_fields(s).len() == s.len(),
        forall|i: int|
            0 <= i < s.len() ==> vval_fields(s)[i] == ((#[trigger] s[i]).0@, vval(s[i].1)),
    decreases s.len(),
{
    if s.len() > 0 {
        lemma_vval_fields(s.drop_last());
        assert forall|i: int|
            0 <= i < s.len() implies vval_fields(s)[i] == ((#[trigger] s[i]).0@, vval(
            s[i].1,
        )) by {
            if i < s.len() - 1 {
                assert(s.drop_last()[i] == s[i]);
            } else {
                assert(s[i] == s.last());
            }
        }
    }
}

/// Deep copy of a value; registers are read many times but owned once.
pub fn clone_value(v: &Value) -> (r: Value)
    ensures
        vval(r) == vval(*v),
    decreases v,
{
    match v {
        Value::Bool(b) => Value::Bool(*b),
        Value::Scalar(t, x) => Value::Scalar(*t, *x),
        Value::Bytes(bs) => Value::Bytes(clone_bytes(bs)),
        Value::List(items) => Value::List(clone_values(items)),
        Value::Tuple(items) => Value::Tuple(clone_values(items)),
        Value::TaggedTuple(name, items) => Value::TaggedTuple(
            clone_string(name),
            clone_values(items),
        ),
        Value::Record(name, fields) => Value::Record(clone_string(name), clone_fields(fields)),
        Value::EnumVariant(name, variant) => Value::EnumVariant(
            clone_string(name),
            clone_string(variant),
        ),
        Value::Absent => Value::Absent,
        Value::Present(inner) => Value::Present(Box::new(clone_value(inner))),
    }
}

pub fn clone_string(s: &String) -> (r: String)
    ensures
        r@ == s@,
{
    s.clone()
}

pub fn clone_bytes(bs: &Vec<u8>) -> (r: Vec<u8>)
    ensures
        r@ == bs@,
{
    let mut out: Vec<u8> = Vec::new();
    let mut i: usize = 0;
    while i < bs.len()
        invariant
            i <= bs.len(),
            out@.len() == i,
            forall|k: int| 0 <= k < i ==> out@[k] == bs@[k],
        decreases bs.len() - i,
    {
        out.push(bs[i]);
        i = i + 1;
    }
    proof {
        assert(out@ =~= bs@);
    }
    out
}

pub fn clone_values(items: &Vec<Value>) -> (r: Vec<Value>)
    ensures
        vval_seq(r@) == vval_seq(items@),
        r@.len() == items@.len(),
    decreases items,
{
    let mut out: Vec<Value> = Vec::new();
    let mut i: usize = 0;
    while i < items.len()
        invariant
            i <= items.len(),
            out@.len() == i,
            forall|k: int| 0 <= k < i ==> vval(#[trigger] out@[k]) == vval(items@[k]),
        decreases items.len() - i,
    {
        let c = clone_value(&items[i]);
        out.push(c);
        i = i + 1;
    }
    proof {
        lemma_vval_seq(out@);
        lemma_vval_seq(items@);
        assert forall|k: int|
            0 <= k < out@.len() implies vval_seq(out@)[k] == vval_seq(items@)[k] by {
            assert(vval(out@[k]) == vval(items@[k]));
        }
        assert(vval_seq(out@) =~= vval_seq(items@));
    }
    out
}

pub fn clone_fields(fields: &Vec<(String, Value)>) -> (r: Vec<(String, Value)>)
    ensures
        vval_fields(r@) == vval_fields(fields@),
        r@.len() == fields@.len(),
    decreases fields,
{
    let mut out: Vec<(String, Value)> = Vec::new();
    let mut i: usize = 0;
    while i < fields.len()
        invariant
            i <= fields.len(),
            out@.len() == i,
            forall|k: int|
                0 <= k < i ==> (#[trigger] out@[k]).0@ == fields@[k].0@ && vval(out@[k].1)
                    == vval(fields@[k].1),
        decreases fields.len() - i,
    {
        let pair = &fields[i];
        let c = (clone_string(&pair.0), clone_value(&pair.1));
        out.push(c);
        i = i + 1;
    }
    proof {
        lemma_vval_fields(out@);
        lemma_vval_fields(fields@);
        assert forall|k: int|
            0 <= k < out@.len() implies vval_fields(out@)[k] == vval_fields(fields@)[k] by {
            assert(out@[k].0@ == fields@[k].0@ && vval(out@[k].1) == vval(fields@[k].1));
        }
        assert(vval_fields(out@) =~= vval_fields(fields@));
    }
    out
}

} // verus!
