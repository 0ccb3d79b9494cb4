//! The typed data model: the kinds of value a derive-based serialization
//! framework presents to the serializer or asks of the deserializer, and the
//! shape requests that drive the deserializer.
use vstd::prelude::*;

verus! {

/// A typed value, shaped by a compile-time schema: scalars, strings, bytes,
/// options, units, newtypes, sequences, tuples, mappings, structs with named
/// fields, and the four enum-variant forms (unit, newtype, tuple, struct).
#[derive(Debug, PartialEq)]
pub enum Typed {
    Bool(bool),
    I8(i8),
    I16(i16),
    I32(i32),
    I64(i64),
    U8(u8),
    U16(u16),
    U32(u32),
    U64(u64),
    Char(char),
    Str(String),
    Bytes(Vec<u8>),
    Opt(Option<Box<Typed>>),
    Unit,
    UnitStruct,
    NewtypeStruct(Box<Typed>),
    Sequence(Vec<Typed>),
    Tuple(Vec<Typed>),
    Mapping(Vec<(Typed, Typed)>),
    Struct(Vec<(String, Typed)>),
    UnitVariant(String),
    NewtypeVariant(String, Box<Typed>),
    TupleVariant(String, Vec<Typed>),
    StructVariant(String, Vec<(String, Typed)>),
}

/// Mathematical model of a [`Typed`] value. Integer variants keep their
/// width tag; their payloads always lie in that width's range when the value
/// came from executable code.
#[verifier::ext_equal]
pub enum TypedV {
    Bool(bool),
    I8(int),
    I16(int),
    I32(int),
    I64(int),
    U8(int),
    U16(int),
    U32(int),
    U64(int),
    Char(char),
    Str(Seq<char>),
    Bytes(Seq<u8>),
    Opt(Option<Box<TypedV>>),
    Unit,
    UnitStruct,
    NewtypeStruct(Box<TypedV>),
    Sequence(Seq<TypedV>),
    Tuple(Seq<TypedV>),
    Mapping(Seq<(TypedV, TypedV)>),
    Struct(Seq<(Seq<char>, TypedV)>),
    UnitVariant(Seq<char>),
    NewtypeVariant(Seq<char>, Box<TypedV>),
    TupleVariant(Seq<char>, Seq<TypedV>),
    StructVariant(Seq<char>, Seq<(Seq<char>, TypedV)>),
}

impl View for Typed {
    type V = TypedV;

    open spec fn view(&self) -> TypedV
        decreases self,
    {
        match self {
            Typed::Bool(b) => TypedV::Bool(*b),
            Typed::I8(v) => TypedV::I8(*v as int),
            Typed::I16(v) => TypedV::I16(*v as int),
            Typed::I32(v) => TypedV::I32(*v as int),
            Typed::I64(v) => TypedV::I64(*v as int),
            Typed::U8(v) => TypedV::U8(*v as int),
            Typed::U16(v) => TypedV::U16(*v as int),
            Typed::U32(v) => TypedV::U32(*v as int),
            Typed::U64(v) => TypedV::U64(*v as int),
            Typed::Char(c) => TypedV::Char(*c),
            Typed::Str(s) => TypedV::Str(s@),
            Typed::Bytes(b) => TypedV::Bytes(b@),
            Typed::Opt(o) => match o {
                Option::None => TypedV::Opt(Option::None),
                Option::Some(x) => TypedV::Opt(Option::Some(Box::new((**x)@))),
            },
            Typed::Unit => TypedV::Unit,
            Typed::UnitStruct => TypedV::UnitStruct,
            Typed::NewtypeStruct(x) => TypedV::NewtypeStruct(Box::new((**x)@)),
            Typed::Sequence(ts) => TypedV::Sequence(view_typeds(ts@)),
            Typed::Tuple(ts) => TypedV::Tuple(view_typeds(ts@)),
            Typed::Mapping(ps) => TypedV::Mapping(view_pairs(ps@)),
            Typed::Struct(fs) => TypedV::Struct(view_fields(fs@)),
            Typed::UnitVariant(n) => TypedV::UnitVariant(n@),
            Typed::NewtypeVariant(n, x) => TypedV::NewtypeVariant(n@, Box::new((**x)@)),
            Typed::TupleVariant(n, ts) => TypedV::TupleVariant(n@, view_typeds(ts@)),
            Typed::StructVariant(n, fs) => TypedV::StructVariant(n@, view_fields(fs@)),
        }
    }
}

/// The models of a sequence of typed values, element by element.
pub open spec fn view_typeds(s: Seq<Typed>) -> Seq<TypedV>
    decreases s,
{
    if s.len() == 0 {
        Seq::empty()
    } else {
        seq![s[0]@] + view_typeds(s.drop_first())
    }
}

/// The models of a sequence of key/value pairs, pair by pair.
pub open spec fn view_pairs(s: Seq<(Typed, Typed)>) -> Seq<(TypedV, TypedV)>
    decreases s,
{
    if s.len() == 0 {
        Seq::empty()
    } else {
        seq![(s[0].0@, s[0].1@)] + view_pairs(s.drop_first())
    }
}

/// The models of a sequence of named fields, field by field.
pub open spec fn view_fields(s: Seq<(String, Typed)>) -> Seq<(Seq<char>, TypedV)>
    decreases s,
{
    if s.len() == 0 {
        Seq::empty()
    } else {
        seq![(s[0].0@, s[0].1@)] + view_fields(s.drop_first())
    }
}

/// `view_typeds` is the pointwise model of its argument.
pub broadcast proof fn lemma_view_typeds(s: Seq<Typed>)
    ensures
        (#[trigger] view_typeds(s)).len() == s.len(),
        forall|i: int| 0 <= i < s.len() ==> #[trigger] view_typeds(s)[i] == s[i]@,
    decreases s,
{
    if s.len() > 0 {
        lemma_view_typeds(s.drop_first());
        assert(view_typeds(s) == seq![s[0]@] + view_typeds(s.drop_first()));
        assert forall|i: int| 0 <= i < s.len() implies #[trigger] view_typeds(s)[i] == s[i]@ by {
            if i == 0 {
                assert(view_typeds(s)[0] == s[0]@);
            } else {
                assert(view_typeds(s)[i] == view_typeds(s.drop_first())[i - 1]);
                assert(s.drop_first()[i - 1] == s[i]);
            }
        }
    }
}

/// `view_pairs` is the pointwise model of its argument.
pub broadcast proof fn lemma_view_pairs(s: Seq<(Typed, Typed)>)
    ensures
        (#[trigger] view_pairs(s)).len() == s.len(),
        forall|i: int| 0 <= i < s.len() ==> #[trigger] view_pairs(s)[i] == (s[i].0@, s[i].1@),
    decreases s,
{
    if s.len() > 0 {
        lemma_view_pairs(s.drop_first());
        assert(view_pairs(s) == seq![(s[0].0@, s[0].1@)] + view_pairs(s.drop_first()));
        assert forall|i: int| 0 <= i < s.len() implies #[trigger] view_pairs(s)[i] == (s[i].0@, s[i].1@) by {
            if i == 0 {
                assert(view_pairs(s)[0] == (s[0].0@, s[0].1@));
            } else {
                assert(view_pairs(s)[i] == view_pairs(s.drop_first())[i - 1]);
                assert(s.drop_first()[i - 1] == s[i]);
            }
        }
    }
}

/// `view_fields` is the pointwise model of its argument.
pub broadcast proof fn lemma_view_fields(s: Seq<(String, Typed)>)
    ensures
        (#[trigger] view_fields(s)).len() == s.len(),
        forall|i: int| 0 <= i < s.len() ==> #[trigger] view_fields(s)[i] == (s[i].0@, s[i].1@),
    decreases s,
{
    if s.len() > 0 {
        lemma_view_fields(s.drop_first());
        assert(view_fields(s) == seq![(s[0].0@, s[0].1@)] + view_fields(s.drop_first()));
        assert forall|i: int| 0 <= i < s.len() implies #[trigger] view_fields(s)[i] == (s[i].0@, s[i].1@) by {
            if i == 0 {
                assert(view_fields(s)[0] == (s[0].0@, s[0].1@));
            } else {
                assert(view_fields(s)[i] == view_fields(s.drop_first())[i - 1]);
                assert(s.drop_first()[i - 1] == s[i]);
            }
        }
    }
}

/// The shape the framework requests of the deserializer: one request per
/// typed kind, plus `Any`, which asks the deserializer to infer the shape
/// from the dynamic value itself.
#[derive(Debug)]
pub enum Shape {
    Bool,
    I8,
    I16,
    I32,
    I64,
    U8,
    U16,
    U32,
    U64,
    Char,
    Str,
    Bytes,
    Opt(Box<Shape>),
    Unit,
    UnitStruct,
    NewtypeStruct(Box<Shape>),
    Sequence(Box<Shape>),
    Tuple(Vec<Shape>),
    Mapping(Box<Shape>, Box<Shape>),
    Struct(Vec<(String, Shape)>),
    Enum(Vec<(String, VariantShape)>),
    Any,
}

/// The four payload forms an enum variant can declare.
#[derive(Debug)]
pub enum VariantShape {
    Unit,
    Newtype(Box<Shape>),
    Tuple(Vec<Shape>),
    Struct(Vec<(String, Shape)>),
}


} // verus!
