//! Serialization: from a typed value to a dynamic value, driven in the
//! recursive-descent order the framework's schema dictates.
use vstd::prelude::*;

use crate::error::Error;
use crate::typed::{
    lemma_view_fields, lemma_view_pairs, lemma_view_typeds, view_fields, view_pairs, view_typeds,
    Typed, TypedV,
};
use crate::value::{dict_set, view_entries, view_values, Value, ValueV};

verus! {

/// The dynamic value a typed value converts to.
///
/// Scalars convert directly, with narrow integer widths widened to the one
/// dynamic integer kind. `None`, unit and unit structs become null. A byte
/// sequence is walked element by element, so it becomes the ordered sequence
/// of its octet values. Sequences become lists, tuples and tuple structs
/// become tuple values. Mappings and structs become key-ordered mappings,
/// built entry by entry with last-value-wins on a repeated key. A unit
/// variant becomes the bare string of its name; the other variant forms
/// become a single-entry mapping from the variant name to the payload.
pub open spec fn spec_ser(t: TypedV) -> ValueV
    decreases t,
{
    match t {
        TypedV::Bool(b) => ValueV::Bool(b),
        TypedV::I8(v) => ValueV::Int(v),
        TypedV::I16(v) => ValueV::Int(v),
        TypedV::I32(v) => ValueV::Int(v),
        TypedV::I64(v) => ValueV::Int(v),
        TypedV::U8(v) => ValueV::Int(v),
        TypedV::U16(v) => ValueV::Int(v),
        TypedV::U32(v) => ValueV::Int(v),
        TypedV::U64(v) => ValueV::Int(v),
        TypedV::Char(c) => ValueV::Str(seq![c]),
        TypedV::Str(s) => ValueV::Str(s),
        TypedV::Bytes(b) => ValueV::List(Seq::new(b.len(), |i: int| ValueV::Int(b[i] as int))),
        TypedV::Opt(o) => match o {
            Option::None => ValueV::Null,
            Option::Some(x) => spec_ser(*x),
        },
        TypedV::Unit => ValueV::Null,
        TypedV::UnitStruct => ValueV::Null,
        TypedV::NewtypeStruct(x) => spec_ser(*x),
        TypedV::Sequence(ts) => ValueV::List(spec_ser_elems(ts)),
        TypedV::Tuple(ts) => ValueV::Tuple(spec_ser_elems(ts)),
        TypedV::Mapping(ps) => ValueV::Dict(spec_ser_entries(ps, Seq::empty())),
        TypedV::Struct(fs) => ValueV::Dict(spec_ser_fields(fs, Seq::empty())),
        TypedV::UnitVariant(n) => ValueV::Str(n),
        TypedV::NewtypeVariant(n, x) => ValueV::Dict(seq![(ValueV::Str(n), spec_ser(*x))]),
        TypedV::TupleVariant(n, ts) => ValueV::Dict(
            seq![(ValueV::Str(n), ValueV::Tuple(spec_ser_elems(ts)))],
        ),
        TypedV::StructVariant(n, fs) => ValueV::Dict(
            seq![(ValueV::Str(n), ValueV::Dict(spec_ser_fields(fs, Seq::empty())))],
        ),
    }
}

/// Element-by-element serialization of a sequence of typed values.
pub open spec fn spec_ser_elems(ts: Seq<TypedV>) -> Seq<ValueV>
    decreases ts,
{
    if ts.len() == 0 {
        Seq::empty()
    } else {
        seq![spec_ser(ts[0])] + spec_ser_elems(ts.drop_first())
    }
}

/// Entry-by-entry serialization of a mapping's pairs into a key-ordered
/// mapping, starting from `acc`; a repeated key keeps its place and takes
/// the later value.
pub open spec fn spec_ser_entries(
    ps: Seq<(TypedV, TypedV)>,
    acc: Seq<(ValueV, ValueV)>,
) -> Seq<(ValueV, ValueV)>
    decreases ps,
{
    if ps.len() == 0 {
        acc
    } else {
        spec_ser_entries(ps.drop_first(), dict_set(acc, spec_ser(ps[0].0), spec_ser(ps[0].1)))
    }
}

/// Field-by-field serialization of named fields into a key-ordered mapping,
/// starting from `acc`.
pub open spec fn spec_ser_fields(
    fs: Seq<(Seq<char>, TypedV)>,
    acc: Seq<(ValueV, ValueV)>,
) -> Seq<(ValueV, ValueV)>
    decreases fs,
{
    if fs.len() == 0 {
        acc
    } else {
        spec_ser_fields(fs.drop_first(), dict_set(acc, ValueV::Str(fs[0].0), spec_ser(fs[0].1)))
    }
}

/// `spec_ser_elems` is the pointwise serialization of its argument.
pub broadcast proof fn lemma_spec_ser_elems(ts: Seq<TypedV>)
    ensures
        (#[trigger] spec_ser_elems(ts)).len() == ts.len(),
        forall|i: int| 0 <= i < ts.len() ==> #[trigger] spec_ser_elems(ts)[i] == spec_ser(ts[i]),
    decreases ts,
{
    if ts.len() > 0 {
        lemma_spec_ser_elems(ts.drop_first());
        assert(spec_ser_elems(ts) == seq![spec_ser(ts[0])] + spec_ser_elems(ts.drop_first()));
        assert forall|i: int| 0 <= i < ts.len() implies #[trigger] spec_ser_elems(ts)[i]
            == spec_ser(ts[i]) by {
            if i == 0 {
                assert(spec_ser_elems(ts)[0] == spec_ser(ts[0]));
            } else {
                assert(spec_ser_elems(ts)[i] == spec_ser_elems(ts.drop_first())[i - 1]);
                assert(ts.drop_first()[i - 1] == ts[i]);
            }
        }
    }
}

/// Converts typed values to dynamic values, one entry point per typed kind.
pub struct Serializer;

/// Builds an ordered dynamic list, one appended element at a time.
pub struct PyListSerializer {
    list: Vec<Value>,
}

/// Builds a dynamic tuple, one appended element at a time.
pub struct PyTupleSerializer {
    stack: Vec<Value>,
}

/// Builds the payload tuple of a tuple variant, then wraps it into a
/// single-entry mapping keyed by the variant name.
pub struct PyTupleVariantSerializer {
    variant: Value,
    stack: Vec<Value>,
}

/// Builds a key-ordered mapping, by alternating key/value calls or by whole
/// named fields.
pub struct PyDictSerializer {
    dict: Vec<(Value, Value)>,
    key: Option<Value>,
}

/// Builds the payload mapping of a struct variant, then wraps it into a
/// single-entry mapping keyed by the variant name.
pub struct PyDictVariantSerializer {
    variant: Value,
    dict: Vec<(Value, Value)>,
}

impl View for PyListSerializer {
    type V = Seq<ValueV>;

    closed spec fn view(&self) -> Seq<ValueV> {
        view_values(self.list@)
    }
}

impl View for PyTupleSerializer {
    type V = Seq<ValueV>;

    closed spec fn view(&self) -> Seq<ValueV> {
        view_values(self.stack@)
    }
}

impl View for PyTupleVariantSerializer {
    type V = (ValueV, Seq<ValueV>);

    closed spec fn view(&self) -> (ValueV, Seq<ValueV>) {
        (self.variant@, view_values(self.stack@))
    }
}

impl View for PyDictSerializer {
    type V = (Seq<(ValueV, ValueV)>, Option<ValueV>);

    closed spec fn view(&self) -> (Seq<(ValueV, ValueV)>, Option<ValueV>) {
        (
            view_entries(self.dict@),
            match self.key {
                Option::None => Option::None,
                Option::Some(k) => Option::Some(k@),
            },
        )
    }
}

impl View for PyDictVariantSerializer {
    type V = (ValueV, Seq<(ValueV, ValueV)>);

    closed spec fn view(&self) -> (ValueV, Seq<(ValueV, ValueV)>) {
        (self.variant@, view_entries(self.dict@))
    }
}

/// Relies on char::to_string of std: the returned string contains exactly
/// the one given character.
#[verifier::external_body]
fn char_to_string(c: char) -> (r: String)
    ensures
        r@ == seq![c],
{
    c.to_string()
}

impl Serializer {
    pub fn serialize_bool(&self, v: bool) -> (r: Result<Value, Error>)
        ensures
            r matches Ok(o) && o@ == ValueV::Bool(v),
    {
        Ok(Value::Bool(v))
    }

    pub fn serialize_i8(&self, v: i8) -> (r: Result<Value, Error>)
        ensures
            r matches Ok(o) && o@ == ValueV::Int(v as int),
    {
        self.serialize_i64(v as i64)
    }

    pub fn serialize_i16(&self, v: i16) -> (r: Result<Value, Error>)
        ensures
            r matches Ok(o) && o@ == ValueV::Int(v as int),
    {
        self.serialize_i64(v as i64)
    }

    pub fn serialize_i32(&self, v: i32) -> (r: Result<Value, Error>)
        ensures
            r matches Ok(o) && o@ == ValueV::Int(v as int),
    {
        self.serialize_i64(v as i64)
    }

    pub fn serialize_i64(&self, v: i64) -> (r: Result<Value, Error>)
        ensures
            r matches Ok(o) && o@ == ValueV::Int(v as int),
    {
        Ok(Value::Int(v as i128))
    }

    pub fn serialize_u8(&self, v: u8) -> (r: Result<Value, Error>)
        ensures
            r matches Ok(o) && o@ == ValueV::Int(v as int),
    {
        self.serialize_u64(v as u64)
    }

    pub fn serialize_u16(&self, v: u16) -> (r: Result<Value, Error>)
        ensures
            r matches Ok(o) && o@ == ValueV::Int(v as int),
    {
        self.serialize_u64(v as u64)
    }

    pub fn serialize_u32(&self, v: u32) -> (r: Result<Value, Error>)
        ensures
            r matches Ok(o) && o@ == ValueV::Int(v as int),
    {
        self.serialize_u64(v as u64)
    }

    pub fn serialize_u64(&self, v: u64) -> (r: Result<Value, Error>)
        ensures
            r matches Ok(o) && o@ == ValueV::Int(v as int),
    {
        Ok(Value::Int(v as i128))
    }

    pub fn serialize_char(&self, v: char) -> (r: Result<Value, Error>)
        ensures
            r matches Ok(o) && o@ == ValueV::Str(seq![v]),
    {
        Ok(Value::Str(char_to_string(v)))
    }

    pub fn serialize_str(&self, v: &str) -> (r: Result<Value, Error>)
        ensures
            r matches Ok(o) && o@ == ValueV::Str(v@),
    {
        Ok(Value::Str(v.to_owned()))
    }

    /// Direct byte-buffer output: the raw buffer kind of the host. The
    /// framework's ordinary walk of a byte sequence goes element by element
    /// through a sequence builder instead; this entry point stands for the
    /// schemas that request a buffer explicitly.
    pub fn serialize_bytes(&self, v: &[u8]) -> (r: Result<Value, Error>)
        ensures
            r matches Ok(o) && o@ == ValueV::Bytes(v@),
    {
        Ok(Value::Bytes(vstd::slice::slice_to_vec(v)))
    }

    pub fn serialize_none(&self) -> (r: Result<Value, Error>)
        ensures
            r matches Ok(o) && o@ == ValueV::Null,
    {
        Ok(Value::Null)
    }

    /// A present option serializes to whatever its inner value serialized
    /// to, unchanged.
    pub fn serialize_some(&self, value: Value) -> (r: Result<Value, Error>)
        ensures
            r matches Ok(o) && o == value,
    {
        Ok(value)
    }

    pub fn serialize_unit(&self) -> (r: Result<Value, Error>)
        ensures
            r matches Ok(o) && o@ == ValueV::Null,
    {
        Ok(Value::Null)
    }

    pub fn serialize_unit_struct(&self, _name: &str) -> (r: Result<Value, Error>)
        ensures
            r matches Ok(o) && o@ == ValueV::Null,
    {
        self.serialize_unit()
    }

    pub fn serialize_unit_variant(&self, _name: &str, _variant_index: u32, variant: &str) -> (r:
        Result<Value, Error>)
        ensures
            r matches Ok(o) && o@ == ValueV::Str(variant@),
    {
        self.serialize_str(variant)
    }

    /// A newtype struct serializes transparently to its inner value.
    pub fn serialize_newtype_struct(&self, _name: &str, value: Value) -> (r: Result<Value, Error>)
        ensures
            r matches Ok(o) && o == value,
    {
        Ok(value)
    }

    pub fn serialize_newtype_variant(
        &self,
        _name: &str,
        _variant_index: u32,
        variant: &str,
        value: Value,
    ) -> (r: Result<Value, Error>)
        ensures
            r matches Ok(o) && o@ == ValueV::Dict(seq![(ValueV::Str(variant@), value@)]),
    {
        broadcast use crate::value::lemma_view_entries;

        let key = Value::Str(variant.to_owned());
        let mut dict: Vec<(Value, Value)> = Vec::new();
        dict.push((key, value));
        proof {
            assert(view_entries(dict@) =~= seq![(ValueV::Str(variant@), value@)]);
        }
        Ok(Value::Dict(dict))
    }

    pub fn serialize_seq(&self, _len: Option<usize>) -> (r: Result<PyListSerializer, Error>)
        ensures
            r matches Ok(b) && b@ == Seq::<ValueV>::empty(),
    {
        let b = PyListSerializer { list: Vec::new() };
        proof {
            assert(b@ =~= Seq::<ValueV>::empty());
        }
        Ok(b)
    }

    pub fn serialize_tuple(&self, _len: usize) -> (r: Result<PyTupleSerializer, Error>)
        ensures
            r matches Ok(b) && b@ == Seq::<ValueV>::empty(),
    {
        let b = PyTupleSerializer { stack: Vec::new() };
        proof {
            assert(b@ =~= Seq::<ValueV>::empty());
        }
        Ok(b)
    }

    pub fn serialize_tuple_struct(&self, _name: &str, len: usize) -> (r: Result<
        PyTupleSerializer,
        Error,
    >)
        ensures
            r matches Ok(b) && b@ == Seq::<ValueV>::empty(),
    {
        self.serialize_tuple(len)
    }

    pub fn serialize_tuple_variant(
        &self,
        _name: &str,
        _variant_index: u32,
        variant: &str,
        _len: usize,
    ) -> (r: Result<PyTupleVariantSerializer, Error>)
        ensures
            r matches Ok(b) && b@.0 == ValueV::Str(variant@) && b@.1 == Seq::<ValueV>::empty(),
    {
        let b = PyTupleVariantSerializer {
            variant: Value::Str(variant.to_owned()),
            stack: Vec::new(),
        };
        proof {
            assert(b@.1 =~= Seq::<ValueV>::empty());
        }
        Ok(b)
    }

    pub fn serialize_map(&self, _len: Option<usize>) -> (r: Result<PyDictSerializer, Error>)
        ensures
            r matches Ok(b) && b@.0 == Seq::<(ValueV, ValueV)>::empty() && b@.1 is None,
    {
        let b = PyDictSerializer { dict: Vec::new(), key: Option::None };
        proof {
            assert(b@.0 =~= Seq::<(ValueV, ValueV)>::empty());
        }
        Ok(b)
    }

    pub fn serialize_struct(&self, _name: &str, len: usize) -> (r: Result<PyDictSerializer, Error>)
        ensures
            r matches Ok(b) && b@.0 == Seq::<(ValueV, ValueV)>::empty() && b@.1 is None,
    {
        self.serialize_map(Some(len))
    }

    pub fn serialize_struct_variant(
        &self,
        _name: &str,
        _variant_index: u32,
        variant: &str,
        _len: usize,
    ) -> (r: Result<PyDictVariantSerializer, Error>)
        ensures
            r matches Ok(b) && b@.0 == ValueV::Str(variant@) && b@.1 == Seq::<
                (ValueV, ValueV),
            >::empty(),
    {
        let b = PyDictVariantSerializer {
            variant: Value::Str(variant.to_owned()),
            dict: Vec::new(),
        };
        proof {
            assert(b@.1 =~= Seq::<(ValueV, ValueV)>::empty());
        }
        Ok(b)
    }
}

impl PyListSerializer {
    /// Appends one already-converted element; order is preserved exactly.
    pub fn serialize_element(&mut self, value: Value) -> (r: Result<(), Error>)
        ensures
            r is Ok,
            final(self)@ == old(self)@.push(value@),
    {
        broadcast use crate::value::lemma_view_values;

        self.list.push(value);
        proof {
            assert(view_values(self.list@) =~= view_values(old(self).list@).push(value@));
        }
        Ok(())
    }

    /// Finalizes into an ordered dynamic list.
    pub fn end(self) -> (r: Result<Value, Error>)
        ensures
            r matches Ok(v) && v@ == ValueV::List(self@),
    {
        Ok(Value::List(self.list))
    }
}

impl PyTupleSerializer {
    /// Appends one already-converted element; order is preserved exactly.
    pub fn serialize_element(&mut self, value: Value) -> (r: Result<(), Error>)
        ensures
            r is Ok,
            final(self)@ == old(self)@.push(value@),
    {
        broadcast use crate::value::lemma_view_values;

        self.stack.push(value);
        proof {
            assert(view_values(self.stack@) =~= view_values(old(self).stack@).push(value@));
        }
        Ok(())
    }

    /// Appends one tuple-struct field, exactly as an element.
    pub fn serialize_field(&mut self, value: Value) -> (r: Result<(), Error>)
        ensures
            r is Ok,
            final(self)@ == old(self)@.push(value@),
    {
        self.serialize_element(value)
    }

    /// Finalizes into a dynamic tuple.
    pub fn end(self) -> (r: Result<Value, Error>)
        ensures
            r matches Ok(v) && v@ == ValueV::Tuple(self@),
    {
        Ok(Value::Tuple(self.stack))
    }
}

impl PyTupleVariantSerializer {
    /// Appends one payload field of the tuple variant.
    pub fn serialize_field(&mut self, value: Value) -> (r: Result<(), Error>)
        ensures
            r is Ok,
            final(self)@.0 == old(self)@.0,
            final(self)@.1 == old(self)@.1.push(value@),
    {
        broadcast use crate::value::lemma_view_values;

        self.stack.push(value);
        proof {
            assert(view_values(self.stack@) =~= view_values(old(self).stack@).push(value@));
        }
        Ok(())
    }

    /// Finalizes the payload tuple and wraps it: one mapping entry from the
    /// variant name to the tuple of fields.
    pub fn end(self) -> (r: Result<Value, Error>)
        ensures
            r matches Ok(v) && v@ == ValueV::Dict(seq![(self@.0, ValueV::Tuple(self@.1))]),
    {
        broadcast use crate::value::lemma_view_entries;

        let tuple = Value::Tuple(self.stack);
        let mut dict: Vec<(Value, Value)> = Vec::new();
        dict.push((self.variant, tuple));
        proof {
            assert(view_entries(dict@) =~= seq![(self@.0, ValueV::Tuple(self@.1))]);
        }
        Ok(Value::Dict(dict))
    }
}

impl PyDictSerializer {
    /// Whether a key has been recorded and awaits its value.
    pub fn has_key(&self) -> (r: bool)
        ensures
            r == (self@.1 is Some),
    {
        match &self.key {
            Option::Some(_) => true,
            Option::None => false,
        }
    }

    /// Records the key the next value call will bind.
    pub fn serialize_key(&mut self, key: Value) -> (r: Result<(), Error>)
        ensures
            r is Ok,
            final(self)@.0 == old(self)@.0,
            final(self)@.1 == Option::Some(key@),
    {
        self.key = Option::Some(key);
        Ok(())
    }

    /// Binds the value to the key recorded just before; on a repeated key
    /// the last value set wins, with the entry keeping its place.
    pub fn serialize_value(&mut self, value: Value) -> (r: Result<(), Error>)
        requires
            old(self)@.1 is Some,
        ensures
            r is Ok,
            final(self)@.0 == dict_set(old(self)@.0, old(self)@.1->0, value@),
            final(self)@.1 is None,
    {
        let mut k: Option<Value> = Option::None;
        core::mem::swap(&mut k, &mut self.key);
        match k {
            Option::Some(kv) => {
                crate::value::dict_set_item(&mut self.dict, kv, value);
                Ok(())
            },
            Option::None => {
                proof {
                    assert(false);
                }
                Err(Error::ExpectedDictValue)
            },
        }
    }

    /// Writes one named struct field, key then value, in declaration order.
    pub fn serialize_field(&mut self, key: &str, value: Value) -> (r: Result<(), Error>)
        ensures
            r is Ok,
            final(self)@.0 == dict_set(old(self)@.0, ValueV::Str(key@), value@),
            final(self)@.1 == old(self)@.1,
    {
        crate::value::dict_set_item(&mut self.dict, Value::Str(key.to_owned()), value);
        Ok(())
    }

    /// Finalizes into a key-ordered dynamic mapping.
    pub fn end(self) -> (r: Result<Value, Error>)
        ensures
            r matches Ok(v) && v@ == ValueV::Dict(self@.0),
    {
        Ok(Value::Dict(self.dict))
    }
}

impl PyDictVariantSerializer {
    /// Writes one named payload field of the struct variant.
    pub fn serialize_field(&mut self, key: &str, value: Value) -> (r: Result<(), Error>)
        ensures
            r is Ok,
            final(self)@.0 == old(self)@.0,
            final(self)@.1 == dict_set(old(self)@.1, ValueV::Str(key@), value@),
    {
        crate::value::dict_set_item(&mut self.dict, Value::Str(key.to_owned()), value);
        Ok(())
    }

    /// Finalizes the payload mapping and wraps it: one mapping entry from
    /// the variant name to the mapping of payload fields.
    pub fn end(self) -> (r: Result<Value, Error>)
        ensures
            r matches Ok(v) && v@ == ValueV::Dict(seq![(self@.0, ValueV::Dict(self@.1))]),
    {
        broadcast use crate::value::lemma_view_entries;

        let inner = Value::Dict(self.dict);
        let mut dict: Vec<(Value, Value)> = Vec::new();
        dict.push((self.variant, inner));
        proof {
            assert(view_entries(dict@) =~= seq![(self@.0, ValueV::Dict(self@.1))]);
        }
        Ok(Value::Dict(dict))
    }
}


/// Converts a typed value into a dynamic value, walking it in the schema's
/// recursive-descent order. No typed value is structurally unrepresentable,
/// so the conversion always succeeds.
#[verifier::loop_isolation(false)]
pub fn to_py(value: &Typed) -> (r: Result<Value, Error>)
    ensures
        r matches Ok(v) && v@ == spec_ser(value@),
    decreases *value,
{
    broadcast use lemma_view_typeds, lemma_view_pairs, lemma_view_fields, lemma_spec_ser_elems;

    let serializer = Serializer;
    match value {
        Typed::Bool(b) => serializer.serialize_bool(*b),
        Typed::I8(v) => serializer.serialize_i8(*v),
        Typed::I16(v) => serializer.serialize_i16(*v),
        Typed::I32(v) => serializer.serialize_i32(*v),
        Typed::I64(v) => serializer.serialize_i64(*v),
        Typed::U8(v) => serializer.serialize_u8(*v),
        Typed::U16(v) => serializer.serialize_u16(*v),
        Typed::U32(v) => serializer.serialize_u32(*v),
        Typed::U64(v) => serializer.serialize_u64(*v),
        Typed::Char(c) => serializer.serialize_char(*c),
        Typed::Str(s) => serializer.serialize_str(s.as_str()),
        Typed::Bytes(bs) => {
            let mut b = serializer.serialize_seq(Some(bs.len()))?;
            let n = bs.len();
            let mut i: usize = 0;
            while i < n
                invariant
                    n == bs@.len(),
                    i <= n,
                    b@.len() == i,
                    forall|j: int| 0 <= j < i ==> b@[j] == ValueV::Int(bs@[j] as int),
                decreases n - i,
            {
                let e = serializer.serialize_u8(bs[i])?;
                b.serialize_element(e)?;
                i += 1;
            }
            proof {
                assert(b@ =~= Seq::new(bs@.len(), |j: int| ValueV::Int(bs@[j] as int)));
            }
            b.end()
        },
        Typed::Opt(o) => match o {
            Option::None => serializer.serialize_none(),
            Option::Some(x) => {
                proof {
                    assert(decreases_to!(*value => *o));
                }
                let inner = to_py(&**x)?;
                serializer.serialize_some(inner)
            },
        },
        Typed::Unit => serializer.serialize_unit(),
        Typed::UnitStruct => serializer.serialize_unit_struct(""),
        Typed::NewtypeStruct(x) => {
            let inner = to_py(&**x)?;
            serializer.serialize_newtype_struct("", inner)
        },
        Typed::Sequence(ts) => {
            let mut b = serializer.serialize_seq(Some(ts.len()))?;
            let n = ts.len();
            let mut i: usize = 0;
            while i < n
                invariant
                    n == ts@.len(),
                    i <= n,
                    b@.len() == i,
                    forall|j: int| 0 <= j < i ==> b@[j] == spec_ser(ts@[j]@),
                decreases n - i,
            {
                proof {
                    assert(decreases_to!(*value => ts@[i as int]));
                }
                let e = to_py(&ts[i])?;
                b.serialize_element(e)?;
                i += 1;
            }
            proof {
                assert(b@ =~= spec_ser_elems(view_typeds(ts@)));
            }
            b.end()
        },
        Typed::Tuple(ts) => {
            let mut b = serializer.serialize_tuple(ts.len())?;
            let n = ts.len();
            let mut i: usize = 0;
            while i < n
                invariant
                    n == ts@.len(),
                    i <= n,
                    b@.len() == i,
                    forall|j: int| 0 <= j < i ==> b@[j] == spec_ser(ts@[j]@),
                decreases n - i,
            {
                proof {
                    assert(decreases_to!(*value => ts@[i as int]));
                }
                let e = to_py(&ts[i])?;
                b.serialize_element(e)?;
                i += 1;
            }
            proof {
                assert(b@ =~= spec_ser_elems(view_typeds(ts@)));
            }
            b.end()
        },
        Typed::Mapping(ps) => {
            let mut b = serializer.serialize_map(Some(ps.len()))?;
            let n = ps.len();
            let mut i: usize = 0;
            proof {
                assert(view_pairs(ps@).skip(0) =~= view_pairs(ps@));
            }
            while i < n
                invariant
                    n == ps@.len(),
                    i <= n,
                    b@.1 is None,
                    spec_ser_entries(view_pairs(ps@), Seq::empty()) == spec_ser_entries(
                        view_pairs(ps@).skip(i as int),
                        b@.0,
                    ),
                decreases n - i,
            {
                proof {
                    assert(decreases_to!(*value => ps@[i as int].0));
                    assert(decreases_to!(*value => ps@[i as int].1));
                }
                let ghost acc0 = b@.0;
                let k = to_py(&ps[i].0)?;
                let v = to_py(&ps[i].1)?;
                b.serialize_key(k)?;
                b.serialize_value(v)?;
                proof {
                    let rest = view_pairs(ps@).skip(i as int);
                    assert(rest[0] == view_pairs(ps@)[i as int]);
                    assert(rest.drop_first() =~= view_pairs(ps@).skip(i + 1));
                    assert(spec_ser_entries(rest, acc0) == spec_ser_entries(
                        rest.drop_first(),
                        dict_set(acc0, spec_ser(rest[0].0), spec_ser(rest[0].1)),
                    ));
                }
                i += 1;
            }
            proof {
                assert(view_pairs(ps@).skip(n as int) =~= Seq::<(TypedV, TypedV)>::empty());
            }
            b.end()
        },
        Typed::Struct(fs) => {
            let mut b = serializer.serialize_struct("", fs.len())?;
            let n = fs.len();
            let mut i: usize = 0;
            proof {
                assert(view_fields(fs@).skip(0) =~= view_fields(fs@));
            }
            while i < n
                invariant
                    n == fs@.len(),
                    i <= n,
                    b@.1 is None,
                    spec_ser_fields(view_fields(fs@), Seq::empty()) == spec_ser_fields(
                        view_fields(fs@).skip(i as int),
                        b@.0,
                    ),
                decreases n - i,
            {
                proof {
                    assert(decreases_to!(*value => fs@[i as int].1));
                }
                let ghost acc0 = b@.0;
                let v = to_py(&fs[i].1)?;
                b.serialize_field(fs[i].0.as_str(), v)?;
                proof {
                    let rest = view_fields(fs@).skip(i as int);
                    assert(rest[0] == view_fields(fs@)[i as int]);
                    assert(rest.drop_first() =~= view_fields(fs@).skip(i + 1));
                    assert(spec_ser_fields(rest, acc0) == spec_ser_fields(
                        rest.drop_first(),
                        dict_set(acc0, ValueV::Str(rest[0].0), spec_ser(rest[0].1)),
                    ));
                }
                i += 1;
            }
            proof {
                assert(view_fields(fs@).skip(n as int) =~= Seq::<(Seq<char>, TypedV)>::empty());
            }
            b.end()
        },
        Typed::UnitVariant(n) => serializer.serialize_unit_variant("", 0, n.as_str()),
        Typed::NewtypeVariant(n, x) => {
            let inner = to_py(&**x)?;
            serializer.serialize_newtype_variant("", 0, n.as_str(), inner)
        },
        Typed::TupleVariant(name, ts) => {
            let mut b = serializer.serialize_tuple_variant("", 0, name.as_str(), ts.len())?;
            let n = ts.len();
            let mut i: usize = 0;
            while i < n
                invariant
                    n == ts@.len(),
                    i <= n,
                    b@.0 == ValueV::Str(name@),
                    b@.1.len() == i,
                    forall|j: int| 0 <= j < i ==> b@.1[j] == spec_ser(ts@[j]@),
                decreases n - i,
            {
                proof {
                    assert(decreases_to!(*value => ts@[i as int]));
                }
                let e = to_py(&ts[i])?;
                b.serialize_field(e)?;
                i += 1;
            }
            proof {
                assert(b@.1 =~= spec_ser_elems(view_typeds(ts@)));
            }
            b.end()
        },
        Typed::StructVariant(name, fs) => {
            let mut b = serializer.serialize_struct_variant("", 0, name.as_str(), fs.len())?;
            let n = fs.len();
            let mut i: usize = 0;
            proof {
                assert(view_fields(fs@).skip(0) =~= view_fields(fs@));
            }
            while i < n
                invariant
                    n == fs@.len(),
                    i <= n,
                    b@.0 == ValueV::Str(name@),
                    spec_ser_fields(view_fields(fs@), Seq::empty()) == spec_ser_fields(
                        view_fields(fs@).skip(i as int),
                        b@.1,
                    ),
                decreases n - i,
            {
                proof {
                    assert(decreases_to!(*value => fs@[i as int].1));
                }
                let ghost acc0 = b@.1;
                let v = to_py(&fs[i].1)?;
                b.serialize_field(fs[i].0.as_str(), v)?;
                proof {
                    let rest = view_fields(fs@).skip(i as int);
                    assert(rest[0] == view_fields(fs@)[i as int]);
                    assert(rest.drop_first() =~= view_fields(fs@).skip(i + 1));
                    assert(spec_ser_fields(rest, acc0) == spec_ser_fields(
                        rest.drop_first(),
                        dict_set(acc0, ValueV::Str(rest[0].0), spec_ser(rest[0].1)),
                    ));
                }
                i += 1;
            }
            proof {
                assert(view_fields(fs@).skip(n as int) =~= Seq::<(Seq<char>, TypedV)>::empty());
            }
            b.end()
        },
    }
}

} // verus!
