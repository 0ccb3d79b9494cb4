//! Deserialization: from a dynamic value to a typed value, driven by the
//! shape the framework requests, with a fixed probe order when it asks the
//! deserializer to infer the shape.
use vstd::prelude::*;

use crate::error::{Error, ErrorV};
use crate::typed::{
    lemma_view_fields, lemma_view_pairs, lemma_view_typeds, view_fields, view_pairs, view_typeds,
    Shape, Typed, TypedV, VariantShape,
};
use crate::value::{
    dict_get, lemma_view_entries, lemma_view_values, view_entries, view_values, Value, ValueV,
};

verus! {

/// Boolean extraction: only a dynamic boolean coerces.
pub open spec fn spec_de_bool(v: ValueV) -> Result<bool, ErrorV> {
    match v {
        ValueV::Bool(b) => Ok(b),
        _ => Err(ErrorV::ExpectedBoolean),
    }
}

/// Integer extraction into the width whose range is `[lo, hi]`: a dynamic
/// integer coerces exactly when it fits that range.
pub open spec fn spec_de_int(v: ValueV, lo: int, hi: int) -> Result<int, ErrorV> {
    match v {
        ValueV::Int(i) => if lo <= i <= hi {
            Ok(i)
        } else {
            Err(ErrorV::ExpectedInteger)
        },
        _ => Err(ErrorV::ExpectedInteger),
    }
}

/// Character extraction: a one-character dynamic string yields its
/// character; a longer or shorter string is a string mismatch; anything
/// else is a character mismatch.
pub open spec fn spec_de_char(v: ValueV) -> Result<char, ErrorV> {
    match v {
        ValueV::Str(s) => if s.len() == 1 {
            Ok(s[0])
        } else {
            Err(ErrorV::ExpectedString)
        },
        _ => Err(ErrorV::ExpectedChar),
    }
}

/// String extraction: only a dynamic string coerces.
pub open spec fn spec_de_str(v: ValueV) -> Result<Seq<char>, ErrorV> {
    match v {
        ValueV::Str(s) => Ok(s),
        _ => Err(ErrorV::ExpectedString),
    }
}

/// The octets of a dynamic sequence whose elements are all integers in
/// `0 ..= 255`; any other element makes the whole sequence fail as bytes.
pub open spec fn spec_bytes_elems(vs: Seq<ValueV>) -> Result<Seq<u8>, ErrorV>
    decreases vs,
{
    if vs.len() == 0 {
        Ok(Seq::empty())
    } else {
        match vs[0] {
            ValueV::Int(i) => if 0 <= i <= 255 {
                match spec_bytes_elems(vs.drop_first()) {
                    Ok(rest) => Ok(seq![i as u8] + rest),
                    Err(e) => Err(e),
                }
            } else {
                Err(ErrorV::ExpectedBytes)
            },
            _ => Err(ErrorV::ExpectedBytes),
        }
    }
}

/// Byte extraction: a buffer-capable value yields its bytes directly (the
/// zero-copy path); failing that, a sequence of small integers is
/// materialized octet by octet; anything else is a bytes mismatch.
pub open spec fn spec_de_bytes(v: ValueV) -> Result<Seq<u8>, ErrorV> {
    match v {
        ValueV::Bytes(b) => Ok(b),
        ValueV::List(vs) => spec_bytes_elems(vs),
        ValueV::Tuple(vs) => spec_bytes_elems(vs),
        _ => Err(ErrorV::ExpectedBytes),
    }
}

/// The elements of a sequence-like dynamic value: lists and tuples are
/// accepted as equivalent inputs.
pub open spec fn seq_items(v: ValueV) -> Option<Seq<ValueV>> {
    match v {
        ValueV::List(vs) => Option::Some(vs),
        ValueV::Tuple(vs) => Option::Some(vs),
        _ => Option::None,
    }
}

/// The resolved head of an enum value: a bare string names a unit variant
/// with no payload; otherwise a mapping with exactly one entry is required,
/// whose sole key (a string) gives the variant name and whose sole value is
/// the payload. An empty mapping is an enum-key mismatch; a mapping with
/// more than one entry is an enum-value mismatch.
pub open spec fn spec_enum_head(v: ValueV) -> Result<(Seq<char>, Option<ValueV>), ErrorV> {
    match v {
        ValueV::Str(s) => Ok((s, Option::None)),
        ValueV::Dict(es) => if es.len() == 0 {
            Err(ErrorV::ExpectedEnumKey)
        } else if es.len() != 1 {
            Err(ErrorV::ExpectedEnumValue)
        } else {
            match es[0].0 {
                ValueV::Str(name) => Ok((name, Option::Some(es[0].1))),
                _ => Err(ErrorV::ExpectedString),
            }
        },
        _ => Err(ErrorV::ExpectedDict),
    }
}

/// Index of the first declared variant with the given name, if any.
pub open spec fn spec_find_variant(vars: Seq<(String, VariantShape)>, name: Seq<char>) -> Option<
    int,
>
    decreases vars,
{
    if vars.len() == 0 {
        Option::None
    } else if vars[0].0@ == name {
        Option::Some(0)
    } else {
        match spec_find_variant(vars.drop_first(), name) {
            Option::Some(i) => Option::Some(i + 1),
            Option::None => Option::None,
        }
    }
}

/// What `spec_find_variant` finds: the first index whose name matches.
pub proof fn lemma_find_variant(vars: Seq<(String, VariantShape)>, name: Seq<char>)
    ensures
        match spec_find_variant(vars, name) {
            Option::Some(i) => 0 <= i < vars.len() && vars[i].0@ == name && forall|j: int|
                0 <= j < i ==> vars[j].0@ != name,
            Option::None => forall|j: int| 0 <= j < vars.len() ==> vars[j].0@ != name,
        },
    decreases vars,
{
    if vars.len() > 0 && vars[0].0@ != name {
        lemma_find_variant(vars.drop_first(), name);
        match spec_find_variant(vars.drop_first(), name) {
            Option::Some(i) => {
                assert(vars[i + 1] == vars.drop_first()[i]);
                assert forall|j: int| 0 <= j < i + 1 implies vars[j].0@ != name by {
                    if j > 0 {
                        assert(vars[j] == vars.drop_first()[j - 1]);
                    }
                }
            },
            Option::None => {
                assert forall|j: int| 0 <= j < vars.len() implies vars[j].0@ != name by {
                    if j > 0 {
                        assert(vars[j] == vars.drop_first()[j - 1]);
                    }
                }
            },
        }
    }
}

/// Shape-inferred deserialization: probes the dynamic value in the fixed
/// priority order null, string, boolean, unsigned integer, then
/// sequence-like, then mapping-like, accepting the first probe that
/// matches; a value no probe matches is a syntax error. (A value only the
/// host's floating-point probe could accept lies outside this model and
/// reports the same syntax error.)
pub open spec fn spec_de_any(v: ValueV) -> Result<TypedV, ErrorV>
    decreases v,
{
    match v {
        ValueV::Null => Ok(TypedV::Unit),
        ValueV::Str(s) => Ok(TypedV::Str(s)),
        ValueV::Bool(b) => Ok(TypedV::Bool(b)),
        ValueV::Int(i) => if 0 <= i <= u64::MAX {
            Ok(TypedV::U64(i))
        } else {
            Err(ErrorV::Syntax)
        },
        ValueV::List(vs) => match spec_de_any_elems(vs) {
            Ok(ts) => Ok(TypedV::Sequence(ts)),
            Err(e) => Err(e),
        },
        ValueV::Tuple(vs) => match spec_de_any_elems(vs) {
            Ok(ts) => Ok(TypedV::Sequence(ts)),
            Err(e) => Err(e),
        },
        ValueV::Dict(es) => match spec_de_any_pairs(es) {
            Ok(ps) => Ok(TypedV::Mapping(ps)),
            Err(e) => Err(e),
        },
        _ => Err(ErrorV::Syntax),
    }
}

/// Shape-inferred deserialization of each element of a sequence.
pub open spec fn spec_de_any_elems(vs: Seq<ValueV>) -> Result<Seq<TypedV>, ErrorV>
    decreases vs,
{
    if vs.len() == 0 {
        Ok(Seq::empty())
    } else {
        match spec_de_any(vs[0]) {
            Ok(t) => match spec_de_any_elems(vs.drop_first()) {
                Ok(rest) => Ok(seq![t] + rest),
                Err(e) => Err(e),
            },
            Err(e) => Err(e),
        }
    }
}

/// Shape-inferred deserialization of each key and value of a mapping, in
/// entry order.
pub open spec fn spec_de_any_pairs(es: Seq<(ValueV, ValueV)>) -> Result<
    Seq<(TypedV, TypedV)>,
    ErrorV,
>
    decreases es,
{
    if es.len() == 0 {
        Ok(Seq::empty())
    } else {
        match spec_de_any(es[0].0) {
            Ok(k) => match spec_de_any(es[0].1) {
                Ok(v) => match spec_de_any_pairs(es.drop_first()) {
                    Ok(rest) => Ok(seq![(k, v)] + rest),
                    Err(e) => Err(e),
                },
                Err(e) => Err(e),
            },
            Err(e) => Err(e),
        }
    }
}

/// Shape-directed deserialization: the typed value the dynamic value `v`
/// yields when the framework requests `shape`, or the error that aborts the
/// whole call. The first coercion failure is terminal: there is no partial
/// result and no default substitution.
pub open spec fn spec_de(shape: Shape, v: ValueV) -> Result<TypedV, ErrorV>
    decreases shape, v,
    via check_spec_de
{
    match shape {
        Shape::Bool => match spec_de_bool(v) {
            Ok(b) => Ok(TypedV::Bool(b)),
            Err(e) => Err(e),
        },
        Shape::I8 => match spec_de_int(v, i8::MIN as int, i8::MAX as int) {
            Ok(i) => Ok(TypedV::I8(i)),
            Err(e) => Err(e),
        },
        Shape::I16 => match spec_de_int(v, i16::MIN as int, i16::MAX as int) {
            Ok(i) => Ok(TypedV::I16(i)),
            Err(e) => Err(e),
        },
        Shape::I32 => match spec_de_int(v, i32::MIN as int, i32::MAX as int) {
            Ok(i) => Ok(TypedV::I32(i)),
            Err(e) => Err(e),
        },
        Shape::I64 => match spec_de_int(v, i64::MIN as int, i64::MAX as int) {
            Ok(i) => Ok(TypedV::I64(i)),
            Err(e) => Err(e),
        },
        Shape::U8 => match spec_de_int(v, 0, u8::MAX as int) {
            Ok(i) => Ok(TypedV::U8(i)),
            Err(e) => Err(e),
        },
        Shape::U16 => match spec_de_int(v, 0, u16::MAX as int) {
            Ok(i) => Ok(TypedV::U16(i)),
            Err(e) => Err(e),
        },
        Shape::U32 => match spec_de_int(v, 0, u32::MAX as int) {
            Ok(i) => Ok(TypedV::U32(i)),
            Err(e) => Err(e),
        },
        Shape::U64 => match spec_de_int(v, 0, u64::MAX as int) {
            Ok(i) => Ok(TypedV::U64(i)),
            Err(e) => Err(e),
        },
        Shape::Char => match spec_de_char(v) {
            Ok(c) => Ok(TypedV::Char(c)),
            Err(e) => Err(e),
        },
        Shape::Str => match spec_de_str(v) {
            Ok(s) => Ok(TypedV::Str(s)),
            Err(e) => Err(e),
        },
        Shape::Bytes => match spec_de_bytes(v) {
            Ok(b) => Ok(TypedV::Bytes(b)),
            Err(e) => Err(e),
        },
        Shape::Opt(inner) => if v is Null {
            Ok(TypedV::Opt(Option::None))
        } else {
            match spec_de(*inner, v) {
                Ok(t) => Ok(TypedV::Opt(Option::Some(Box::new(t)))),
                Err(e) => Err(e),
            }
        },
        Shape::Unit => if v is Null {
            Ok(TypedV::Unit)
        } else {
            Err(ErrorV::ExpectedNone)
        },
        Shape::UnitStruct => if v is Null {
            Ok(TypedV::UnitStruct)
        } else {
            Err(ErrorV::ExpectedNone)
        },
        Shape::NewtypeStruct(inner) => match spec_de(*inner, v) {
            Ok(t) => Ok(TypedV::NewtypeStruct(Box::new(t))),
            Err(e) => Err(e),
        },
        Shape::Sequence(elem) => match seq_items(v) {
            Option::Some(vs) => match spec_de_elems(*elem, vs) {
                Ok(ts) => Ok(TypedV::Sequence(ts)),
                Err(e) => Err(e),
            },
            Option::None => Err(ErrorV::ExpectedList),
        },
        Shape::Tuple(shapes) => match seq_items(v) {
            Option::Some(vs) => if vs.len() < shapes@.len() {
                Err(ErrorV::Message("invalid length"@))
            } else {
                match spec_de_tuple(shapes@, vs) {
                    Ok(ts) => Ok(TypedV::Tuple(ts)),
                    Err(e) => Err(e),
                }
            },
            Option::None => Err(ErrorV::ExpectedList),
        },
        Shape::Mapping(_, _) => match v {
            ValueV::Dict(es) => match spec_de_pairs(shape, es, es) {
                Ok(ps) => Ok(TypedV::Mapping(ps)),
                Err(e) => Err(e),
            },
            _ => Err(ErrorV::ExpectedDict),
        },
        Shape::Struct(fields) => match v {
            ValueV::Dict(es) => match spec_de_fields(fields@, es) {
                Ok(fs) => Ok(TypedV::Struct(fs)),
                Err(e) => Err(e),
            },
            _ => Err(ErrorV::ExpectedDict),
        },
        Shape::Enum(vars) => match spec_enum_head(v) {
            Ok((name, payload)) => match payload {
                Option::None => match spec_find_variant(vars@, name) {
                    Option::Some(i) => if vars@[i].1 is Unit {
                        Ok(TypedV::UnitVariant(name))
                    } else {
                        Err(ErrorV::Message("invalid type"@))
                    },
                    Option::None => Err(ErrorV::Message("unknown variant"@)),
                },
                Option::Some(pv) => match spec_find_variant(vars@, name) {
                    Option::Some(i) => match vars@[i].1 {
                        VariantShape::Unit => Err(ErrorV::Message("invalid type"@)),
                        VariantShape::Newtype(inner) => match spec_de(*inner, pv) {
                            Ok(t) => Ok(TypedV::NewtypeVariant(name, Box::new(t))),
                            Err(e) => Err(e),
                        },
                        VariantShape::Tuple(shapes) => match seq_items(pv) {
                            Option::Some(vs) => if vs.len() < shapes@.len() {
                                Err(ErrorV::Message("invalid length"@))
                            } else {
                                match spec_de_tuple(shapes@, vs) {
                                    Ok(ts) => Ok(TypedV::TupleVariant(name, ts)),
                                    Err(e) => Err(e),
                                }
                            },
                            Option::None => Err(ErrorV::ExpectedList),
                        },
                        VariantShape::Struct(fields) => match pv {
                            ValueV::Dict(pes) => match spec_de_fields(fields@, pes) {
                                Ok(fs) => Ok(TypedV::StructVariant(name, fs)),
                                Err(e) => Err(e),
                            },
                            _ => Err(ErrorV::ExpectedDict),
                        },
                    },
                    Option::None => Err(ErrorV::Message("unknown variant"@)),
                },
            },
            Err(e) => Err(e),
        },
        Shape::Any => spec_de_any(v),
    }
}


/// Termination witness for [`spec_de`]: the variant a name lookup selects
/// is a component of the enum shape, so recursing into its payload shape
/// decreases the measure.
#[via_fn]
proof fn check_spec_de(shape: Shape, v: ValueV) {
    match shape {
        Shape::Enum(vars) => match spec_enum_head(v) {
            Ok((name, _payload)) => {
                lemma_find_variant(vars@, name);
                match spec_find_variant(vars@, name) {
                    Option::Some(i) => {
                        assert(0 <= i < vars@.len());
                        assert(decreases_to!(shape => vars));
                        assert(decreases_to!(vars => vars@));
                        assert(decreases_to!(vars@ => vars@[i]));
                        assert(decreases_to!(vars@[i] => vars@[i].1));
                        match vars@[i].1 {
                            VariantShape::Unit => {},
                            VariantShape::Newtype(inner) => {
                                assert(decreases_to!(vars@[i].1 => *inner));
                            },
                            VariantShape::Tuple(shapes) => {
                                assert(decreases_to!(vars@[i].1 => shapes));
                                assert(decreases_to!(shapes => shapes@));
                            },
                            VariantShape::Struct(fields) => {
                                assert(decreases_to!(vars@[i].1 => fields));
                                assert(decreases_to!(fields => fields@));
                            },
                        }
                    },
                    Option::None => {},
                }
            },
            Err(_) => {},
        },
        _ => {},
    }
}

/// Shape-directed deserialization of each element of a sequence against
/// one element shape.
pub open spec fn spec_de_elems(elem: Shape, vs: Seq<ValueV>) -> Result<Seq<TypedV>, ErrorV>
    decreases elem, vs,
{
    if vs.len() == 0 {
        Ok(Seq::empty())
    } else {
        match spec_de(elem, vs[0]) {
            Ok(t) => match spec_de_elems(elem, vs.drop_first()) {
                Ok(rest) => Ok(seq![t] + rest),
                Err(e) => Err(e),
            },
            Err(e) => Err(e),
        }
    }
}

/// Shape-directed deserialization of a tuple's elements, one declared
/// shape per element in order; elements beyond the declared arity are left
/// unread.
pub open spec fn spec_de_tuple(shapes: Seq<Shape>, vs: Seq<ValueV>) -> Result<Seq<TypedV>, ErrorV>
    recommends
        shapes.len() <= vs.len(),
    decreases shapes, vs,
{
    if shapes.len() == 0 {
        Ok(Seq::empty())
    } else {
        match spec_de(shapes[0], vs[0]) {
            Ok(t) => match spec_de_tuple(shapes.drop_first(), vs.drop_first()) {
                Ok(rest) => Ok(seq![t] + rest),
                Err(e) => Err(e),
            },
            Err(e) => Err(e),
        }
    }
}

/// Shape-directed deserialization of a mapping, one snapshot entry at a
/// time: the entry's key deserializes against the key shape, then the
/// value is looked up by that key in the full mapping (the accessor
/// protocol's "pull value for last key") and deserializes against the
/// value shape; a key whose value is no longer present is a dict-value
/// mismatch.
pub open spec fn spec_de_pairs(
    shape: Shape,
    es_full: Seq<(ValueV, ValueV)>,
    es_rest: Seq<(ValueV, ValueV)>,
) -> Result<Seq<(TypedV, TypedV)>, ErrorV>
    recommends
        shape is Mapping,
    decreases shape, es_rest,
{
    match shape {
        Shape::Mapping(kshape, vshape) => if es_rest.len() == 0 {
            Ok(Seq::empty())
        } else {
            match spec_de(*kshape, es_rest[0].0) {
                Ok(kt) => match dict_get(es_full, es_rest[0].0) {
                    Option::Some(pv) => match spec_de(*vshape, pv) {
                        Ok(vt) => match spec_de_pairs(shape, es_full, es_rest.drop_first()) {
                            Ok(rest) => Ok(seq![(kt, vt)] + rest),
                            Err(e) => Err(e),
                        },
                        Err(e) => Err(e),
                    },
                    Option::None => Err(ErrorV::ExpectedDictValue),
                },
                Err(e) => Err(e),
            }
        },
        _ => Err(ErrorV::ExpectedDict),
    }
}

/// Shape-directed deserialization of a struct's declared fields: each
/// field's value is looked up by name in the mapping, in declaration
/// order; a name not present is a missing field. Entries whose keys match
/// no declared field are left unread.
pub open spec fn spec_de_fields(
    fields: Seq<(String, Shape)>,
    es: Seq<(ValueV, ValueV)>,
) -> Result<Seq<(Seq<char>, TypedV)>, ErrorV>
    decreases fields, es,
{
    if fields.len() == 0 {
        Ok(Seq::empty())
    } else {
        match dict_get(es, ValueV::Str(fields[0].0@)) {
            Option::Some(pv) => match spec_de(fields[0].1, pv) {
                Ok(t) => match spec_de_fields(fields.drop_first(), es) {
                    Ok(rest) => Ok(seq![(fields[0].0@, t)] + rest),
                    Err(e) => Err(e),
                },
                Err(e) => Err(e),
            },
            Option::None => Err(ErrorV::Message("missing field"@)),
        }
    }
}


/// Reads one dynamic value, borrowed from the host's graph for the
/// duration of the call; one entry point per requested kind.
pub struct Deserializer<'de> {
    input: &'de Value,
}

impl<'de> View for Deserializer<'de> {
    type V = ValueV;

    closed spec fn view(&self) -> ValueV {
        self.input@
    }
}

/// Pull-based, forward-only access to a sequence-like dynamic value's
/// elements, one at a time, single pass.
pub struct SeqIter<'de> {
    items: &'de Vec<Value>,
    index: usize,
}

impl<'de> View for SeqIter<'de> {
    type V = (Seq<ValueV>, int);

    closed spec fn view(&self) -> (Seq<ValueV>, int) {
        (view_values(self.items@), self.index as int)
    }
}

impl<'de> SeqIter<'de> {
    pub fn new(items: &'de Vec<Value>) -> (it: Self)
        ensures
            it@.0 == view_values(items@),
            it@.1 == 0,
    {
        SeqIter { items, index: 0 }
    }

    /// The next element, if one remains; elements come in order and each is
    /// handed out once.
    pub fn next_element(&mut self) -> (r: Option<&'de Value>)
        ensures
            final(self)@.0 == old(self)@.0,
            old(self)@.1 < old(self)@.0.len() ==> (r matches Some(v) && v@ == old(self)@.0[old(
                self,
            )@.1] && final(self)@.1 == old(self)@.1 + 1),
            old(self)@.1 >= old(self)@.0.len() ==> r is None && final(self)@.1 == old(self)@.1,
    {
        broadcast use lemma_view_values;

        if self.index < self.items.len() {
            let v = &self.items[self.index];
            self.index = self.index + 1;
            Some(v)
        } else {
            None
        }
    }

    /// The sequence's length: here always cheaply knowable.
    pub fn size_hint(&self) -> (r: Option<usize>)
        ensures
            r matches Some(n) && n == self@.0.len(),
    {
        broadcast use lemma_view_values;

        Some(self.items.len())
    }
}

/// Pull-based access to a mapping's entries: the key list is the snapshot
/// taken when the accessor opens; "next key" peeks the current entry's key
/// and "next value" looks that key up and advances.
pub struct DictIter<'de> {
    input: &'de Vec<(Value, Value)>,
    index: usize,
}

impl<'de> View for DictIter<'de> {
    type V = (Seq<(ValueV, ValueV)>, int);

    closed spec fn view(&self) -> (Seq<(ValueV, ValueV)>, int) {
        (view_entries(self.input@), self.index as int)
    }
}

impl<'de> DictIter<'de> {
    pub fn new(input: &'de Vec<(Value, Value)>) -> (it: Self)
        ensures
            it@.0 == view_entries(input@),
            it@.1 == 0,
    {
        DictIter { input, index: 0 }
    }

    /// The key of the current entry, if one remains; does not advance.
    pub fn next_key(&mut self) -> (r: Option<&'de Value>)
        ensures
            final(self)@ == old(self)@,
            old(self)@.1 < old(self)@.0.len() ==> (r matches Some(k) && k@ == old(self)@.0[old(
                self,
            )@.1].0),
            old(self)@.1 >= old(self)@.0.len() ==> r is None,
    {
        broadcast use lemma_view_entries;

        if self.index < self.input.len() {
            Some(&self.input[self.index].0)
        } else {
            None
        }
    }

    /// The value bound to the key just peeked, looked up in the mapping,
    /// and an advance to the next entry; a key whose value is no longer
    /// present is a dict-value mismatch.
    pub fn next_value(&mut self) -> (r: Result<&'de Value, Error>)
        requires
            old(self)@.1 < old(self)@.0.len(),
        ensures
            final(self)@.0 == old(self)@.0,
            final(self)@.1 == old(self)@.1 + 1,
            match dict_get(old(self)@.0, old(self)@.0[old(self)@.1].0) {
                Option::Some(v) => r matches Ok(rv) && rv@ == v,
                Option::None => r matches Err(e) && e@ == ErrorV::ExpectedDictValue,
            },
    {
        broadcast use lemma_view_entries;

        let n = self.input.len();
        let idx = self.index;
        proof {
            assert(idx < n);
        }
        self.index = idx + 1;
        match crate::value::dict_get_item(self.input, &self.input[idx].0) {
            Option::Some(v) => Ok(v),
            Option::None => Err(Error::ExpectedDictValue),
        }
    }
}

/// The resolved head of an enum value, per the wire convention: a bare
/// string resolves to a unit variant before any accessor exists, so the
/// "no-payload variant through an accessor" operation of the framework's
/// contract is unreachable by construction; the mapping form always
/// carries a payload.
pub enum Enum<'de> {
    NamedUnit(&'de String),
    NamedWithPayload(&'de String, &'de Value),
}

impl<'de> Deserializer<'de> {
    /// Opens a deserializer over one borrowed dynamic value.
    pub fn from_py(input: &'de Value) -> (d: Self)
        ensures
            d@ == input@,
    {
        Deserializer { input }
    }

    /// Whether the value is the host's null.
    pub fn is_none(&self) -> (r: bool)
        ensures
            r == (self@ is Null),
    {
        match self.input {
            Value::Null => true,
            _ => false,
        }
    }

    pub fn deserialize_bool(&self) -> (r: Result<bool, Error>)
        ensures
            r matches Ok(b) ==> spec_de_bool(self@) == Ok::<bool, ErrorV>(b),
            r matches Err(e) ==> spec_de_bool(self@) == Err::<bool, ErrorV>(e@),
    {
        match self.input {
            Value::Bool(b) => Ok(*b),
            _ => Err(Error::ExpectedBoolean),
        }
    }

    pub fn deserialize_i8(&self) -> (r: Result<i8, Error>)
        ensures
            r matches Ok(b) ==> spec_de_int(self@, i8::MIN as int, i8::MAX as int) == Ok::<
                int,
                ErrorV,
            >(b as int),
            r matches Err(e) ==> spec_de_int(self@, i8::MIN as int, i8::MAX as int) == Err::<
                int,
                ErrorV,
            >(e@),
    {
        match self.input {
            Value::Int(i) => if i8::MIN as i128 <= *i && *i <= i8::MAX as i128 {
                Ok(*i as i8)
            } else {
                Err(Error::ExpectedInteger)
            },
            _ => Err(Error::ExpectedInteger),
        }
    }

    pub fn deserialize_i16(&self) -> (r: Result<i16, Error>)
        ensures
            r matches Ok(b) ==> spec_de_int(self@, i16::MIN as int, i16::MAX as int) == Ok::<
                int,
                ErrorV,
            >(b as int),
            r matches Err(e) ==> spec_de_int(self@, i16::MIN as int, i16::MAX as int) == Err::<
                int,
                ErrorV,
            >(e@),
    {
        match self.input {
            Value::Int(i) => if i16::MIN as i128 <= *i && *i <= i16::MAX as i128 {
                Ok(*i as i16)
            } else {
                Err(Error::ExpectedInteger)
            },
            _ => Err(Error::ExpectedInteger),
        }
    }

    pub fn deserialize_i32(&self) -> (r: Result<i32, Error>)
        ensures
            r matches Ok(b) ==> spec_de_int(self@, i32::MIN as int, i32::MAX as int) == Ok::<
                int,
                ErrorV,
            >(b as int),
            r matches Err(e) ==> spec_de_int(self@, i32::MIN as int, i32::MAX as int) == Err::<
                int,
                ErrorV,
            >(e@),
    {
        match self.input {
            Value::Int(i) => if i32::MIN as i128 <= *i && *i <= i32::MAX as i128 {
                Ok(*i as i32)
            } else {
                Err(Error::ExpectedInteger)
            },
            _ => Err(Error::ExpectedInteger),
        }
    }

    pub fn deserialize_i64(&self) -> (r: Result<i64, Error>)
        ensures
            r matches Ok(b) ==> spec_de_int(self@, i64::MIN as int, i64::MAX as int) == Ok::<
                int,
                ErrorV,
            >(b as int),
            r matches Err(e) ==> spec_de_int(self@, i64::MIN as int, i64::MAX as int) == Err::<
                int,
                ErrorV,
            >(e@),
    {
        match self.input {
            Value::Int(i) => if i64::MIN as i128 <= *i && *i <= i64::MAX as i128 {
                Ok(*i as i64)
            } else {
                Err(Error::ExpectedInteger)
            },
            _ => Err(Error::ExpectedInteger),
        }
    }

    pub fn deserialize_u8(&self) -> (r: Result<u8, Error>)
        ensures
            r matches Ok(b) ==> spec_de_int(self@, 0, u8::MAX as int) == Ok::<int, ErrorV>(
                b as int,
            ),
            r matches Err(e) ==> spec_de_int(self@, 0, u8::MAX as int) == Err::<int, ErrorV>(e@),
    {
        match self.input {
            Value::Int(i) => if 0 <= *i && *i <= u8::MAX as i128 {
                Ok(*i as u8)
            } else {
                Err(Error::ExpectedInteger)
            },
            _ => Err(Error::ExpectedInteger),
        }
    }

    pub fn deserialize_u16(&self) -> (r: Result<u16, Error>)
        ensures
            r matches Ok(b) ==> spec_de_int(self@, 0, u16::MAX as int) == Ok::<int, ErrorV>(
                b as int,
            ),
            r matches Err(e) ==> spec_de_int(self@, 0, u16::MAX as int) == Err::<int, ErrorV>(e@),
    {
        match self.input {
            Value::Int(i) => if 0 <= *i && *i <= u16::MAX as i128 {
                Ok(*i as u16)
            } else {
                Err(Error::ExpectedInteger)
            },
            _ => Err(Error::ExpectedInteger),
        }
    }

    pub fn deserialize_u32(&self) -> (r: Result<u32, Error>)
        ensures
            r matches Ok(b) ==> spec_de_int(self@, 0, u32::MAX as int) == Ok::<int, ErrorV>(
                b as int,
            ),
            r matches Err(e) ==> spec_de_int(self@, 0, u32::MAX as int) == Err::<int, ErrorV>(e@),
    {
        match self.input {
            Value::Int(i) => if 0 <= *i && *i <= u32::MAX as i128 {
                Ok(*i as u32)
            } else {
                Err(Error::ExpectedInteger)
            },
            _ => Err(Error::ExpectedInteger),
        }
    }

    pub fn deserialize_u64(&self) -> (r: Result<u64, Error>)
        ensures
            r matches Ok(b) ==> spec_de_int(self@, 0, u64::MAX as int) == Ok::<int, ErrorV>(
                b as int,
            ),
            r matches Err(e) ==> spec_de_int(self@, 0, u64::MAX as int) == Err::<int, ErrorV>(e@),
    {
        match self.input {
            Value::Int(i) => if 0 <= *i && *i <= u64::MAX as i128 {
                Ok(*i as u64)
            } else {
                Err(Error::ExpectedInteger)
            },
            _ => Err(Error::ExpectedInteger),
        }
    }

    pub fn deserialize_char(&self) -> (r: Result<char, Error>)
        ensures
            r matches Ok(c) ==> (self@ matches ValueV::Str(s) && s.len() == 1 && c == s[0]
                && spec_de_char(self@) == Ok::<char, ErrorV>(c)),
            r matches Err(e) ==> spec_de_char(self@) == Err::<char, ErrorV>(e@),
    {
        match self.input {
            Value::Str(s) => {
                let n = s.as_str().unicode_len();
                if n == 1 {
                    Ok(s.as_str().get_char(0))
                } else {
                    Err(Error::ExpectedString)
                }
            },
            _ => Err(Error::ExpectedChar),
        }
    }

    /// The borrowed, zero-copy view of a dynamic string, valid for the
    /// call's lifetime.
    pub fn deserialize_str(&self) -> (r: Result<&'de str, Error>)
        ensures
            r matches Ok(s) ==> spec_de_str(self@) == Ok::<Seq<char>, ErrorV>(s@),
            r matches Err(e) ==> spec_de_str(self@) == Err::<Seq<char>, ErrorV>(e@),
    {
        match self.input {
            Value::Str(s) => Ok(s.as_str()),
            _ => Err(Error::ExpectedString),
        }
    }

    /// An owned copy of a dynamic string.
    pub fn deserialize_string(&self) -> (r: Result<String, Error>)
        ensures
            r matches Ok(s) ==> spec_de_str(self@) == Ok::<Seq<char>, ErrorV>(s@),
            r matches Err(e) ==> spec_de_str(self@) == Err::<Seq<char>, ErrorV>(e@),
    {
        match self.deserialize_str() {
            Ok(s) => Ok(s.to_owned()),
            Err(e) => Err(e),
        }
    }

    /// The borrowed, zero-copy view of a buffer-capable value's bytes; a
    /// value without the buffer capability is a bytes mismatch here and
    /// falls to the owned path.
    pub fn deserialize_bytes(&self) -> (r: Result<&'de [u8], Error>)
        ensures
            self@ matches ValueV::Bytes(bs) ==> (r matches Ok(b) && b@ == bs),
            !(self@ is Bytes) ==> (r matches Err(e) && e@ == ErrorV::ExpectedBytes),
    {
        match self.input {
            Value::Bytes(b) => Ok(b.as_slice()),
            _ => Err(Error::ExpectedBytes),
        }
    }

    /// An owned byte sequence: a buffer-capable value copies directly, a
    /// sequence of small integers is materialized octet by octet, anything
    /// else is a bytes mismatch.
    pub fn deserialize_byte_buf(&self) -> (r: Result<Vec<u8>, Error>)
        ensures
            r matches Ok(b) ==> spec_de_bytes(self@) == Ok::<Seq<u8>, ErrorV>(b@),
            r matches Err(e) ==> spec_de_bytes(self@) == Err::<Seq<u8>, ErrorV>(e@),
    {
        match self.input {
            Value::Bytes(b) => {
                proof {
                    assert(self@ == ValueV::Bytes(b@));
                }
                Ok(vstd::slice::slice_to_vec(b.as_slice()))
            },
            Value::List(vs) => {
                proof {
                    assert(self@ == ValueV::List(view_values(vs@)));
                    assert(view_values(vs@).skip(0) =~= view_values(vs@));
                }
                bytes_from_items(vs, 0)
            },
            Value::Tuple(vs) => {
                proof {
                    assert(self@ == ValueV::Tuple(view_values(vs@)));
                    assert(view_values(vs@).skip(0) =~= view_values(vs@));
                }
                bytes_from_items(vs, 0)
            },
            _ => Err(Error::ExpectedBytes),
        }
    }

    /// Requires the value to be exactly null.
    pub fn deserialize_unit(&self) -> (r: Result<(), Error>)
        ensures
            self@ is Null ==> r is Ok,
            !(self@ is Null) ==> (r matches Err(e) && e@ == ErrorV::ExpectedNone),
    {
        if self.is_none() {
            Ok(())
        } else {
            Err(Error::ExpectedNone)
        }
    }

    pub fn deserialize_unit_struct(&self, _name: &str) -> (r: Result<(), Error>)
        ensures
            self@ is Null ==> r is Ok,
            !(self@ is Null) ==> (r matches Err(e) && e@ == ErrorV::ExpectedNone),
    {
        self.deserialize_unit()
    }

    /// Opens a forward-only accessor over a sequence-like value.
    pub fn deserialize_seq(&self) -> (r: Result<SeqIter<'de>, Error>)
        ensures
            r matches Ok(it) ==> seq_items(self@) == Option::Some(it@.0) && it@.1 == 0,
            r matches Err(e) ==> seq_items(self@) is None && e@ == ErrorV::ExpectedList,
    {
        match self.input {
            Value::List(vs) => Ok(SeqIter::new(vs)),
            Value::Tuple(vs) => Ok(SeqIter::new(vs)),
            _ => Err(Error::ExpectedList),
        }
    }

    pub fn deserialize_tuple(&self, _len: usize) -> (r: Result<SeqIter<'de>, Error>)
        ensures
            r matches Ok(it) ==> seq_items(self@) == Option::Some(it@.0) && it@.1 == 0,
            r matches Err(e) ==> seq_items(self@) is None && e@ == ErrorV::ExpectedList,
    {
        self.deserialize_seq()
    }

    pub fn deserialize_tuple_struct(&self, _name: &str, _len: usize) -> (r: Result<
        SeqIter<'de>,
        Error,
    >)
        ensures
            r matches Ok(it) ==> seq_items(self@) == Option::Some(it@.0) && it@.1 == 0,
            r matches Err(e) ==> seq_items(self@) is None && e@ == ErrorV::ExpectedList,
    {
        self.deserialize_seq()
    }

    /// Opens an accessor over a mapping-like value, snapshotting its key
    /// order.
    pub fn deserialize_map(&self) -> (r: Result<DictIter<'de>, Error>)
        ensures
            r matches Ok(it) ==> self@ matches ValueV::Dict(es) && it@.0 == es && it@.1 == 0,
            r matches Err(e) ==> !(self@ is Dict) && e@ == ErrorV::ExpectedDict,
    {
        match self.input {
            Value::Dict(es) => Ok(DictIter::new(es)),
            _ => Err(Error::ExpectedDict),
        }
    }

    pub fn deserialize_struct(&self, _name: &str) -> (r: Result<DictIter<'de>, Error>)
        ensures
            r matches Ok(it) ==> self@ matches ValueV::Dict(es) && it@.0 == es && it@.1 == 0,
            r matches Err(e) ==> !(self@ is Dict) && e@ == ErrorV::ExpectedDict,
    {
        self.deserialize_map()
    }

    /// Resolves the enum head: a bare string is a unit variant, resolved
    /// here before any accessor exists; otherwise a mapping with exactly
    /// one entry, whose sole key carries the variant name and whose sole
    /// value is the payload.
    pub fn deserialize_enum(&self) -> (r: Result<Enum<'de>, Error>)
        ensures
            r matches Ok(en) ==> match en {
                Enum::NamedUnit(n) => spec_enum_head(self@) == Ok::<
                    (Seq<char>, Option<ValueV>),
                    ErrorV,
                >((n@, Option::None)),
                Enum::NamedWithPayload(n, p) => spec_enum_head(self@) == Ok::<
                    (Seq<char>, Option<ValueV>),
                    ErrorV,
                >((n@, Option::Some(p@))),
            },
            r matches Err(e) ==> spec_enum_head(self@) == Err::<
                (Seq<char>, Option<ValueV>),
                ErrorV,
            >(e@),
    {
        broadcast use lemma_view_entries;

        match self.input {
            Value::Str(s) => {
                proof {
                    assert(self@ == ValueV::Str(s@));
                }
                Ok(Enum::NamedUnit(s))
            },
            Value::Dict(es) => {
                proof {
                    assert(self@ == ValueV::Dict(view_entries(es@)));
                }
                if es.len() == 0 {
                    Err(Error::ExpectedEnumKey)
                } else if es.len() != 1 {
                    Err(Error::ExpectedEnumValue)
                } else {
                    proof {
                        assert(view_entries(es@)[0] == (es@[0].0@, es@[0].1@));
                    }
                    match &es[0].0 {
                        Value::Str(name) => Ok(Enum::NamedWithPayload(name, &es[0].1)),
                        _ => Err(Error::ExpectedString),
                    }
                }
            },
            _ => Err(Error::ExpectedDict),
        }
    }

    pub fn deserialize_identifier(&self) -> (r: Result<&'de str, Error>)
        ensures
            r matches Ok(s) ==> spec_de_str(self@) == Ok::<Seq<char>, ErrorV>(s@),
            r matches Err(e) ==> spec_de_str(self@) == Err::<Seq<char>, ErrorV>(e@),
    {
        self.deserialize_str()
    }

    /// Shape inference over this value, in the fixed probe order.
    pub fn deserialize_any(&self) -> (r: Result<Typed, Error>)
        ensures
            r matches Ok(t) ==> spec_de_any(self@) == Ok::<TypedV, ErrorV>(t@),
            r matches Err(e) ==> spec_de_any(self@) == Err::<TypedV, ErrorV>(e@),
    {
        de_any(self.input)
    }

    /// A value whose result the framework discards still has to parse: it
    /// runs through the same shape inference.
    pub fn deserialize_ignored_any(&self) -> (r: Result<Typed, Error>)
        ensures
            r matches Ok(t) ==> spec_de_any(self@) == Ok::<TypedV, ErrorV>(t@),
            r matches Err(e) ==> spec_de_any(self@) == Err::<TypedV, ErrorV>(e@),
    {
        self.deserialize_any()
    }
}

/// Octets of a sequence of dynamic values from position `i` on: every
/// element must be an integer in `0 ..= 255`.
fn bytes_from_items(vs: &Vec<Value>, i: usize) -> (r: Result<Vec<u8>, Error>)
    requires
        i <= vs@.len(),
    ensures
        r matches Ok(b) ==> spec_bytes_elems(view_values(vs@).skip(i as int)) == Ok::<
            Seq<u8>,
            ErrorV,
        >(b@),
        r matches Err(e) ==> spec_bytes_elems(view_values(vs@).skip(i as int)) == Err::<
            Seq<u8>,
            ErrorV,
        >(e@),
    decreases vs@.len() - i,
{
    broadcast use lemma_view_values;

    let ghost rest = view_values(vs@).skip(i as int);
    if i == vs.len() {
        proof {
            assert(rest =~= Seq::<ValueV>::empty());
        }
        Ok(Vec::new())
    } else {
        proof {
            assert(rest[0] == view_values(vs@)[i as int]);
            assert(rest.drop_first() =~= view_values(vs@).skip(i as int + 1));
        }
        match &vs[i] {
            Value::Int(x) => {
                if 0 <= *x && *x <= 255 {
                    match bytes_from_items(vs, i + 1) {
                        Ok(mut out) => {
                            let ghost tail = out@;
                            out.insert(0, *x as u8);
                            proof {
                                assert(out@ =~= seq![(*x as u8)] + tail);
                            }
                            Ok(out)
                        },
                        Err(e) => Err(e),
                    }
                } else {
                    Err(Error::ExpectedBytes)
                }
            },
            _ => Err(Error::ExpectedBytes),
        }
    }
}


/// Shape-inferred deserialization of one dynamic value, probing in the
/// fixed priority order.
pub fn de_any(input: &Value) -> (r: Result<Typed, Error>)
    ensures
        r matches Ok(t) ==> spec_de_any(input@) == Ok::<TypedV, ErrorV>(t@),
        r matches Err(e) ==> spec_de_any(input@) == Err::<TypedV, ErrorV>(e@),
    decreases *input,
{
    match input {
        Value::Null => Ok(Typed::Unit),
        Value::Str(s) => Ok(Typed::Str(s.clone())),
        Value::Bool(b) => Ok(Typed::Bool(*b)),
        Value::Int(i) => if 0 <= *i && *i <= u64::MAX as i128 {
            Ok(Typed::U64(*i as u64))
        } else {
            Err(Error::Syntax)
        },
        Value::List(vs) => {
            proof {
                assert(input@ == ValueV::List(view_values(vs@)));
                assert(view_values(vs@).skip(0) =~= view_values(vs@));
                assert(decreases_to!(*input => vs));
                assert(decreases_to!(vs => vs@));
                assert(vs@.skip(0) =~= vs@);
            }
            match de_any_items(vs, 0) {
                Ok(ts) => Ok(Typed::Sequence(ts)),
                Err(e) => Err(e),
            }
        },
        Value::Tuple(vs) => {
            proof {
                assert(input@ == ValueV::Tuple(view_values(vs@)));
                assert(view_values(vs@).skip(0) =~= view_values(vs@));
                assert(decreases_to!(*input => vs));
                assert(decreases_to!(vs => vs@));
                assert(vs@.skip(0) =~= vs@);
            }
            match de_any_items(vs, 0) {
                Ok(ts) => Ok(Typed::Sequence(ts)),
                Err(e) => Err(e),
            }
        },
        Value::Dict(es) => {
            proof {
                assert(input@ == ValueV::Dict(view_entries(es@)));
                assert(view_entries(es@).skip(0) =~= view_entries(es@));
                assert(decreases_to!(*input => es));
                assert(decreases_to!(es => es@));
                assert(es@.skip(0) =~= es@);
            }
            match de_any_entries(es, 0) {
                Ok(ps) => Ok(Typed::Mapping(ps)),
                Err(e) => Err(e),
            }
        },
        Value::Bytes(_) => Err(Error::Syntax),
    }
}

/// Shape-inferred deserialization of the elements from position `i` on.
fn de_any_items(vs: &Vec<Value>, i: usize) -> (r: Result<Vec<Typed>, Error>)
    requires
        i <= vs@.len(),
    ensures
        r matches Ok(ts) ==> spec_de_any_elems(view_values(vs@).skip(i as int)) == Ok::<
            Seq<TypedV>,
            ErrorV,
        >(view_typeds(ts@)),
        r matches Err(e) ==> spec_de_any_elems(view_values(vs@).skip(i as int)) == Err::<
            Seq<TypedV>,
            ErrorV,
        >(e@),
    decreases vs@.skip(i as int),
{
    broadcast use lemma_view_values, lemma_view_typeds;

    let ghost rest = view_values(vs@).skip(i as int);
    if i == vs.len() {
        let out: Vec<Typed> = Vec::new();
        proof {
            assert(rest =~= Seq::<ValueV>::empty());
            assert(view_typeds(out@) =~= Seq::<TypedV>::empty());
        }
        Ok(out)
    } else {
        proof {
            assert(rest[0] == view_values(vs@)[i as int]);
            assert(rest.drop_first() =~= view_values(vs@).skip(i as int + 1));
            assert(decreases_to!(vs@.skip(i as int) => vs@.skip(i as int)[0]));
            assert(vs@.skip(i as int)[0] == vs@[i as int]);
            assert(decreases_to!(vs@.skip(i as int) => vs@.skip(i as int).drop_first()));
            assert(vs@.skip(i as int).drop_first() =~= vs@.skip(i as int + 1));
        }
        let t = match de_any(&vs[i]) {
            Ok(t) => t,
            Err(e) => {
                return Err(e);
            },
        };
        match de_any_items(vs, i + 1) {
            Ok(mut out) => {
                let ghost tail = out@;
                out.insert(0, t);
                proof {
                    assert(out@ =~= seq![t] + tail);
                    assert(view_typeds(out@) =~= seq![t@] + view_typeds(tail));
                }
                Ok(out)
            },
            Err(e) => Err(e),
        }
    }
}

/// Shape-inferred deserialization of the mapping entries from position `i`
/// on, key then value, in entry order.
fn de_any_entries(es: &Vec<(Value, Value)>, i: usize) -> (r: Result<Vec<(Typed, Typed)>, Error>)
    requires
        i <= es@.len(),
    ensures
        r matches Ok(ps) ==> spec_de_any_pairs(view_entries(es@).skip(i as int)) == Ok::<
            Seq<(TypedV, TypedV)>,
            ErrorV,
        >(view_pairs(ps@)),
        r matches Err(e) ==> spec_de_any_pairs(view_entries(es@).skip(i as int)) == Err::<
            Seq<(TypedV, TypedV)>,
            ErrorV,
        >(e@),
    decreases es@.skip(i as int),
{
    broadcast use lemma_view_entries, lemma_view_pairs;

    let ghost rest = view_entries(es@).skip(i as int);
    if i == es.len() {
        let out: Vec<(Typed, Typed)> = Vec::new();
        proof {
            assert(rest =~= Seq::<(ValueV, ValueV)>::empty());
            assert(view_pairs(out@) =~= Seq::<(TypedV, TypedV)>::empty());
        }
        Ok(out)
    } else {
        proof {
            assert(rest[0] == view_entries(es@)[i as int]);
            assert(rest.drop_first() =~= view_entries(es@).skip(i as int + 1));
            assert(decreases_to!(es@.skip(i as int) => es@.skip(i as int)[0]));
            assert(es@.skip(i as int)[0] == es@[i as int]);
            assert(decreases_to!(es@[i as int] => es@[i as int].0));
            assert(decreases_to!(es@[i as int] => es@[i as int].1));
            assert(decreases_to!(es@.skip(i as int) => es@.skip(i as int).drop_first()));
            assert(es@.skip(i as int).drop_first() =~= es@.skip(i as int + 1));
        }
        let kt = match de_any(&es[i].0) {
            Ok(t) => t,
            Err(e) => {
                return Err(e);
            },
        };
        let vt = match de_any(&es[i].1) {
            Ok(t) => t,
            Err(e) => {
                return Err(e);
            },
        };
        match de_any_entries(es, i + 1) {
            Ok(mut out) => {
                let ghost tail = out@;
                out.insert(0, (kt, vt));
                proof {
                    assert(out@ =~= seq![(kt, vt)] + tail);
                    assert(view_pairs(out@) =~= seq![(kt@, vt@)] + view_pairs(tail));
                }
                Ok(out)
            },
            Err(e) => Err(e),
        }
    }
}


/// First declared variant carrying the given name, by index.
#[verifier::loop_isolation(false)]
fn find_variant(vars: &Vec<(String, VariantShape)>, name: &String) -> (r: Option<usize>)
    ensures
        match r {
            Option::Some(i) => spec_find_variant(vars@, name@) == Option::Some(i as int) && i
                < vars@.len(),
            Option::None => spec_find_variant(vars@, name@) is None,
        },
{
    let n = vars.len();
    let mut i: usize = 0;
    while i < n
        invariant
            n == vars@.len(),
            i <= n,
            forall|j: int| 0 <= j < i ==> vars@[j].0@ != name@,
        decreases n - i,
    {
        if vars[i].0.eq(name) {
            proof {
                lemma_find_variant(vars@, name@);
            }
            return Option::Some(i);
        }
        i += 1;
    }
    proof {
        lemma_find_variant(vars@, name@);
    }
    Option::None
}

/// Shape-directed deserialization of the elements an accessor still holds,
/// each against the one element shape.
fn de_elems(elem: &Shape, it: &mut SeqIter) -> (r: Result<Vec<Typed>, Error>)
    requires
        0 <= old(it)@.1 <= old(it)@.0.len(),
    ensures
        r matches Ok(ts) ==> spec_de_elems(*elem, old(it)@.0.skip(old(it)@.1)) == Ok::<
            Seq<TypedV>,
            ErrorV,
        >(view_typeds(ts@)),
        r matches Err(e) ==> spec_de_elems(*elem, old(it)@.0.skip(old(it)@.1)) == Err::<
            Seq<TypedV>,
            ErrorV,
        >(e@),
    decreases *elem, 2int, old(it)@.0.len() - old(it)@.1,
{
    broadcast use lemma_view_typeds;

    let ghost rest = old(it)@.0.skip(old(it)@.1);
    match it.next_element() {
        Option::None => {
            let out: Vec<Typed> = Vec::new();
            proof {
                assert(rest =~= Seq::<ValueV>::empty());
                assert(view_typeds(out@) =~= Seq::<TypedV>::empty());
            }
            Ok(out)
        },
        Option::Some(v) => {
            proof {
                assert(rest[0] == old(it)@.0[old(it)@.1]);
                assert(rest.drop_first() =~= it@.0.skip(it@.1));
            }
            let t = match from_py(elem, v) {
                Ok(t) => t,
                Err(e) => {
                    return Err(e);
                },
            };
            match de_elems(elem, it) {
                Ok(mut out) => {
                    let ghost tail = out@;
                    out.insert(0, t);
                    proof {
                        assert(out@ =~= seq![t] + tail);
                        assert(view_typeds(out@) =~= seq![t@] + view_typeds(tail));
                    }
                    Ok(out)
                },
                Err(e) => Err(e),
            }
        },
    }
}

/// Shape-directed deserialization of a tuple's remaining elements, one
/// declared shape per pulled element.
fn de_tuple(shapes: &Vec<Shape>, i: usize, it: &mut SeqIter) -> (r: Result<Vec<Typed>, Error>)
    requires
        i <= shapes@.len(),
        0 <= old(it)@.1 <= old(it)@.0.len(),
        shapes@.len() - i <= old(it)@.0.len() - old(it)@.1,
    ensures
        r matches Ok(ts) ==> spec_de_tuple(shapes@.skip(i as int), old(it)@.0.skip(old(it)@.1))
            == Ok::<Seq<TypedV>, ErrorV>(view_typeds(ts@)),
        r matches Err(e) ==> spec_de_tuple(shapes@.skip(i as int), old(it)@.0.skip(old(it)@.1))
            == Err::<Seq<TypedV>, ErrorV>(e@),
    decreases shapes@.skip(i as int), 0int, 0int,
{
    broadcast use lemma_view_typeds;

    let ghost srest = shapes@.skip(i as int);
    let ghost vrest = old(it)@.0.skip(old(it)@.1);
    if i == shapes.len() {
        let out: Vec<Typed> = Vec::new();
        proof {
            assert(srest =~= Seq::<Shape>::empty());
            assert(view_typeds(out@) =~= Seq::<TypedV>::empty());
        }
        Ok(out)
    } else {
        proof {
            assert(srest[0] == shapes@[i as int]);
            assert(srest.drop_first() =~= shapes@.skip(i as int + 1));
            assert(decreases_to!(shapes@.skip(i as int) => shapes@.skip(i as int)[0]));
            assert(decreases_to!(shapes@.skip(i as int) => shapes@.skip(i as int).drop_first()));
            assert(shapes@.skip(i as int).drop_first() =~= shapes@.skip(i as int + 1));
        }
        match it.next_element() {
            Option::Some(v) => {
                proof {
                    assert(vrest[0] == old(it)@.0[old(it)@.1]);
                    assert(vrest.drop_first() =~= it@.0.skip(it@.1));
                }
                let t = match from_py(&shapes[i], v) {
                    Ok(t) => t,
                    Err(e) => {
                        return Err(e);
                    },
                };
                match de_tuple(shapes, i + 1, it) {
                    Ok(mut out) => {
                        let ghost tail = out@;
                        out.insert(0, t);
                        proof {
                            assert(out@ =~= seq![t] + tail);
                            assert(view_typeds(out@) =~= seq![t@] + view_typeds(tail));
                        }
                        Ok(out)
                    },
                    Err(e) => Err(e),
                }
            },
            Option::None => {
                proof {
                    assert(false);
                }
                Err(Error::ExpectedListElement)
            },
        }
    }
}

/// Shape-directed deserialization of a mapping's remaining snapshot
/// entries: each key deserializes against the key shape, its value is
/// looked up and deserializes against the value shape.
fn de_pairs(mshape: &Shape, it: &mut DictIter) -> (r: Result<Vec<(Typed, Typed)>, Error>)
    requires
        *mshape is Mapping,
        0 <= old(it)@.1 <= old(it)@.0.len(),
    ensures
        r matches Ok(ps) ==> spec_de_pairs(*mshape, old(it)@.0, old(it)@.0.skip(old(it)@.1))
            == Ok::<Seq<(TypedV, TypedV)>, ErrorV>(view_pairs(ps@)),
        r matches Err(e) ==> spec_de_pairs(*mshape, old(it)@.0, old(it)@.0.skip(old(it)@.1))
            == Err::<Seq<(TypedV, TypedV)>, ErrorV>(e@),
    decreases *mshape, 0int, old(it)@.0.len() - old(it)@.1,
{
    broadcast use lemma_view_pairs;

    let ghost rest = old(it)@.0.skip(old(it)@.1);
    match mshape {
        Shape::Mapping(kshape, vshape) => {
            proof {
                assert(decreases_to!(*mshape => *kshape));
                assert(decreases_to!(*mshape => *vshape));
            }
            match it.next_key() {
                Option::None => {
                    let out: Vec<(Typed, Typed)> = Vec::new();
                    proof {
                        assert(rest =~= Seq::<(ValueV, ValueV)>::empty());
                        assert(view_pairs(out@) =~= Seq::<(TypedV, TypedV)>::empty());
                    }
                    Ok(out)
                },
                Option::Some(kv) => {
                    proof {
                        assert(rest[0] == old(it)@.0[old(it)@.1]);
                    }
                    let kt = match from_py(kshape, kv) {
                        Ok(t) => t,
                        Err(e) => {
                            return Err(e);
                        },
                    };
                    let vv = match it.next_value() {
                        Ok(v) => v,
                        Err(e) => {
                            return Err(e);
                        },
                    };
                    proof {
                        assert(rest.drop_first() =~= it@.0.skip(it@.1));
                    }
                    let vt = match from_py(vshape, vv) {
                        Ok(t) => t,
                        Err(e) => {
                            return Err(e);
                        },
                    };
                    match de_pairs(mshape, it) {
                        Ok(mut out) => {
                            let ghost tail = out@;
                            out.insert(0, (kt, vt));
                            proof {
                                assert(out@ =~= seq![(kt, vt)] + tail);
                                assert(view_pairs(out@) =~= seq![(kt@, vt@)] + view_pairs(tail));
                            }
                            Ok(out)
                        },
                        Err(e) => Err(e),
                    }
                },
            }
        },
        _ => {
            proof {
                assert(false);
            }
            Err(Error::ExpectedDict)
        },
    }
}

/// Shape-directed deserialization of a struct's declared fields from
/// position `i` on, each looked up by name in the mapping.
fn de_fields(fields: &Vec<(String, Shape)>, i: usize, es: &Vec<(Value, Value)>) -> (r: Result<
    Vec<(String, Typed)>,
    Error,
>)
    requires
        i <= fields@.len(),
    ensures
        r matches Ok(fs) ==> spec_de_fields(fields@.skip(i as int), view_entries(es@)) == Ok::<
            Seq<(Seq<char>, TypedV)>,
            ErrorV,
        >(view_fields(fs@)),
        r matches Err(e) ==> spec_de_fields(fields@.skip(i as int), view_entries(es@)) == Err::<
            Seq<(Seq<char>, TypedV)>,
            ErrorV,
        >(e@),
    decreases fields@.skip(i as int), 0int, 0int,
{
    broadcast use lemma_view_fields;

    let ghost frest = fields@.skip(i as int);
    if i == fields.len() {
        let out: Vec<(String, Typed)> = Vec::new();
        proof {
            assert(frest =~= Seq::<(String, Shape)>::empty());
            assert(view_fields(out@) =~= Seq::<(Seq<char>, TypedV)>::empty());
        }
        Ok(out)
    } else {
        proof {
            assert(frest[0] == fields@[i as int]);
            assert(frest.drop_first() =~= fields@.skip(i as int + 1));
            assert(decreases_to!(fields@.skip(i as int) => fields@.skip(i as int)[0]));
            assert(decreases_to!(fields@[i as int] => fields@[i as int].1));
            assert(decreases_to!(fields@.skip(i as int) => fields@.skip(i as int).drop_first()));
            assert(fields@.skip(i as int).drop_first() =~= fields@.skip(i as int + 1));
        }
        let key = Value::Str(fields[i].0.clone());
        match crate::value::dict_get_item(es, &key) {
            Option::Some(pv) => {
                let t = match from_py(&fields[i].1, pv) {
                    Ok(t) => t,
                    Err(e) => {
                        return Err(e);
                    },
                };
                match de_fields(fields, i + 1, es) {
                    Ok(mut out) => {
                        let ghost tail = out@;
                        out.insert(0, (fields[i].0.clone(), t));
                        proof {
                            assert(out@ =~= seq![(fields@[i as int].0, t)] + tail);
                            assert(view_fields(out@) =~= seq![(fields@[i as int].0@, t@)]
                                + view_fields(tail));
                        }
                        Ok(out)
                    },
                    Err(e) => Err(e),
                }
            },
            Option::None => Err(Error::Message("missing field".to_owned())),
        }
    }
}


/// The typed value carrying one character.
fn char_to_typed(c: char) -> (t: Typed)
    ensures
        t@ == TypedV::Char(c),
{
    Typed::Char(c)
}

/// Converts a dynamic value into the typed value the requested shape asks
/// for; the first coercion failure aborts the whole call with its error.
#[verifier::rlimit(100)]
#[verifier::spinoff_prover]
pub fn from_py(shape: &Shape, input: &Value) -> (r: Result<Typed, Error>)
    ensures
        r matches Ok(t) ==> spec_de(*shape, input@) == Ok::<TypedV, ErrorV>(t@),
        r matches Err(e) ==> spec_de(*shape, input@) == Err::<TypedV, ErrorV>(e@),
    decreases *shape, 1int, 0int,
{
    let d = Deserializer::from_py(input);
    match shape {
        Shape::Bool => match d.deserialize_bool() {
            Ok(b) => Ok(Typed::Bool(b)),
            Err(e) => Err(e),
        },
        Shape::I8 => match d.deserialize_i8() {
            Ok(v) => Ok(Typed::I8(v)),
            Err(e) => Err(e),
        },
        Shape::I16 => match d.deserialize_i16() {
            Ok(v) => Ok(Typed::I16(v)),
            Err(e) => Err(e),
        },
        Shape::I32 => match d.deserialize_i32() {
            Ok(v) => Ok(Typed::I32(v)),
            Err(e) => Err(e),
        },
        Shape::I64 => match d.deserialize_i64() {
            Ok(v) => Ok(Typed::I64(v)),
            Err(e) => Err(e),
        },
        Shape::U8 => match d.deserialize_u8() {
            Ok(v) => Ok(Typed::U8(v)),
            Err(e) => Err(e),
        },
        Shape::U16 => match d.deserialize_u16() {
            Ok(v) => Ok(Typed::U16(v)),
            Err(e) => Err(e),
        },
        Shape::U32 => match d.deserialize_u32() {
            Ok(v) => Ok(Typed::U32(v)),
            Err(e) => Err(e),
        },
        Shape::U64 => match d.deserialize_u64() {
            Ok(v) => Ok(Typed::U64(v)),
            Err(e) => Err(e),
        },
        Shape::Char => match d.deserialize_char() {
            Ok(c) => Ok(char_to_typed(c)),
            Err(e) => Err(e),
        },
        Shape::Str => match d.deserialize_string() {
            Ok(s) => Ok(Typed::Str(s)),
            Err(e) => Err(e),
        },
        Shape::Bytes => match d.deserialize_bytes() {
            Ok(b) => Ok(Typed::Bytes(vstd::slice::slice_to_vec(b))),
            Err(_) => match d.deserialize_byte_buf() {
                Ok(b) => Ok(Typed::Bytes(b)),
                Err(e) => Err(e),
            },
        },
        Shape::Opt(inner) => {
            proof {
                assert(decreases_to!(*shape => **inner));
            }
            if d.is_none() {
                Ok(Typed::Opt(Option::None))
            } else {
                match from_py(inner, input) {
                    Ok(t) => Ok(Typed::Opt(Option::Some(Box::new(t)))),
                    Err(e) => Err(e),
                }
            }
        },
        Shape::Unit => match d.deserialize_unit() {
            Ok(_) => Ok(Typed::Unit),
            Err(e) => Err(e),
        },
        Shape::UnitStruct => match d.deserialize_unit_struct("") {
            Ok(_) => Ok(Typed::UnitStruct),
            Err(e) => Err(e),
        },
        Shape::NewtypeStruct(inner) => {
            proof {
                assert(decreases_to!(*shape => **inner));
            }
            match from_py(inner, input) {
                Ok(t) => Ok(Typed::NewtypeStruct(Box::new(t))),
                Err(e) => Err(e),
            }
        },
        Shape::Sequence(elem) => {
            proof {
                assert(decreases_to!(*shape => **elem));
            }
            match d.deserialize_seq() {
                Ok(mut it) => {
                    proof {
                        assert(it@.0.skip(0) =~= it@.0);
                    }
                    match de_elems(elem, &mut it) {
                        Ok(ts) => Ok(Typed::Sequence(ts)),
                        Err(e) => Err(e),
                    }
                },
                Err(e) => Err(e),
            }
        },
        Shape::Tuple(shapes) => {
            proof {
                assert(decreases_to!(*shape => shapes));
                assert(decreases_to!(shapes => shapes@));
                assert(shapes@.skip(0) =~= shapes@);
            }
            match d.deserialize_tuple(shapes.len()) {
                Ok(mut it) => {
                    let hint = match it.size_hint() {
                        Option::Some(n) => n,
                        Option::None => 0,
                    };
                    if hint < shapes.len() {
                        Err(Error::Message("invalid length".to_owned()))
                    } else {
                        proof {
                            assert(it@.0.skip(0) =~= it@.0);
                        }
                        match de_tuple(shapes, 0, &mut it) {
                            Ok(ts) => Ok(Typed::Tuple(ts)),
                            Err(e) => Err(e),
                        }
                    }
                },
                Err(e) => Err(e),
            }
        },
        Shape::Mapping(_, _) => match d.deserialize_map() {
            Ok(mut it) => {
                proof {
                    assert(it@.0.skip(0) =~= it@.0);
                }
                match de_pairs(shape, &mut it) {
                    Ok(ps) => Ok(Typed::Mapping(ps)),
                    Err(e) => Err(e),
                }
            },
            Err(e) => Err(e),
        },
        Shape::Struct(fields) => {
            proof {
                assert(decreases_to!(*shape => fields));
                assert(decreases_to!(fields => fields@));
                assert(fields@.skip(0) =~= fields@);
            }
            match input {
                Value::Dict(es) => {
                    proof {
                        assert(input@ == ValueV::Dict(view_entries(es@)));
                    }
                    match de_fields(fields, 0, es) {
                        Ok(fs) => Ok(Typed::Struct(fs)),
                        Err(e) => Err(e),
                    }
                },
                _ => Err(Error::ExpectedDict),
            }
        },
        Shape::Enum(vars) => {
            proof {
                assert(decreases_to!(*shape => vars));
                assert(decreases_to!(vars => vars@));
            }
            match d.deserialize_enum() {
                Ok(head) => match head {
                    Enum::NamedUnit(name) => match find_variant(vars, name) {
                        Option::Some(idx) => {
                            proof {
                                lemma_find_variant(vars@, name@);
                            }
                            match &vars[idx].1 {
                                VariantShape::Unit => Ok(Typed::UnitVariant(name.clone())),
                                _ => Err(Error::Message("invalid type".to_owned())),
                            }
                        },
                        Option::None => Err(Error::Message("unknown variant".to_owned())),
                    },
                    Enum::NamedWithPayload(name, payload) => match find_variant(vars, name) {
                        Option::Some(idx) => {
                            proof {
                                lemma_find_variant(vars@, name@);
                                assert(decreases_to!(vars@ => vars@[idx as int]));
                                assert(decreases_to!(vars@[idx as int] => vars@[idx as int].1));
                            }
                            match &vars[idx].1 {
                                VariantShape::Unit => Err(Error::Message("invalid type".to_owned())),
                                VariantShape::Newtype(inner) => {
                                    proof {
                                        assert(decreases_to!(vars@[idx as int].1 => **inner));
                                    }
                                    match from_py(inner, payload) {
                                        Ok(t) => Ok(
                                            Typed::NewtypeVariant(name.clone(), Box::new(t)),
                                        ),
                                        Err(e) => Err(e),
                                    }
                                },
                                VariantShape::Tuple(shapes) => {
                                    proof {
                                        assert(decreases_to!(vars@[idx as int].1 => shapes));
                                        assert(decreases_to!(shapes => shapes@));
                                        assert(shapes@.skip(0) =~= shapes@);
                                    }
                                    let pd = Deserializer::from_py(payload);
                                    match pd.deserialize_seq() {
                                        Ok(mut it) => {
                                            let hint = match it.size_hint() {
                                                Option::Some(n) => n,
                                                Option::None => 0,
                                            };
                                            if hint < shapes.len() {
                                                Err(Error::Message("invalid length".to_owned()))
                                            } else {
                                                proof {
                                                    assert(it@.0.skip(0) =~= it@.0);
                                                }
                                                match de_tuple(shapes, 0, &mut it) {
                                                    Ok(ts) => Ok(
                                                        Typed::TupleVariant(name.clone(), ts),
                                                    ),
                                                    Err(e) => Err(e),
                                                }
                                            }
                                        },
                                        Err(e) => Err(e),
                                    }
                                },
                                VariantShape::Struct(fields) => {
                                    proof {
                                        assert(decreases_to!(vars@[idx as int].1 => fields));
                                        assert(decreases_to!(fields => fields@));
                                        assert(fields@.skip(0) =~= fields@);
                                    }
                                    match payload {
                                        Value::Dict(pes) => {
                                            proof {
                                                assert(payload@ == ValueV::Dict(
                                                    view_entries(pes@),
                                                ));
                                            }
                                            match de_fields(fields, 0, pes) {
                                                Ok(fs) => Ok(
                                                    Typed::StructVariant(name.clone(), fs),
                                                ),
                                                Err(e) => Err(e),
                                            }
                                        },
                                        _ => Err(Error::ExpectedDict),
                                    }
                                },
                            }
                        },
                        Option::None => Err(Error::Message("unknown variant".to_owned())),
                    },
                },
                Err(e) => Err(e),
            }
        },
        Shape::Any => de_any(input),
    }
}













} // verus!
