//! The laws the two directions obey together: every typed value expressible
//! in both models survives a serialize/deserialize round trip, and struct
//! deserialization does not depend on the order the mapping supplies its
//! keys in.
use vstd::prelude::*;

use crate::de::{
    lemma_find_variant, spec_bytes_elems, spec_de, spec_de_elems, spec_de_fields, spec_de_pairs,
    spec_de_tuple, spec_find_variant,
};
use crate::error::ErrorV;
use crate::ser::{lemma_spec_ser_elems, spec_ser, spec_ser_elems, spec_ser_entries, spec_ser_fields};
use crate::typed::{Shape, TypedV, VariantShape};
use crate::value::{dict_get, dict_keys_unique, dict_set, ValueV};

verus! {

/// The typed value `t` fits the shape `shape`, and is expressible in both
/// models: integer payloads lie in their width's range; a present option
/// never serializes to null (a `Some` whose payload serializes to null is
/// indistinguishable from `None` on the wire); mapping keys serialize to
/// pairwise distinct dynamic values; struct and variant fields carry the
/// declared names, which are pairwise distinct; an enum value names a
/// declared variant of its own form. Shape inference (`Any`) makes no
/// round-trip claim.
pub open spec fn wf(shape: Shape, t: TypedV) -> bool
    decreases shape,
    via check_wf
{
    match shape {
        Shape::Bool => t is Bool,
        Shape::I8 => t matches TypedV::I8(v) && i8::MIN <= v <= i8::MAX,
        Shape::I16 => t matches TypedV::I16(v) && i16::MIN <= v <= i16::MAX,
        Shape::I32 => t matches TypedV::I32(v) && i32::MIN <= v <= i32::MAX,
        Shape::I64 => t matches TypedV::I64(v) && i64::MIN <= v <= i64::MAX,
        Shape::U8 => t matches TypedV::U8(v) && 0 <= v <= u8::MAX,
        Shape::U16 => t matches TypedV::U16(v) && 0 <= v <= u16::MAX,
        Shape::U32 => t matches TypedV::U32(v) && 0 <= v <= u32::MAX,
        Shape::U64 => t matches TypedV::U64(v) && 0 <= v <= u64::MAX,
        Shape::Char => t is Char,
        Shape::Str => t is Str,
        Shape::Bytes => t is Bytes,
        Shape::Opt(inner) => t matches TypedV::Opt(o) && match o {
            Option::None => true,
            Option::Some(x) => wf(*inner, *x) && spec_ser(*x) != ValueV::Null,
        },
        Shape::Unit => t is Unit,
        Shape::UnitStruct => t is UnitStruct,
        Shape::NewtypeStruct(inner) => t matches TypedV::NewtypeStruct(x) && wf(*inner, *x),
        Shape::Sequence(elem) => t matches TypedV::Sequence(ts) && forall|i: int|
            0 <= i < ts.len() ==> wf(*elem, #[trigger] ts[i]),
        Shape::Tuple(shapes) => t matches TypedV::Tuple(ts) && ts.len() == shapes@.len()
            && forall|i: int| 0 <= i < ts.len() ==> wf(shapes@[i], #[trigger] ts[i]),
        Shape::Mapping(kshape, vshape) => t matches TypedV::Mapping(ps) && (forall|i: int|
            0 <= i < ps.len() ==> wf(*kshape, (#[trigger] ps[i]).0) && wf(*vshape, ps[i].1))
            && (forall|i: int, j: int|
            0 <= i < j < ps.len() ==> spec_ser(ps[i].0) != spec_ser(ps[j].0)),
        Shape::Struct(fields) => t matches TypedV::Struct(fs) && fs.len() == fields@.len()
            && (forall|i: int|
            0 <= i < fs.len() ==> (#[trigger] fs[i]).0 == fields@[i].0@ && wf(
                fields@[i].1,
                fs[i].1,
            )) && (forall|i: int, j: int|
            0 <= i < j < fields@.len() ==> fields@[i].0@ != fields@[j].0@),
        Shape::Enum(vars) => match t {
            TypedV::UnitVariant(name) => spec_find_variant(vars@, name) matches Option::Some(i)
                && vars@[i].1 is Unit,
            TypedV::NewtypeVariant(name, x) => spec_find_variant(vars@, name) matches Option::Some(
                i,
            ) && vars@[i].1 matches VariantShape::Newtype(inner) && wf(*inner, *x),
            TypedV::TupleVariant(name, ts) => spec_find_variant(vars@, name) matches Option::Some(
                i,
            ) && vars@[i].1 matches VariantShape::Tuple(shapes) && ts.len() == shapes@.len()
                && forall|j: int| 0 <= j < ts.len() ==> wf(shapes@[j], #[trigger] ts[j]),
            TypedV::StructVariant(name, fs) => spec_find_variant(vars@, name) matches Option::Some(
                i,
            ) && vars@[i].1 matches VariantShape::Struct(fields) && fs.len() == fields@.len() && (
            forall|j: int|
                0 <= j < fs.len() ==> (#[trigger] fs[j]).0 == fields@[j].0@ && wf(
                    fields@[j].1,
                    fs[j].1,
                )) && (forall|j: int, k: int|
                0 <= j < k < fields@.len() ==> fields@[j].0@ != fields@[k].0@),
            _ => false,
        },
        Shape::Any => false,
    }
}

/// Termination witness for [`wf`]: the variant a name lookup selects is a
/// component of the enum shape.
#[via_fn]
proof fn check_wf(shape: Shape, t: TypedV) {
    match shape {
        Shape::Enum(vars) => {
            let name = match t {
                TypedV::UnitVariant(name) => name,
                TypedV::NewtypeVariant(name, _) => name,
                TypedV::TupleVariant(name, _) => name,
                TypedV::StructVariant(name, _) => name,
                _ => Seq::empty(),
            };
            lemma_find_variant(vars@, name);
            match spec_find_variant(vars@, name) {
                Option::Some(i) => {
                    assert(0 <= i < vars@.len());
                    assert(decreases_to!(shape => vars));
                    assert(decreases_to!(vars => vars@));
                    assert(decreases_to!(vars@ => vars@[i]));
                    assert(decreases_to!(vars@[i] => vars@[i].1));
                    match vars@[i].1 {
                        VariantShape::Unit => {},
                        VariantShape::Newtype(inner) => {
                            assert(decreases_to!(vars@[i].1 => *inner));
                        },
                        VariantShape::Tuple(shapes) => {
                            assert(decreases_to!(vars@[i].1 => shapes));
                            assert(decreases_to!(shapes => shapes@));
                        },
                        VariantShape::Struct(fields) => {
                            assert(decreases_to!(vars@[i].1 => fields));
                            assert(decreases_to!(fields => fields@));
                        },
                    }
                },
                Option::None => {},
            }
        },
        _ => {},
    }
}

/// The dynamic entries a field list serializes to, entry `i` carrying the
/// name of field `i` and its serialized value.
pub open spec fn fields_entries(fs: Seq<(Seq<char>, TypedV)>) -> Seq<(ValueV, ValueV)> {
    Seq::new(fs.len(), |i: int| (ValueV::Str(fs[i].0), spec_ser(fs[i].1)))
}

/// The dynamic entries a mapping's pairs serialize to, entry by entry.
pub open spec fn pairs_entries(ps: Seq<(TypedV, TypedV)>) -> Seq<(ValueV, ValueV)> {
    Seq::new(ps.len(), |i: int| (spec_ser(ps[i].0), spec_ser(ps[i].1)))
}

/// With pairwise distinct field names, none of them already present in the
/// accumulator, building the mapping field by field appends the entries in
/// declaration order.
proof fn lemma_ser_fields_append(fs: Seq<(Seq<char>, TypedV)>, acc: Seq<(ValueV, ValueV)>)
    requires
        forall|i: int, j: int| 0 <= i < j < fs.len() ==> fs[i].0 != fs[j].0,
        forall|i: int, j: int|
            0 <= i < fs.len() && 0 <= j < acc.len() ==> (#[trigger] acc[j]).0 != ValueV::Str(
                (#[trigger] fs[i]).0,
            ),
    ensures
        spec_ser_fields(fs, acc) == acc + fields_entries(fs),
    decreases fs,
{
    if fs.len() == 0 {
        assert(spec_ser_fields(fs, acc) =~= acc + fields_entries(fs));
    } else {
        let acc1 = dict_set(acc, ValueV::Str(fs[0].0), spec_ser(fs[0].1));
        crate::value::lemma_dict_set_absent(acc, ValueV::Str(fs[0].0), spec_ser(fs[0].1));
        assert(acc1 == acc.push((ValueV::Str(fs[0].0), spec_ser(fs[0].1))));
        assert forall|i: int, j: int|
            0 <= i < fs.drop_first().len() && 0 <= j < acc1.len() implies (#[trigger] acc1[j]).0
            != ValueV::Str((#[trigger] fs.drop_first()[i]).0) by {
            assert(fs.drop_first()[i] == fs[i + 1]);
            if j < acc.len() {
                assert(acc[j].0 != ValueV::Str(fs[i + 1].0));
            } else {
                assert(acc1[j] == (ValueV::Str(fs[0].0), spec_ser(fs[0].1)));
                assert(fs[0].0 != fs[i + 1].0);
            }
        }
        lemma_ser_fields_append(fs.drop_first(), acc1);
        assert forall|i: int| 0 <= i < fs.drop_first().len() implies fields_entries(
            fs.drop_first(),
        )[i] == fields_entries(fs)[i + 1] by {
            assert(fs.drop_first()[i] == fs[i + 1]);
        }
        assert(spec_ser_fields(fs, acc) == acc1 + fields_entries(fs.drop_first()));
        assert(acc1 + fields_entries(fs.drop_first()) =~= acc + fields_entries(fs));
    }
}

/// With pairwise distinct serialized keys, none already present in the
/// accumulator, building the mapping pair by pair appends the entries in
/// order.
proof fn lemma_ser_entries_append(ps: Seq<(TypedV, TypedV)>, acc: Seq<(ValueV, ValueV)>)
    requires
        forall|i: int, j: int|
            0 <= i < j < ps.len() ==> spec_ser((#[trigger] ps[i]).0) != spec_ser(
                (#[trigger] ps[j]).0,
            ),
        forall|i: int, j: int|
            0 <= i < ps.len() && 0 <= j < acc.len() ==> (#[trigger] acc[j]).0 != spec_ser(
                (#[trigger] ps[i]).0,
            ),
    ensures
        spec_ser_entries(ps, acc) == acc + pairs_entries(ps),
    decreases ps,
{
    if ps.len() == 0 {
        assert(spec_ser_entries(ps, acc) =~= acc + pairs_entries(ps));
    } else {
        let acc1 = dict_set(acc, spec_ser(ps[0].0), spec_ser(ps[0].1));
        crate::value::lemma_dict_set_absent(acc, spec_ser(ps[0].0), spec_ser(ps[0].1));
        assert(acc1 == acc.push((spec_ser(ps[0].0), spec_ser(ps[0].1))));
        assert forall|i: int, j: int|
            0 <= i < ps.drop_first().len() && 0 <= j < acc1.len() implies (#[trigger] acc1[j]).0
            != spec_ser((#[trigger] ps.drop_first()[i]).0) by {
            assert(ps.drop_first()[i] == ps[i + 1]);
            if j < acc.len() {
                assert(acc[j].0 != spec_ser(ps[i + 1].0));
            } else {
                assert(acc1[j] == (spec_ser(ps[0].0), spec_ser(ps[0].1)));
                assert(spec_ser(ps[0].0) != spec_ser(ps[i + 1].0));
            }
        }
        lemma_ser_entries_append(ps.drop_first(), acc1);
        assert forall|i: int| 0 <= i < ps.drop_first().len() implies pairs_entries(
            ps.drop_first(),
        )[i] == pairs_entries(ps)[i + 1] by {
            assert(ps.drop_first()[i] == ps[i + 1]);
        }
        assert(spec_ser_entries(ps, acc) == acc1 + pairs_entries(ps.drop_first()));
        assert(acc1 + pairs_entries(ps.drop_first()) =~= acc + pairs_entries(ps));
    }
}

/// The octet list a byte sequence serializes to deserializes back to
/// exactly those bytes.
proof fn lemma_bytes_round(b: Seq<u8>)
    ensures
        spec_bytes_elems(Seq::new(b.len(), |i: int| ValueV::Int(b[i] as int))) == Ok::<
            Seq<u8>,
            ErrorV,
        >(b),
    decreases b.len(),
{
    let vs = Seq::new(b.len(), |i: int| ValueV::Int(b[i] as int));
    if b.len() > 0 {
        lemma_bytes_round(b.drop_first());
        let vs1 = Seq::new(b.drop_first().len(), |i: int| ValueV::Int(b.drop_first()[i] as int));
        assert(vs.drop_first() =~= vs1);
        assert(spec_bytes_elems(vs) == Ok::<Seq<u8>, ErrorV>(seq![b[0]] + b.drop_first()));
        assert(seq![b[0]] + b.drop_first() =~= b);
    } else {
        assert(vs =~= Seq::<ValueV>::empty());
        assert(b =~= Seq::<u8>::empty());
    }
}


/// Round trip, element by element: well-formed sequence elements all come
/// back unchanged.
proof fn lemma_rt_elems(elem: Shape, ts: Seq<TypedV>)
    requires
        forall|i: int| 0 <= i < ts.len() ==> wf(elem, #[trigger] ts[i]),
    ensures
        spec_de_elems(elem, spec_ser_elems(ts)) == Ok::<Seq<TypedV>, ErrorV>(ts),
    decreases elem, 2int, ts.len(),
{
    broadcast use lemma_spec_ser_elems;

    let vs = spec_ser_elems(ts);
    if ts.len() == 0 {
        assert(vs =~= Seq::<ValueV>::empty());
        assert(ts =~= Seq::<TypedV>::empty());
    } else {
        lemma_round_trip(elem, ts[0]);
        assert forall|i: int| 0 <= i < ts.drop_first().len() implies wf(
            elem,
            #[trigger] ts.drop_first()[i],
        ) by {
            assert(ts.drop_first()[i] == ts[i + 1]);
        }
        lemma_rt_elems(elem, ts.drop_first());
        assert(vs[0] == spec_ser(ts[0]));
        assert(vs.drop_first() =~= spec_ser_elems(ts.drop_first()));
        assert(seq![ts[0]] + ts.drop_first() =~= ts);
    }
}

/// Round trip of a tuple: each element against its declared shape.
proof fn lemma_rt_tuple(shapes: Seq<Shape>, ts: Seq<TypedV>)
    requires
        ts.len() == shapes.len(),
        forall|i: int| 0 <= i < ts.len() ==> wf(shapes[i], #[trigger] ts[i]),
    ensures
        spec_de_tuple(shapes, spec_ser_elems(ts)) == Ok::<Seq<TypedV>, ErrorV>(ts),
    decreases shapes, 0int, 0int,
{
    broadcast use lemma_spec_ser_elems;

    let vs = spec_ser_elems(ts);
    if shapes.len() == 0 {
        assert(ts =~= Seq::<TypedV>::empty());
    } else {
        lemma_round_trip(shapes[0], ts[0]);
        assert forall|i: int| 0 <= i < ts.drop_first().len() implies wf(
            shapes.drop_first()[i],
            #[trigger] ts.drop_first()[i],
        ) by {
            assert(ts.drop_first()[i] == ts[i + 1]);
            assert(shapes.drop_first()[i] == shapes[i + 1]);
        }
        lemma_rt_tuple(shapes.drop_first(), ts.drop_first());
        assert(vs[0] == spec_ser(ts[0]));
        assert(vs.drop_first() =~= spec_ser_elems(ts.drop_first()));
        assert(seq![ts[0]] + ts.drop_first() =~= ts);
    }
}

/// Round trip of declared struct fields against a mapping in which each
/// declared name finds exactly its field's serialized value.
proof fn lemma_rt_fields(
    fields: Seq<(String, Shape)>,
    fs: Seq<(Seq<char>, TypedV)>,
    es: Seq<(ValueV, ValueV)>,
)
    requires
        fs.len() == fields.len(),
        forall|i: int|
            0 <= i < fields.len() ==> (#[trigger] fs[i]).0 == fields[i].0@ && wf(
                fields[i].1,
                fs[i].1,
            ) && dict_get(es, ValueV::Str(fields[i].0@)) == Option::Some(spec_ser(fs[i].1)),
    ensures
        spec_de_fields(fields, es) == Ok::<Seq<(Seq<char>, TypedV)>, ErrorV>(fs),
    decreases fields, 0int, 0int,
{
    if fields.len() == 0 {
        assert(fs =~= Seq::<(Seq<char>, TypedV)>::empty());
    } else {
        lemma_round_trip(fields[0].1, fs[0].1);
        assert forall|i: int| 0 <= i < fields.drop_first().len() implies (#[trigger] fs.drop_first()[i]).0
            == fields.drop_first()[i].0@ && wf(fields.drop_first()[i].1, fs.drop_first()[i].1)
            && dict_get(es, ValueV::Str(fields.drop_first()[i].0@)) == Option::Some(
            spec_ser(fs.drop_first()[i].1),
        ) by {
            assert(fs.drop_first()[i] == fs[i + 1]);
            assert(fields.drop_first()[i] == fields[i + 1]);
        }
        lemma_rt_fields(fields.drop_first(), fs.drop_first(), es);
        assert(seq![fs[0]] + fs.drop_first() =~= fs);
        assert(fs[0] == (fields[0].0@, fs[0].1));
    }
}

/// Round trip of a mapping's remaining pairs against a mapping in which
/// each serialized key finds exactly its pair's serialized value.
proof fn lemma_rt_pairs(
    mshape: Shape,
    ps: Seq<(TypedV, TypedV)>,
    es: Seq<(ValueV, ValueV)>,
    j: int,
)
    requires
        mshape is Mapping,
        0 <= j <= ps.len(),
        es.len() == ps.len(),
        forall|i: int| 0 <= i < ps.len() ==> #[trigger] es[i] == (spec_ser(ps[i].0), spec_ser(ps[i].1)),
        forall|i: int|
            0 <= i < ps.len() ==> wf(*mshape->Mapping_0, (#[trigger] ps[i]).0) && wf(
                *mshape->Mapping_1,
                ps[i].1,
            ),
        forall|i: int|
            0 <= i < ps.len() ==> dict_get(es, spec_ser((#[trigger] ps[i]).0)) == Option::Some(
                spec_ser(ps[i].1),
            ),
    ensures
        spec_de_pairs(mshape, es, es.skip(j)) == Ok::<Seq<(TypedV, TypedV)>, ErrorV>(ps.skip(j)),
    decreases mshape, 0int, ps.len() - j,
{
    let rest = es.skip(j);
    if j == ps.len() {
        assert(rest =~= Seq::<(ValueV, ValueV)>::empty());
        assert(ps.skip(j) =~= Seq::<(TypedV, TypedV)>::empty());
    } else {
        assert(rest[0] == es[j]);
        lemma_round_trip(*mshape->Mapping_0, ps[j].0);
        lemma_round_trip(*mshape->Mapping_1, ps[j].1);
        lemma_rt_pairs(mshape, ps, es, j + 1);
        assert(rest.drop_first() =~= es.skip(j + 1));
        assert(seq![ps[j]] + ps.skip(j + 1) =~= ps.skip(j));
    }
}

/// Round trip: every value expressible in both models — scalars, strings,
/// bytes, options, units, newtypes, sequences, tuples, mappings, structs,
/// and all four enum-variant forms — deserializes from its own
/// serialization back to itself.
pub proof fn lemma_round_trip(shape: Shape, t: TypedV)
    requires
        wf(shape, t),
    ensures
        spec_de(shape, spec_ser(t)) == Ok::<TypedV, ErrorV>(t),
    decreases shape, 1int, 0int,
{
    broadcast use lemma_spec_ser_elems;

    let v = spec_ser(t);
    match shape {
        Shape::Bool => {},
        Shape::I8 => {},
        Shape::I16 => {},
        Shape::I32 => {},
        Shape::I64 => {},
        Shape::U8 => {},
        Shape::U16 => {},
        Shape::U32 => {},
        Shape::U64 => {},
        Shape::Char => {
            let c = t->Char_0;
            assert(v == ValueV::Str(seq![c]));
            assert(seq![c].len() == 1 && seq![c][0] == c);
        },
        Shape::Str => {},
        Shape::Bytes => {
            let b = t->Bytes_0;
            lemma_bytes_round(b);
        },
        Shape::Opt(inner) => {
            match t->Opt_0 {
                Option::None => {},
                Option::Some(x) => {
                    lemma_round_trip(*inner, *x);
                    assert(TypedV::Opt(Option::Some(Box::new(*x))) == t);
                },
            }
        },
        Shape::Unit => {},
        Shape::UnitStruct => {},
        Shape::NewtypeStruct(inner) => {
            let x = t->NewtypeStruct_0;
            lemma_round_trip(*inner, *x);
            assert(TypedV::NewtypeStruct(Box::new(*x)) == t);
        },
        Shape::Sequence(elem) => {
            lemma_rt_elems(*elem, t->Sequence_0);
        },
        Shape::Tuple(shapes) => {
            lemma_rt_tuple(shapes@, t->Tuple_0);
        },
        Shape::Mapping(kshape, vshape) => {
            let ps = t->Mapping_0;
            lemma_ser_entries_append(ps, Seq::empty());
            let es = pairs_entries(ps);
            assert(spec_ser_entries(ps, Seq::empty()) =~= es);
            assert forall|i: int| 0 <= i < ps.len() implies dict_get(
                es,
                spec_ser((#[trigger] ps[i]).0),
            ) == Option::Some(spec_ser(ps[i].1)) by {
                assert forall|k: int| 0 <= k < i implies (#[trigger] es[k]).0 != spec_ser(
                    ps[i].0,
                ) by {
                    assert(es[k].0 == spec_ser(ps[k].0));
                }
                crate::value::lemma_dict_get_at(es, spec_ser(ps[i].0), i);
            }
            lemma_rt_pairs(shape, ps, es, 0);
            assert(es.skip(0) =~= es);
            assert(ps.skip(0) =~= ps);
        },
        Shape::Struct(fields) => {
            let fs = t->Struct_0;
            assert forall|i: int, j: int| 0 <= i < j < fs.len() implies fs[i].0 != fs[j].0 by {
                assert(fs[i].0 == fields@[i].0@);
                assert(fs[j].0 == fields@[j].0@);
            }
            lemma_ser_fields_append(fs, Seq::empty());
            let es = fields_entries(fs);
            assert(spec_ser_fields(fs, Seq::empty()) =~= es);
            assert forall|i: int| 0 <= i < fields@.len() implies dict_get(
                es,
                ValueV::Str(fields@[i].0@),
            ) == Option::Some(spec_ser(fs[i].1)) by {
                assert forall|k: int| 0 <= k < i implies (#[trigger] es[k]).0 != ValueV::Str(
                    fields@[i].0@,
                ) by {
                    assert(es[k].0 == ValueV::Str(fs[k].0));
                    assert(fs[k].0 == fields@[k].0@);
                }
                assert(es[i].0 == ValueV::Str(fs[i].0) && fs[i].0 == fields@[i].0@);
                crate::value::lemma_dict_get_at(es, ValueV::Str(fields@[i].0@), i);
            }
            lemma_rt_fields(fields@, fs, es);
        },
        Shape::Enum(vars) => {
            match t {
                TypedV::UnitVariant(name) => {
                    lemma_find_variant(vars@, name);
                },
                TypedV::NewtypeVariant(name, x) => {
                    lemma_find_variant(vars@, name);
                    let i = spec_find_variant(vars@, name)->Some_0;
                    let inner = vars@[i].1->Newtype_0;
                    lemma_round_trip(*inner, *x);
                    assert(TypedV::NewtypeVariant(name, Box::new(*x)) == t);
                },
                TypedV::TupleVariant(name, ts) => {
                    lemma_find_variant(vars@, name);
                    let i = spec_find_variant(vars@, name)->Some_0;
                    let shapes = vars@[i].1->Tuple_0;
                    lemma_rt_tuple(shapes@, ts);
                },
                TypedV::StructVariant(name, fs) => {
                    lemma_find_variant(vars@, name);
                    let i = spec_find_variant(vars@, name)->Some_0;
                    let fields = vars@[i].1->Struct_0;
                    assert forall|a: int, b: int| 0 <= a < b < fs.len() implies fs[a].0
                        != fs[b].0 by {
                        assert(fs[a].0 == fields@[a].0@);
                        assert(fs[b].0 == fields@[b].0@);
                    }
                    lemma_ser_fields_append(fs, Seq::empty());
                    let es = fields_entries(fs);
                    assert(spec_ser_fields(fs, Seq::empty()) =~= es);
                    assert forall|a: int| 0 <= a < fields@.len() implies dict_get(
                        es,
                        ValueV::Str(fields@[a].0@),
                    ) == Option::Some(spec_ser(fs[a].1)) by {
                        assert forall|k: int| 0 <= k < a implies (#[trigger] es[k]).0
                            != ValueV::Str(fields@[a].0@) by {
                            assert(es[k].0 == ValueV::Str(fs[k].0));
                            assert(fs[k].0 == fields@[k].0@);
                        }
                        assert(es[a].0 == ValueV::Str(fs[a].0) && fs[a].0 == fields@[a].0@);
                        crate::value::lemma_dict_get_at(es, ValueV::Str(fields@[a].0@), a);
                    }
                    lemma_rt_fields(fields@, fs, es);
                },
                _ => {},
            }
        },
        Shape::Any => {},
    }
}


/// Enum wire convention: a unit variant serializes to the bare string of
/// its name — never to a mapping — and the newtype, tuple and struct forms
/// serialize to a single-entry mapping from the variant name to,
/// respectively, the payload, the payload tuple, and the payload field
/// mapping. That each deserializes back to the original variant is an
/// instance of [`lemma_round_trip`].
pub proof fn lemma_enum_convention(
    name: Seq<char>,
    x: TypedV,
    ts: Seq<TypedV>,
    fs: Seq<(Seq<char>, TypedV)>,
)
    ensures
        spec_ser(TypedV::UnitVariant(name)) == ValueV::Str(name),
        spec_ser(TypedV::NewtypeVariant(name, Box::new(x))) == ValueV::Dict(
            seq![(ValueV::Str(name), spec_ser(x))],
        ),
        spec_ser(TypedV::TupleVariant(name, ts)) == ValueV::Dict(
            seq![(ValueV::Str(name), ValueV::Tuple(spec_ser_elems(ts)))],
        ),
        spec_ser(TypedV::StructVariant(name, fs)) == ValueV::Dict(
            seq![(ValueV::Str(name), ValueV::Dict(spec_ser_fields(fs, Seq::empty())))],
        ),
{
}

/// Option convention: an absent option serializes to null and null
/// deserializes to the absent option; a present option serializes to
/// whatever its payload serializes to, and a non-null value deserializes
/// through the payload shape, its result or error passed on unchanged.
pub proof fn lemma_option(inner: Shape, x: TypedV, v: ValueV)
    ensures
        spec_ser(TypedV::Opt(Option::None)) == ValueV::Null,
        spec_ser(TypedV::Opt(Option::Some(Box::new(x)))) == spec_ser(x),
        spec_de(Shape::Opt(Box::new(inner)), ValueV::Null) == Ok::<TypedV, ErrorV>(
            TypedV::Opt(Option::None),
        ),
        !(v is Null) ==> spec_de(Shape::Opt(Box::new(inner)), v) == (match spec_de(inner, v) {
            Ok(t) => Ok::<TypedV, ErrorV>(TypedV::Opt(Option::Some(Box::new(t)))),
            Err(e) => Err::<TypedV, ErrorV>(e),
        }),
{
}

/// Numeric widening: every signed and unsigned width serializes to the one
/// dynamic integer kind, carrying the value unchanged; deserializing a
/// dynamic integer into a width succeeds exactly when the value fits that
/// width's range, and fails with the integer mismatch otherwise. (The
/// host's floating-point kinds lie outside this model.)
pub proof fn lemma_numeric_widening(n: int, w: ValueV)
    ensures
        spec_ser(TypedV::I8(n)) == ValueV::Int(n),
        spec_ser(TypedV::I16(n)) == ValueV::Int(n),
        spec_ser(TypedV::I32(n)) == ValueV::Int(n),
        spec_ser(TypedV::I64(n)) == ValueV::Int(n),
        spec_ser(TypedV::U8(n)) == ValueV::Int(n),
        spec_ser(TypedV::U16(n)) == ValueV::Int(n),
        spec_ser(TypedV::U32(n)) == ValueV::Int(n),
        spec_ser(TypedV::U64(n)) == ValueV::Int(n),
        w matches ValueV::Int(i) ==> spec_de(Shape::I8, w) == (if i8::MIN <= i <= i8::MAX {
            Ok::<TypedV, ErrorV>(TypedV::I8(i))
        } else {
            Err::<TypedV, ErrorV>(ErrorV::ExpectedInteger)
        }),
        w matches ValueV::Int(i) ==> spec_de(Shape::I16, w) == (if i16::MIN <= i <= i16::MAX {
            Ok::<TypedV, ErrorV>(TypedV::I16(i))
        } else {
            Err::<TypedV, ErrorV>(ErrorV::ExpectedInteger)
        }),
        w matches ValueV::Int(i) ==> spec_de(Shape::I32, w) == (if i32::MIN <= i <= i32::MAX {
            Ok::<TypedV, ErrorV>(TypedV::I32(i))
        } else {
            Err::<TypedV, ErrorV>(ErrorV::ExpectedInteger)
        }),
        w matches ValueV::Int(i) ==> spec_de(Shape::I64, w) == (if i64::MIN <= i <= i64::MAX {
            Ok::<TypedV, ErrorV>(TypedV::I64(i))
        } else {
            Err::<TypedV, ErrorV>(ErrorV::ExpectedInteger)
        }),
        w matches ValueV::Int(i) ==> spec_de(Shape::U8, w) == (if 0 <= i <= u8::MAX {
            Ok::<TypedV, ErrorV>(TypedV::U8(i))
        } else {
            Err::<TypedV, ErrorV>(ErrorV::ExpectedInteger)
        }),
        w matches ValueV::Int(i) ==> spec_de(Shape::U16, w) == (if 0 <= i <= u16::MAX {
            Ok::<TypedV, ErrorV>(TypedV::U16(i))
        } else {
            Err::<TypedV, ErrorV>(ErrorV::ExpectedInteger)
        }),
        w matches ValueV::Int(i) ==> spec_de(Shape::U32, w) == (if 0 <= i <= u32::MAX {
            Ok::<TypedV, ErrorV>(TypedV::U32(i))
        } else {
            Err::<TypedV, ErrorV>(ErrorV::ExpectedInteger)
        }),
        w matches ValueV::Int(i) ==> spec_de(Shape::U64, w) == (if 0 <= i <= u64::MAX {
            Ok::<TypedV, ErrorV>(TypedV::U64(i))
        } else {
            Err::<TypedV, ErrorV>(ErrorV::ExpectedInteger)
        }),
{
}

/// Bytes: a byte-sequence typed value serializes to the ordered dynamic
/// sequence of its octet values and deserializes back to the same bytes;
/// and a buffer-capable dynamic value deserializes into a byte sequence of
/// identical length and content.
pub proof fn lemma_bytes(b: Seq<u8>, v: ValueV)
    ensures
        spec_ser(TypedV::Bytes(b)) == ValueV::List(
            Seq::new(b.len(), |i: int| ValueV::Int(b[i] as int)),
        ),
        spec_de(Shape::Bytes, spec_ser(TypedV::Bytes(b))) == Ok::<TypedV, ErrorV>(TypedV::Bytes(b)),
        v matches ValueV::Bytes(bs) ==> spec_de(Shape::Bytes, v) == Ok::<TypedV, ErrorV>(
            TypedV::Bytes(bs),
        ),
{
    lemma_bytes_round(b);
}

/// With unique keys, the mapping lookup finds a value exactly when the
/// mapping contains that entry.
proof fn lemma_dict_get_unique(es: Seq<(ValueV, ValueV)>, k: ValueV, v: ValueV)
    requires
        dict_keys_unique(es),
    ensures
        dict_get(es, k) == Option::Some(v) <==> es.contains((k, v)),
    decreases es,
{
    if es.len() > 0 {
        assert forall|i: int, j: int|
            0 <= i < j < es.drop_first().len() implies (#[trigger] es.drop_first()[i]).0 != (
        #[trigger] es.drop_first()[j]).0 by {
            assert(es.drop_first()[i] == es[i + 1]);
            assert(es.drop_first()[j] == es[j + 1]);
        }
        lemma_dict_get_unique(es.drop_first(), k, v);
        if es[0].0 == k {
            if es.contains((k, v)) {
                let i = choose|i: int| 0 <= i < es.len() && es[i] == (k, v);
                if i > 0 {
                    assert(es[i].0 == es[0].0);
                    assert(false);
                }
                assert(v == es[0].1);
            }
            if dict_get(es, k) == Option::Some(v) {
                assert(es[0] == (k, v));
                assert(es.contains((k, v)));
            }
        } else {
            if es.contains((k, v)) {
                let i = choose|i: int| 0 <= i < es.len() && es[i] == (k, v);
                assert(i > 0);
                assert(es.drop_first()[i - 1] == (k, v));
                assert(es.drop_first().contains((k, v)));
            }
            if es.drop_first().contains((k, v)) {
                let i = choose|i: int|
                    0 <= i < es.drop_first().len() && es.drop_first()[i] == (k, v);
                assert(es[i + 1] == (k, v));
                assert(es.contains((k, v)));
            }
        }
    }
}

/// With unique keys, a failed lookup means no entry carries the key.
proof fn lemma_dict_get_none(es: Seq<(ValueV, ValueV)>, k: ValueV)
    ensures
        dict_get(es, k) is None <==> forall|i: int| 0 <= i < es.len() ==> (#[trigger] es[i]).0 != k,
    decreases es,
{
    if es.len() > 0 {
        lemma_dict_get_none(es.drop_first(), k);
        if es[0].0 != k {
            assert forall|i: int|
                0 <= i < es.drop_first().len() implies es.drop_first()[i] == es[i + 1] by {}
            if dict_get(es, k) is None {
                assert forall|i: int| 0 <= i < es.len() implies (#[trigger] es[i]).0 != k by {
                    if i > 0 {
                        assert(es.drop_first()[i - 1].0 != k);
                    }
                }
            }
        }
    }
}

/// Field lookups, and hence struct field deserialization, depend only on
/// what the mapping's lookup yields per key.
proof fn lemma_fields_same_gets(
    fields: Seq<(String, Shape)>,
    es1: Seq<(ValueV, ValueV)>,
    es2: Seq<(ValueV, ValueV)>,
)
    requires
        forall|k: ValueV| #[trigger] dict_get(es1, k) == dict_get(es2, k),
    ensures
        spec_de_fields(fields, es1) == spec_de_fields(fields, es2),
    decreases fields,
{
    if fields.len() > 0 {
        lemma_fields_same_gets(fields.drop_first(), es1, es2);
        assert(dict_get(es1, ValueV::Str(fields[0].0@)) == dict_get(
            es2,
            ValueV::Str(fields[0].0@),
        ));
    }
}

/// Map key order: two key-ordered mappings holding the same entries, in
/// whatever order each supplies them, deserialize into a fixed-field
/// struct shape identically.
pub proof fn lemma_struct_key_order(
    shape: Shape,
    es1: Seq<(ValueV, ValueV)>,
    es2: Seq<(ValueV, ValueV)>,
)
    requires
        shape is Struct,
        dict_keys_unique(es1),
        dict_keys_unique(es2),
        es1.to_multiset() == es2.to_multiset(),
    ensures
        spec_de(shape, ValueV::Dict(es1)) == spec_de(shape, ValueV::Dict(es2)),
{
    broadcast use vstd::seq_lib::group_to_multiset_ensures;

    assert forall|k: ValueV| #[trigger] dict_get(es1, k) == dict_get(es2, k) by {
        match dict_get(es1, k) {
            Option::Some(v) => {
                lemma_dict_get_unique(es1, k, v);
                assert(es1.contains((k, v)));
                assert(es1.to_multiset().count((k, v)) > 0);
                assert(es2.contains((k, v)));
                lemma_dict_get_unique(es2, k, v);
            },
            Option::None => {
                lemma_dict_get_none(es1, k);
                match dict_get(es2, k) {
                    Option::Some(v2) => {
                        lemma_dict_get_unique(es2, k, v2);
                        assert(es2.contains((k, v2)));
                        assert(es2.to_multiset().count((k, v2)) > 0);
                        assert(es1.contains((k, v2)));
                        let i = choose|i: int| 0 <= i < es1.len() && es1[i] == (k, v2);
                        assert(es1[i].0 == k);
                        assert(false);
                    },
                    Option::None => {},
                }
            },
        }
    }
    lemma_fields_same_gets(shape->Struct_0@, es1, es2);
}



} // verus!
