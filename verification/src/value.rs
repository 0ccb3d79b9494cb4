//! The dynamic value graph: a stand-in for the host runtime's untyped
//! objects, holding as plain data exactly what the conversion logic reads.
use vstd::prelude::*;

verus! {

/// One dynamic value of the host runtime: null, a boolean, an integer (the
/// host has a single arbitrary-precision integer kind; `i128` covers every
/// integer this library puts into or takes out of it), a text string, a
/// buffer-capable byte string, an ordered sequence (list-like or tuple-like),
/// or a key-ordered mapping whose entries keep insertion order.
#[derive(Debug, PartialEq)]
pub enum Value {
    Null,
    Bool(bool),
    Int(i128),
    Str(String),
    Bytes(Vec<u8>),
    List(Vec<Value>),
    Tuple(Vec<Value>),
    Dict(Vec<(Value, Value)>),
}

/// Mathematical model of a [`Value`].
#[verifier::ext_equal]
pub enum ValueV {
    Null,
    Bool(bool),
    Int(int),
    Str(Seq<char>),
    Bytes(Seq<u8>),
    List(Seq<ValueV>),
    Tuple(Seq<ValueV>),
    Dict(Seq<(ValueV, ValueV)>),
}

impl View for Value {
    type V = ValueV;

    open spec fn view(&self) -> ValueV
        decreases self,
    {
        match self {
            Value::Null => ValueV::Null,
            Value::Bool(b) => ValueV::Bool(*b),
            Value::Int(i) => ValueV::Int(*i as int),
            Value::Str(s) => ValueV::Str(s@),
            Value::Bytes(b) => ValueV::Bytes(b@),
            Value::List(vs) => ValueV::List(view_values(vs@)),
            Value::Tuple(vs) => ValueV::Tuple(view_values(vs@)),
            Value::Dict(es) => ValueV::Dict(view_entries(es@)),
        }
    }
}

/// The models of a sequence of values, element by element.
pub open spec fn view_values(s: Seq<Value>) -> Seq<ValueV>
    decreases s,
{
    if s.len() == 0 {
        Seq::empty()
    } else {
        seq![s[0]@] + view_values(s.drop_first())
    }
}

/// The models of a sequence of mapping entries, entry by entry.
pub open spec fn view_entries(s: Seq<(Value, Value)>) -> Seq<(ValueV, ValueV)>
    decreases s,
{
    if s.len() == 0 {
        Seq::empty()
    } else {
        seq![(s[0].0@, s[0].1@)] + view_entries(s.drop_first())
    }
}

/// `view_values` is the pointwise model of its argument.
pub broadcast proof fn lemma_view_values(s: Seq<Value>)
    ensures
        (#[trigger] view_values(s)).len() == s.len(),
        forall|i: int| 0 <= i < s.len() ==> #[trigger] view_values(s)[i] == s[i]@,
    decreases s,
{
    if s.len() > 0 {
        lemma_view_values(s.drop_first());
        assert(view_values(s) == seq![s[0]@] + view_values(s.drop_first()));
        assert(view_values(s).len() == s.len());
        assert forall|i: int| 0 <= i < s.len() implies view_values(s)[i] == s[i]@ by {
            if i == 0 {
                assert(view_values(s)[0] == s[0]@);
            } else {
                assert(view_values(s)[i] == view_values(s.drop_first())[i - 1]);
                assert(view_values(s.drop_first())[i - 1] == s.drop_first()[i - 1]@);
                assert(s.drop_first()[i - 1] == s[i]);
            }
        }
    }
}

/// `view_entries` is the pointwise model of its argument.
pub broadcast proof fn lemma_view_entries(s: Seq<(Value, Value)>)
    ensures
        (#[trigger] view_entries(s)).len() == s.len(),
        forall|i: int| 0 <= i < s.len() ==> #[trigger] view_entries(s)[i] == (s[i].0@, s[i].1@),
    decreases s,
{
    if s.len() > 0 {
        lemma_view_entries(s.drop_first());
        assert(view_entries(s) == seq![(s[0].0@, s[0].1@)] + view_entries(s.drop_first()));
        assert(view_entries(s).len() == s.len());
        assert forall|i: int| 0 <= i < s.len() implies view_entries(s)[i] == (s[i].0@, s[i].1@) by {
            if i == 0 {
                assert(view_entries(s)[0] == (s[0].0@, s[0].1@));
            } else {
                assert(view_entries(s)[i] == view_entries(s.drop_first())[i - 1]);
                assert(view_entries(s.drop_first())[i - 1] == (s.drop_first()[i - 1].0@, s.drop_first()[i - 1].1@));
                assert(s.drop_first()[i - 1] == s[i]);
            }
        }
    }
}


/// Value of the first entry of `es` whose key is `k`, if any. A key-ordered
/// mapping has unique keys, so this is the mapping's lookup.
pub open spec fn dict_get(es: Seq<(ValueV, ValueV)>, k: ValueV) -> Option<ValueV>
    decreases es,
{
    if es.len() == 0 {
        Option::None
    } else if es[0].0 == k {
        Option::Some(es[0].1)
    } else {
        dict_get(es.drop_first(), k)
    }
}

/// Key-ordered mapping update: if `k` is present its value is replaced in
/// place (insertion order kept), otherwise the entry is appended.
pub open spec fn dict_set(es: Seq<(ValueV, ValueV)>, k: ValueV, v: ValueV) -> Seq<(ValueV, ValueV)>
    decreases es,
{
    if es.len() == 0 {
        seq![(k, v)]
    } else if es[0].0 == k {
        seq![(k, v)] + es.drop_first()
    } else {
        seq![es[0]] + dict_set(es.drop_first(), k, v)
    }
}

/// No two entries share a key: the invariant every host mapping has.
pub open spec fn dict_keys_unique(es: Seq<(ValueV, ValueV)>) -> bool {
    forall|i: int, j: int| 0 <= i < j < es.len() ==> es[i].0 != es[j].0
}

/// Deep equality of two dynamic values: equality of their models.
pub fn value_eq(a: &Value, b: &Value) -> (r: bool)
    ensures
        r == (a@ == b@),
    decreases *a,
{
    match a {
        Value::Null => match b {
            Value::Null => true,
            _ => false,
        },
        Value::Bool(x) => match b {
            Value::Bool(y) => x == y,
            _ => false,
        },
        Value::Int(x) => match b {
            Value::Int(y) => x == y,
            _ => false,
        },
        Value::Str(x) => match b {
            Value::Str(y) => x.eq(y),
            _ => false,
        },
        Value::Bytes(x) => match b {
            Value::Bytes(y) => {
                let r = x == y;
                proof {
                    if r {
                        assert(x@ =~= y@);
                    } else {
                        assert(x@ != y@);
                    }
                }
                r
            },
            _ => false,
        },
        Value::List(x) => match b {
            Value::List(y) => values_eq(x, y),
            _ => false,
        },
        Value::Tuple(x) => match b {
            Value::Tuple(y) => values_eq(x, y),
            _ => false,
        },
        Value::Dict(x) => match b {
            Value::Dict(y) => entries_eq(x, y),
            _ => false,
        },
    }
}

/// Deep equality of two sequences of dynamic values.
#[verifier::loop_isolation(false)]
pub fn values_eq(x: &Vec<Value>, y: &Vec<Value>) -> (r: bool)
    ensures
        r == (view_values(x@) == view_values(y@)),
    decreases x@,
{
    broadcast use lemma_view_values;

    if x.len() != y.len() {
        return false;
    }
    let n = x.len();
    let mut i: usize = 0;
    while i < n
        invariant
            n == x@.len() == y@.len(),
            i <= n,
            forall|j: int| 0 <= j < i ==> view_values(x@)[j] == view_values(y@)[j],
        decreases n - i,
    {
        proof {
            assert(decreases_to!(x@ => x@[i as int]));
        }
        if !value_eq(&x[i], &y[i]) {
            proof {
                assert(view_values(x@)[i as int] != view_values(y@)[i as int]);
            }
            return false;
        }
        i += 1;
    }
    proof {
        assert(view_values(x@) =~= view_values(y@));
    }
    true
}

/// Deep equality of two sequences of mapping entries.
#[verifier::loop_isolation(false)]
pub fn entries_eq(x: &Vec<(Value, Value)>, y: &Vec<(Value, Value)>) -> (r: bool)
    ensures
        r == (view_entries(x@) == view_entries(y@)),
    decreases x@,
{
    broadcast use lemma_view_entries;

    if x.len() != y.len() {
        return false;
    }
    let n = x.len();
    let mut i: usize = 0;
    while i < n
        invariant
            n == x@.len() == y@.len(),
            i <= n,
            forall|j: int| 0 <= j < i ==> view_entries(x@)[j] == view_entries(y@)[j],
        decreases n - i,
    {
        proof {
            assert(decreases_to!(x@ => x@[i as int]));
            assert(decreases_to!(x@[i as int] => x@[i as int].0));
        }
        let ke = value_eq(&x[i].0, &y[i].0);
        let ve = if ke { value_eq(&x[i].1, &y[i].1) } else { false };
        if !(ke && ve) {
            proof {
                assert(view_entries(x@)[i as int] != view_entries(y@)[i as int]);
            }
            return false;
        }
        i += 1;
    }
    proof {
        assert(view_entries(x@) =~= view_entries(y@));
    }
    true
}

/// Mapping update on the dynamic representation, with [`dict_set`]'s
/// semantics: replace in place if the key is present, else append.
#[verifier::loop_isolation(false)]
pub fn dict_set_item(es: &mut Vec<(Value, Value)>, k: Value, v: Value)
    ensures
        view_entries(final(es)@) == dict_set(view_entries(old(es)@), k@, v@),
{
    broadcast use lemma_view_entries;

    let n = es.len();
    let mut i: usize = 0;
    while i < n
        invariant
            es@ == old(es)@,
            n == es@.len(),
            i <= n,
            forall|j: int| 0 <= j < i ==> view_entries(es@)[j].0 != k@,
        decreases n - i,
    {
        if value_eq(&es[i].0, &k) {
            es[i] = (k, v);
            proof {
                lemma_dict_set_at(view_entries(old(es)@), k@, v@, i as int);
                assert(view_entries(es@) =~= view_entries(old(es)@).update(i as int, (k@, v@)));
            }
            return;
        }
        i += 1;
    }
    es.push((k, v));
    proof {
        lemma_dict_set_absent(view_entries(old(es)@), k@, v@);
        assert(view_entries(es@) =~= view_entries(old(es)@).push((k@, v@)));
    }
}

/// When the first occurrence of `k` in `es` is at position `i`, `dict_set`
/// is an in-place update at `i`.
pub proof fn lemma_dict_set_at(es: Seq<(ValueV, ValueV)>, k: ValueV, v: ValueV, i: int)
    requires
        0 <= i < es.len(),
        es[i].0 == k,
        forall|j: int| 0 <= j < i ==> es[j].0 != k,
    ensures
        dict_set(es, k, v) == es.update(i, (k, v)),
    decreases es,
{
    if i == 0 {
        assert(dict_set(es, k, v) =~= es.update(0, (k, v)));
    } else {
        lemma_dict_set_at(es.drop_first(), k, v, i - 1);
        assert(dict_set(es, k, v) =~= es.update(i, (k, v)));
    }
}

/// When `k` is absent from `es`, `dict_set` appends the entry.
pub proof fn lemma_dict_set_absent(es: Seq<(ValueV, ValueV)>, k: ValueV, v: ValueV)
    requires
        forall|j: int| 0 <= j < es.len() ==> es[j].0 != k,
    ensures
        dict_set(es, k, v) == es.push((k, v)),
    decreases es,
{
    if es.len() == 0 {
        assert(dict_set(es, k, v) =~= es.push((k, v)));
    } else {
        lemma_dict_set_absent(es.drop_first(), k, v);
        assert(dict_set(es, k, v) =~= es.push((k, v)));
    }
}

/// Mapping lookup on the dynamic representation, with [`dict_get`]'s
/// semantics: the value of the first entry whose key equals `k`.
#[verifier::loop_isolation(false)]
pub fn dict_get_item<'a>(es: &'a Vec<(Value, Value)>, k: &Value) -> (r: Option<&'a Value>)
    ensures
        match r {
            Option::Some(v) => dict_get(view_entries(es@), k@) == Option::Some(v@),
            Option::None => dict_get(view_entries(es@), k@) is None,
        },
{
    broadcast use lemma_view_entries;

    let n = es.len();
    let mut i: usize = 0;
    while i < n
        invariant
            n == es@.len(),
            i <= n,
            forall|j: int| 0 <= j < i ==> view_entries(es@)[j].0 != k@,
        decreases n - i,
    {
        if value_eq(&es[i].0, k) {
            proof {
                lemma_dict_get_at(view_entries(es@), k@, i as int);
            }
            return Option::Some(&es[i].1);
        }
        i += 1;
    }
    proof {
        lemma_dict_get_absent(view_entries(es@), k@);
    }
    Option::None
}

/// When the first occurrence of `k` in `es` is at position `i`, `dict_get`
/// returns that entry's value.
pub proof fn lemma_dict_get_at(es: Seq<(ValueV, ValueV)>, k: ValueV, i: int)
    requires
        0 <= i < es.len(),
        es[i].0 == k,
        forall|j: int| 0 <= j < i ==> es[j].0 != k,
    ensures
        dict_get(es, k) == Option::Some(es[i].1),
    decreases es,
{
    if i > 0 {
        lemma_dict_get_at(es.drop_first(), k, i - 1);
    }
}

/// When `k` is absent from `es`, `dict_get` finds nothing.
pub proof fn lemma_dict_get_absent(es: Seq<(ValueV, ValueV)>, k: ValueV)
    requires
        forall|j: int| 0 <= j < es.len() ==> es[j].0 != k,
    ensures
        dict_get(es, k) is None,
    decreases es,
{
    if es.len() > 0 {
        lemma_dict_get_absent(es.drop_first(), k);
    }
}





} // verus!
