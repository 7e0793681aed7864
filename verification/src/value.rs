//! The dynamic event model: a recursive tagged value with typed, optional
//! accessors, and field lookup along dotted paths. Contracts speak of a
//! value's mathematical model, `ValModel`, in which strings are character
//! sequences.

use vstd::prelude::*;
use vstd::string::StrSliceExecFns;

verus! {

/// A dynamically typed value, as carried by telemetry events: null, boolean,
/// integer, string, array, or object. Object fields keep the order in which
/// they were built; lookup takes the first binding of a key.
#[derive(Debug, PartialEq)]
pub enum Value {
    Null,
    Bool(bool),
    Int(i64),
    Str(String),
    Arr(Vec<Value>),
    Obj(Vec<(String, Value)>),
}

/// The mathematical shape of a value: strings as character sequences,
/// arrays and objects as sequences. Two values with one model are
/// indistinguishable to every rule.
pub enum ValModel {
    Null,
    Bool(bool),
    Int(i64),
    Str(Seq<char>),
    Arr(Seq<ValModel>),
    Obj(Seq<(Seq<char>, ValModel)>),
}

/// The model of a value.
pub open spec fn val_model(v: Value) -> ValModel
    decreases v, 0int,
    via val_model_dec
{
    match v {
        Value::Null => ValModel::Null,
        Value::Bool(b) => ValModel::Bool(b),
        Value::Int(n) => ValModel::Int(n),
        Value::Str(s) => ValModel::Str(s@),
        Value::Arr(items) => ValModel::Arr(vals_model(items@)),
        Value::Obj(fields) => ValModel::Obj(fields_model(fields@)),
    }
}

/// The models of a sequence of values, in order.
pub open spec fn vals_model(s: Seq<Value>) -> Seq<ValModel>
    decreases s, 1int,
{
    if s.len() == 0 {
        Seq::empty()
    } else {
        seq![val_model(s[0])] + vals_model(s.drop_first())
    }
}

/// The models of an object's fields, in order.
pub open spec fn fields_model(s: Seq<(String, Value)>) -> Seq<(Seq<char>, ValModel)>
    decreases s, 1int,
    via fields_model_dec
{
    if s.len() == 0 {
        Seq::empty()
    } else {
        seq![(s[0].0@, val_model(s[0].1))] + fields_model(s.drop_first())
    }
}

#[via_fn]
proof fn val_model_dec(v: Value) {
    match v {
        Value::Arr(items) => {
            assert(decreases_to!(v => v->Arr_0));
            assert(v->Arr_0 == items);
            assert(decreases_to!(items => items@));
        },
        Value::Obj(fields) => {
            assert(decreases_to!(v => v->Obj_0));
            assert(v->Obj_0 == fields);
            assert(decreases_to!(fields => fields@));
        },
        _ => {},
    }
}

#[via_fn]
proof fn fields_model_dec(s: Seq<(String, Value)>) {
    if s.len() > 0 {
        assert(decreases_to!(s => s[0]));
        assert(decreases_to!(s[0] => s[0].1));
    }
}

/// `vals_model` maps the sequence pointwise.
pub proof fn lemma_vals_model_index(s: Seq<Value>)
    ensures
        vals_model(s).len() == s.len(),
        forall|i: int| 0 <= i < s.len() ==> #[trigger] vals_model(s)[i] == val_model(s[i]),
    decreases s.len(),
{
    if s.len() > 0 {
        lemma_vals_model_index(s.drop_first());
    }
}

/// `fields_model` maps the field list pointwise.
pub proof fn lemma_fields_model_index(s: Seq<(String, Value)>)
    ensures
        fields_model(s).len() == s.len(),
        forall|i: int|
            0 <= i < s.len() ==> #[trigger] fields_model(s)[i] == (s[i].0@, val_model(s[i].1)),
    decreases s.len(),
{
    if s.len() > 0 {
        lemma_fields_model_index(s.drop_first());
    }
}

/// The first binding of `key` among the modelled `fields`, if any.
pub open spec fn m_obj_lookup(fields: Seq<(Seq<char>, ValModel)>, key: Seq<char>) -> Option<
    ValModel,
>
    decreases fields.len(),
{
    if fields.len() == 0 {
        None
    } else if fields[0].0 == key {
        Some(fields[0].1)
    } else {
        m_obj_lookup(fields.drop_first(), key)
    }
}

/// Walking a dotted path: each segment selects a field of an object; a path
/// into anything but an object, or naming an absent field, yields `None`.
pub open spec fn m_lookup(v: ValModel, path: Seq<Seq<char>>) -> Option<ValModel>
    decreases path.len(),
{
    if path.len() == 0 {
        Some(v)
    } else {
        match v {
            ValModel::Obj(fields) => match m_obj_lookup(fields, path[0]) {
                Some(w) => m_lookup(w, path.drop_first()),
                None => None,
            },
            _ => None,
        }
    }
}

/// The view of a list of path segments as a sequence of character sequences.
pub open spec fn path_view(path: Seq<String>) -> Seq<Seq<char>> {
    path.map_values(|s: String| s@)
}

impl Value {
    /// The string payload, if this value is a string.
    pub fn as_str(&self) -> (r: Option<&String>)
        ensures
            match r {
                Some(s) => *self matches Value::Str(t) && t == s,
                None => !(*self is Str),
            },
    {
        match self {
            Value::Str(s) => Some(s),
            _ => None,
        }
    }

    /// The integer payload, if this value is an integer.
    pub fn as_int(&self) -> (r: Option<i64>)
        ensures
            match r {
                Some(n) => *self == Value::Int(n),
                None => !(*self is Int),
            },
    {
        match self {
            Value::Int(n) => Some(*n),
            _ => None,
        }
    }

    /// A deep copy of this value, with the same model.
    pub fn duplicate(&self) -> (r: Value)
        ensures
            val_model(r) == val_model(*self),
        decreases self,
    {
        match self {
            Value::Null => Value::Null,
            Value::Bool(b) => Value::Bool(*b),
            Value::Int(n) => Value::Int(*n),
            Value::Str(s) => Value::Str(s.clone()),
            Value::Arr(items) => {
                let mut out: Vec<Value> = Vec::new();
                let n = items.len();
                let mut i: usize = 0;
                while i < n
                    invariant
                        i <= n,
                        n == items.len(),
                        *self == Value::Arr(*items),
                        out@.len() == i,
                        forall|j: int|
                            0 <= j < i ==> #[trigger] val_model(out@[j]) == val_model(items@[j]),
                    decreases n - i,
                {
                    proof {
                        assert(decreases_to!(*self => self->Arr_0));
                        assert(self->Arr_0 == items);
                        assert(decreases_to!(*items => items@));
                        assert(decreases_to!(items@ => items@[i as int]));
                    }
                    let item = items[i].duplicate();
                    out.push(item);
                    i = i + 1;
                }
                proof {
                    lemma_vals_model_index(out@);
                    lemma_vals_model_index(items@);
                    assert(vals_model(out@) =~= vals_model(items@));
                }
                Value::Arr(out)
            },
            Value::Obj(fields) => {
                let mut out: Vec<(String, Value)> = Vec::new();
                let n = fields.len();
                let mut i: usize = 0;
                while i < n
                    invariant
                        i <= n,
                        n == fields.len(),
                        *self == Value::Obj(*fields),
                        out@.len() == i,
                        forall|j: int|
                            0 <= j < i ==> #[trigger] out@[j].0@ == fields@[j].0@ && val_model(
                                out@[j].1,
                            ) == val_model(fields@[j].1),
                    decreases n - i,
                {
                    proof {
                        assert(decreases_to!(*self => self->Obj_0));
                        assert(self->Obj_0 == fields);
                        assert(decreases_to!(*fields => fields@));
                        assert(decreases_to!(fields@ => fields@[i as int]));
                        assert(decreases_to!(fields@[i as int] => fields@[i as int].1));
                    }
                    let key = fields[i].0.clone();
                    let val = fields[i].1.duplicate();
                    out.push((key, val));
                    i = i + 1;
                }
                proof {
                    lemma_fields_model_index(out@);
                    lemma_fields_model_index(fields@);
                    assert(fields_model(out@) =~= fields_model(fields@));
                }
                Value::Obj(out)
            },
        }
    }
}

/// Deep equality of two values: equality of their models, decided
/// recursively.
pub fn value_eq(a: &Value, b: &Value) -> (r: bool)
    ensures
        r == (val_model(*a) == val_model(*b)),
    decreases a,
{
    match (a, b) {
        (Value::Null, Value::Null) => true,
        (Value::Bool(x), Value::Bool(y)) => *x == *y,
        (Value::Int(x), Value::Int(y)) => *x == *y,
        (Value::Str(x), Value::Str(y)) => *x == *y,
        (Value::Arr(xs), Value::Arr(ys)) => {
            proof {
                lemma_vals_model_index(xs@);
                lemma_vals_model_index(ys@);
            }
            if xs.len() != ys.len() {
                return false;
            }
            let n = xs.len();
            let mut i: usize = 0;
            while i < n
                invariant
                    i <= n,
                    n == xs.len() == ys.len(),
                    *a == Value::Arr(*xs),
                    *b == Value::Arr(*ys),
                    vals_model(xs@).len() == n,
                    vals_model(ys@).len() == n,
                    forall|j: int|
                        0 <= j < n ==> #[trigger] vals_model(xs@)[j] == val_model(xs@[j]),
                    forall|j: int|
                        0 <= j < n ==> #[trigger] vals_model(ys@)[j] == val_model(ys@[j]),
                    forall|j: int| 0 <= j < i ==> val_model(xs@[j]) == val_model(ys@[j]),
                decreases n - i,
            {
                proof {
                    assert(decreases_to!(*a => a->Arr_0));
                    assert(a->Arr_0 == xs);
                    assert(decreases_to!(*xs => xs@));
                    assert(decreases_to!(xs@ => xs@[i as int]));
                }
                if !value_eq(&xs[i], &ys[i]) {
                    assert(vals_model(xs@)[i as int] != vals_model(ys@)[i as int]);
                    return false;
                }
                i = i + 1;
            }
            assert(vals_model(xs@) =~= vals_model(ys@));
            true
        },
        (Value::Obj(xs), Value::Obj(ys)) => {
            proof {
                lemma_fields_model_index(xs@);
                lemma_fields_model_index(ys@);
            }
            if xs.len() != ys.len() {
                return false;
            }
            let n = xs.len();
            let mut i: usize = 0;
            while i < n
                invariant
                    i <= n,
                    n == xs.len() == ys.len(),
                    *a == Value::Obj(*xs),
                    *b == Value::Obj(*ys),
                    fields_model(xs@).len() == n,
                    fields_model(ys@).len() == n,
                    forall|j: int|
                        0 <= j < n ==> #[trigger] fields_model(xs@)[j] == (
                            xs@[j].0@,
                            val_model(xs@[j].1),
                        ),
                    forall|j: int|
                        0 <= j < n ==> #[trigger] fields_model(ys@)[j] == (
                            ys@[j].0@,
                            val_model(ys@[j].1),
                        ),
                    forall|j: int|
                        0 <= j < i ==> xs@[j].0@ == ys@[j].0@ && val_model(xs@[j].1) == val_model(
                            ys@[j].1,
                        ),
                decreases n - i,
            {
                if !(xs[i].0 == ys[i].0) {
                    assert(fields_model(xs@)[i as int] != fields_model(ys@)[i as int]);
                    return false;
                }
                proof {
                    assert(decreases_to!(*a => a->Obj_0));
                    assert(a->Obj_0 == xs);
                    assert(decreases_to!(*xs => xs@));
                    assert(decreases_to!(xs@ => xs@[i as int]));
                    assert(decreases_to!(xs@[i as int] => xs@[i as int].1));
                }
                if !value_eq(&xs[i].1, &ys[i].1) {
                    assert(fields_model(xs@)[i as int] != fields_model(ys@)[i as int]);
                    return false;
                }
                i = i + 1;
            }
            assert(fields_model(xs@) =~= fields_model(ys@));
            true
        },
        _ => false,
    }
}

/// The first binding of `key` in `fields`, as `m_obj_lookup` gives it on the
/// fields' models.
pub fn obj_get<'a>(fields: &'a Vec<(String, Value)>, key: &str) -> (r: Option<&'a Value>)
    ensures
        match r {
            Some(w) => m_obj_lookup(fields_model(fields@), key@) == Some(val_model(*w)),
            None => m_obj_lookup(fields_model(fields@), key@) is None,
        },
{
    proof {
        lemma_fields_model_index(fields@);
        assert(fields_model(fields@).skip(0) =~= fields_model(fields@));
    }
    let n = fields.len();
    let mut i: usize = 0;
    while i < n
        invariant
            i <= n,
            n == fields.len(),
            fields_model(fields@).len() == n,
            forall|j: int|
                0 <= j < n ==> #[trigger] fields_model(fields@)[j] == (
                    fields@[j].0@,
                    val_model(fields@[j].1),
                ),
            m_obj_lookup(fields_model(fields@), key@) == m_obj_lookup(
                fields_model(fields@).skip(i as int),
                key@,
            ),
        decreases n - i,
    {
        proof {
            assert(fields_model(fields@).skip(i as int)[0] == fields_model(fields@)[i as int]);
            assert(fields_model(fields@).skip(i as int).drop_first() =~= fields_model(
                fields@,
            ).skip(i + 1));
        }
        if str_eq(fields[i].0.as_str(), key) {
            return Some(&fields[i].1);
        }
        i = i + 1;
    }
    assert(fields_model(fields@).skip(n as int) =~= Seq::<(Seq<char>, ValModel)>::empty());
    None
}

/// Follows a dotted path, segment by segment, from `v`.
pub fn get_path<'a>(v: &'a Value, path: &Vec<String>) -> (r: Option<&'a Value>)
    ensures
        match r {
            Some(w) => m_lookup(val_model(*v), path_view(path@)) == Some(val_model(*w)),
            None => m_lookup(val_model(*v), path_view(path@)) is None,
        },
{
    let n = path.len();
    let mut cur: &Value = v;
    let mut i: usize = 0;
    proof {
        assert(path_view(path@).skip(0) =~= path_view(path@));
    }
    while i < n
        invariant
            i <= n,
            n == path.len(),
            m_lookup(val_model(*v), path_view(path@)) == m_lookup(
                val_model(*cur),
                path_view(path@).skip(i as int),
            ),
        decreases n - i,
    {
        proof {
            assert(path_view(path@).skip(i as int)[0] == path@[i as int]@);
            assert(path_view(path@).skip(i as int).drop_first() =~= path_view(path@).skip(i + 1));
        }
        match cur {
            Value::Obj(fields) => {
                match obj_get(fields, path[i].as_str()) {
                    Some(w) => {
                        cur = w;
                    },
                    None => {
                        return None;
                    },
                }
            },
            _ => {
                return None;
            },
        }
        i = i + 1;
    }
    assert(path_view(path@).skip(n as int) =~= Seq::<Seq<char>>::empty());
    Some(cur)
}

/// Equality of two string slices, decided character by character.
pub fn str_eq(a: &str, b: &str) -> (r: bool)
    ensures
        r == (a@ == b@),
{
    let na = a.unicode_len();
    let nb = b.unicode_len();
    if na != nb {
        return false;
    }
    let mut i: usize = 0;
    while i < na
        invariant
            i <= na,
            na == a@.len() == b@.len(),
            forall|j: int| 0 <= j < i ==> a@[j] == b@[j],
        decreases na - i,
    {
        if a.get_char(i) != b.get_char(i) {
            return false;
        }
        i = i + 1;
    }
    assert(a@ =~= b@);
    true
}

} // verus!
