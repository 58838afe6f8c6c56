use vstd::prelude::*;
use crate::convert::util::str_eq;

verus! {

/// The mathematical shape of a document value.
pub enum ValueView {
    Null,
    Bool(bool),
    Num(int),
    Str(Seq<char>),
    Arr(Seq<ValueView>),
    Obj(Seq<(Seq<char>, ValueView)>),
}

/// A semi-structured document value with five kinds of content: null,
/// booleans, integers, strings, ordered arrays, and objects whose string keys
/// keep their insertion order.
#[derive(Debug)]
pub enum Value {
    Null,
    Bool(bool),
    Num(i64),
    Str(String),
    Arr(Vec<Value>),
    Obj(Vec<(String, Value)>),
}

/// The view of an array's members.
pub open spec fn spec_arr_view(xs: Seq<Value>) -> Seq<ValueView>
    decreases xs,
{
    if xs.len() == 0 {
        Seq::empty()
    } else {
        spec_arr_view(xs.subrange(0, xs.len() - 1)).push(value_view(xs[xs.len() - 1]))
    }
}

/// The view of an object's fields.
pub open spec fn spec_fields_view(fs: Seq<(String, Value)>) -> Seq<(Seq<char>, ValueView)>
    decreases fs,
{
    if fs.len() == 0 {
        Seq::empty()
    } else {
        spec_fields_view(fs.subrange(0, fs.len() - 1)).push(
            (fs[fs.len() - 1].0@, value_view(fs[fs.len() - 1].1)),
        )
    }
}

/// The view of a document value.
pub open spec fn value_view(v: Value) -> ValueView
    decreases v,
{
    match v {
        Value::Null => ValueView::Null,
        Value::Bool(b) => ValueView::Bool(b),
        Value::Num(n) => ValueView::Num(n as int),
        Value::Str(s) => ValueView::Str(s@),
        Value::Arr(a) => ValueView::Arr(spec_arr_view(a@)),
        Value::Obj(o) => ValueView::Obj(spec_fields_view(o@)),
    }
}

pub broadcast proof fn lemma_arr_view_len(xs: Seq<Value>)
    ensures
        #[trigger] spec_arr_view(xs).len() == xs.len(),
    decreases xs.len(),
{
    if xs.len() > 0 {
        lemma_arr_view_len(xs.subrange(0, xs.len() - 1));
    }
}

pub broadcast proof fn lemma_arr_view_index(xs: Seq<Value>, i: int)
    requires
        0 <= i < xs.len(),
    ensures
        #[trigger] spec_arr_view(xs)[i] == value_view(xs[i]),
    decreases xs.len(),
{
    lemma_arr_view_len(xs);
    if i < xs.len() - 1 {
        lemma_arr_view_index(xs.subrange(0, xs.len() - 1), i);
        lemma_arr_view_len(xs.subrange(0, xs.len() - 1));
    }
}

pub broadcast proof fn lemma_fields_view_len(fs: Seq<(String, Value)>)
    ensures
        #[trigger] spec_fields_view(fs).len() == fs.len(),
    decreases fs.len(),
{
    if fs.len() > 0 {
        lemma_fields_view_len(fs.subrange(0, fs.len() - 1));
    }
}

pub broadcast proof fn lemma_fields_view_index(fs: Seq<(String, Value)>, i: int)
    requires
        0 <= i < fs.len(),
    ensures
        #[trigger] spec_fields_view(fs)[i] == (fs[i].0@, value_view(fs[i].1)),
    decreases fs.len(),
{
    lemma_fields_view_len(fs);
    if i < fs.len() - 1 {
        lemma_fields_view_index(fs.subrange(0, fs.len() - 1), i);
        lemma_fields_view_len(fs.subrange(0, fs.len() - 1));
    }
}

pub proof fn lemma_arr_view_push(xs: Seq<Value>, x: Value)
    ensures
        spec_arr_view(xs.push(x)) == spec_arr_view(xs).push(value_view(x)),
{
    let p = xs.push(x);
    assert(p.subrange(0, p.len() - 1) =~= xs);
}

pub proof fn lemma_arr_view_update(xs: Seq<Value>, i: int, x: Value)
    requires
        0 <= i < xs.len(),
    ensures
        spec_arr_view(xs.update(i, x)) == spec_arr_view(xs).update(i, value_view(x)),
{
    let a = spec_arr_view(xs.update(i, x));
    let b = spec_arr_view(xs).update(i, value_view(x));
    lemma_arr_view_len(xs.update(i, x));
    lemma_arr_view_len(xs);
    assert forall|j: int| 0 <= j < xs.len() implies a[j] == b[j] by {
        lemma_arr_view_index(xs.update(i, x), j);
        lemma_arr_view_index(xs, j);
    }
    assert(a =~= b);
}

impl View for Value {
    type V = ValueView;

    open spec fn view(&self) -> ValueView {
        value_view(*self)
    }
}

impl DeepView for Value {
    type V = ValueView;

    open spec fn deep_view(&self) -> ValueView {
        value_view(*self)
    }
}

/// The value stored under `key` in the field list `fields` (first match), or
/// `Null` when the key does not occur.
pub open spec fn spec_get_fields(fields: Seq<(Seq<char>, ValueView)>, key: Seq<char>) -> ValueView
    decreases fields.len(),
{
    if fields.len() == 0 {
        ValueView::Null
    } else if fields[0].0 == key {
        fields[0].1
    } else {
        spec_get_fields(fields.drop_first(), key)
    }
}

/// The value stored under `key` in `v`: `Null` when `v` is not an object or
/// does not hold the key, mirroring lookup in the source document.
pub open spec fn spec_get(v: ValueView, key: Seq<char>) -> ValueView {
    match v {
        ValueView::Obj(fields) => spec_get_fields(fields, key),
        _ => ValueView::Null,
    }
}

/// The fields of an object value; other values have none.
pub open spec fn spec_obj_fields(v: ValueView) -> Seq<(Seq<char>, ValueView)> {
    match v {
        ValueView::Obj(fs) => fs,
        _ => Seq::empty(),
    }
}

/// Whether the field list `fields` holds a field named `key`.
pub open spec fn spec_fields_have_key(fields: Seq<(Seq<char>, ValueView)>, key: Seq<char>) -> bool
    decreases fields.len(),
{
    if fields.len() == 0 {
        false
    } else if fields[0].0 == key {
        true
    } else {
        spec_fields_have_key(fields.drop_first(), key)
    }
}

/// Whether `v` is an object with a field named `key` (whatever its value).
pub open spec fn spec_has_key(v: ValueView, key: Seq<char>) -> bool {
    match v {
        ValueView::Obj(fields) => spec_fields_have_key(fields, key),
        _ => false,
    }
}

impl Value {
    /// Looks up `key` in this value: `None` when this is not an object or the
    /// key is absent, which the view maps to `Null`.
    pub fn get<'a>(&'a self, key: &str) -> (r: Option<&'a Value>)
        ensures
            r matches Some(x) ==> x@ == spec_get(self@, key@),
            r matches Some(x) ==> decreases_to!(*self => *x),
            r is None ==> spec_get(self@, key@) == ValueView::Null,
    {
        match self {
            Value::Obj(fields) => {
                let ghost fv = spec_fields_view(fields@);
                proof {
                    lemma_fields_view_len(fields@);
                    assert(fv.skip(0) =~= fv);
                }
                let mut i: usize = 0;
                while i < fields.len()
                    invariant
                        i <= fields.len(),
                        fv == spec_fields_view(fields@),
                        fv.len() == fields@.len(),
                        spec_get_fields(fv.skip(i as int), key@) == spec_get_fields(fv, key@),
                        self@ == ValueView::Obj(fv),
                        *self == Value::Obj(*fields),
                    decreases fields.len() - i,
                {
                    proof {
                        lemma_fields_view_index(fields@, i as int);
                        assert(fv.skip(i as int).len() > 0);
                        assert(fv.skip(i as int)[0] == fv[i as int]);
                        assert(fv.skip(i as int).drop_first() =~= fv.skip(i + 1));
                    }
                    if str_eq(fields[i].0.as_str(), key) {
                        proof {
                            assert(decreases_to!(*self => (*self)->Obj_0));
                            assert((*self)->Obj_0 == *fields);
                            assert(decreases_to!(*fields => fields@));
                            assert(decreases_to!(fields@ => fields@[i as int]));
                            assert(decreases_to!(fields@[i as int] => fields@[i as int].1));
                            assert(decreases_to!(*self => fields@[i as int].1));
                        }
                        return Some(&fields[i].1);
                    }
                    i = i + 1;
                }
                proof {
                    assert(fv.skip(fields@.len() as int) =~= Seq::<
                        (Seq<char>, ValueView),
                    >::empty());
                }
                None
            },
            _ => None,
        }
    }

    /// Whether this value is an object holding a field named `key`.
    pub fn has_key(&self, key: &str) -> (r: bool)
        ensures
            r == spec_has_key(self@, key@),
    {
        match self {
            Value::Obj(fields) => {
                let ghost fv = spec_fields_view(fields@);
                proof {
                    lemma_fields_view_len(fields@);
                    assert(fv.skip(0) =~= fv);
                }
                let mut i: usize = 0;
                while i < fields.len()
                    invariant
                        i <= fields.len(),
                        fv == spec_fields_view(fields@),
                        fv.len() == fields@.len(),
                        self@ == ValueView::Obj(fv),
                        spec_fields_have_key(fv.skip(i as int), key@) == spec_fields_have_key(
                            fv,
                            key@,
                        ),
                    decreases fields.len() - i,
                {
                    proof {
                        lemma_fields_view_index(fields@, i as int);
                        assert(fv.skip(i as int).len() > 0);
                        assert(fv.skip(i as int)[0] == fv[i as int]);
                        assert(fv.skip(i as int).drop_first() =~= fv.skip(i + 1));
                    }
                    if str_eq(fields[i].0.as_str(), key) {
                        return true;
                    }
                    i = i + 1;
                }
                proof {
                    assert(fv.skip(fields@.len() as int) =~= Seq::<
                        (Seq<char>, ValueView),
                    >::empty());
                }
                false
            },
            _ => false,
        }
    }

    /// Structural equality of two document values.
    pub fn deep_eq(&self, other: &Value) -> (r: bool)
        ensures
            r == (self@ == other@),
        decreases *self,
    {
        match (self, other) {
            (Value::Null, Value::Null) => true,
            (Value::Bool(a), Value::Bool(b)) => a == b,
            (Value::Num(a), Value::Num(b)) => a == b,
            (Value::Str(a), Value::Str(b)) => str_eq(a.as_str(), b.as_str()),
            (Value::Arr(a), Value::Arr(b)) => {
                proof {
                    lemma_arr_view_len(a@);
                    lemma_arr_view_len(b@);
                }
                if a.len() != b.len() {
                    return false;
                }
                let mut i: usize = 0;
                while i < a.len()
                    invariant
                        i <= a.len(),
                        a@.len() == b@.len(),
                        *self == Value::Arr(*a),
                        *other == Value::Arr(*b),
                        forall|j: int|
                            0 <= j < i ==> #[trigger] value_view(a@[j]) == value_view(b@[j]),
                    decreases a.len() - i,
                {
                    proof {
                        assert(decreases_to!(*self => (*self)->Arr_0));
                        assert((*self)->Arr_0 == *a);
                        assert(decreases_to!(*a => a@));
                        assert(decreases_to!(a@ => a@[i as int]));
                        assert(decreases_to!(*self => a@[i as int]));
                    }
                    if !a[i].deep_eq(&b[i]) {
                        proof {
                            lemma_arr_view_index(a@, i as int);
                            lemma_arr_view_index(b@, i as int);
                            assert(spec_arr_view(a@)[i as int] != spec_arr_view(b@)[i as int]);
                        }
                        return false;
                    }
                    i = i + 1;
                }
                proof {
                    assert forall|j: int| 0 <= j < a@.len() implies spec_arr_view(a@)[j]
                        == spec_arr_view(b@)[j] by {
                        lemma_arr_view_index(a@, j);
                        lemma_arr_view_index(b@, j);
                    }
                    lemma_arr_view_len(a@);
                    lemma_arr_view_len(b@);
                    assert(spec_arr_view(a@) =~= spec_arr_view(b@));
                }
                true
            },
            (Value::Obj(a), Value::Obj(b)) => {
                proof {
                    lemma_fields_view_len(a@);
                    lemma_fields_view_len(b@);
                }
                if a.len() != b.len() {
                    return false;
                }
                let mut i: usize = 0;
                while i < a.len()
                    invariant
                        i <= a.len(),
                        a@.len() == b@.len(),
                        *self == Value::Obj(*a),
                        *other == Value::Obj(*b),
                        forall|j: int|
                            0 <= j < i ==> ((#[trigger] a@[j]).0@ == b@[j].0@ && value_view(
                                a@[j].1,
                            ) == value_view(b@[j].1)),
                    decreases a.len() - i,
                {
                    let keys_equal = str_eq(a[i].0.as_str(), b[i].0.as_str());
                    if !keys_equal {
                        proof {
                            lemma_fields_view_index(a@, i as int);
                            lemma_fields_view_index(b@, i as int);
                            assert(spec_fields_view(a@)[i as int] != spec_fields_view(
                                b@,
                            )[i as int]);
                        }
                        return false;
                    }
                    proof {
                        assert(decreases_to!(*self => (*self)->Obj_0));
                        assert((*self)->Obj_0 == *a);
                        assert(decreases_to!(*a => a@));
                        assert(decreases_to!(a@ => a@[i as int]));
                        assert(decreases_to!(a@[i as int] => a@[i as int].1));
                        assert(decreases_to!(*self => a@[i as int].1));
                    }
                    if !a[i].1.deep_eq(&b[i].1) {
                        proof {
                            lemma_fields_view_index(a@, i as int);
                            lemma_fields_view_index(b@, i as int);
                            assert(spec_fields_view(a@)[i as int] != spec_fields_view(
                                b@,
                            )[i as int]);
                        }
                        return false;
                    }
                    i = i + 1;
                }
                proof {
                    assert forall|j: int| 0 <= j < a@.len() implies spec_fields_view(a@)[j]
                        == spec_fields_view(b@)[j] by {
                        lemma_fields_view_index(a@, j);
                        lemma_fields_view_index(b@, j);
                    }
                    lemma_fields_view_len(a@);
                    lemma_fields_view_len(b@);
                    assert(spec_fields_view(a@) =~= spec_fields_view(b@));
                }
                true
            },
            _ => {
                assert(self@ != other@);
                false
            },
        }
    }
}

impl Clone for Value {
    /// A structural copy with the same view.
    fn clone(&self) -> (r: Value)
        ensures
            r@ == self@,
        decreases *self,
    {
        match self {
            Value::Null => Value::Null,
            Value::Bool(b) => Value::Bool(*b),
            Value::Num(n) => Value::Num(*n),
            Value::Str(s) => Value::Str(s.clone()),
            Value::Arr(a) => {
                let mut out: Vec<Value> = Vec::new();
                let mut i: usize = 0;
                while i < a.len()
                    invariant
                        i <= a.len(),
                        out@.len() == i,
                        *self == Value::Arr(*a),
                        forall|j: int|
                            0 <= j < i ==> #[trigger] value_view(out@[j]) == value_view(a@[j]),
                    decreases a.len() - i,
                {
                    proof {
                        assert(decreases_to!(*self => (*self)->Arr_0));
                        assert((*self)->Arr_0 == *a);
                        assert(decreases_to!(*a => a@));
                        assert(decreases_to!(a@ => a@[i as int]));
                        assert(decreases_to!(*self => a@[i as int]));
                    }
                    let c = a[i].clone();
                    out.push(c);
                    i = i + 1;
                }
                proof {
                    assert forall|j: int| 0 <= j < a@.len() implies spec_arr_view(out@)[j]
                        == spec_arr_view(a@)[j] by {
                        lemma_arr_view_index(out@, j);
                        lemma_arr_view_index(a@, j);
                    }
                    lemma_arr_view_len(out@);
                    lemma_arr_view_len(a@);
                    assert(spec_arr_view(out@) =~= spec_arr_view(a@));
                }
                Value::Arr(out)
            },
            Value::Obj(o) => {
                let mut out: Vec<(String, Value)> = Vec::new();
                let mut i: usize = 0;
                while i < o.len()
                    invariant
                        i <= o.len(),
                        out@.len() == i,
                        *self == Value::Obj(*o),
                        forall|j: int|
                            0 <= j < i ==> ((#[trigger] out@[j]).0@ == o@[j].0@ && value_view(
                                out@[j].1,
                            ) == value_view(o@[j].1)),
                    decreases o.len() - i,
                {
                    proof {
                        assert(decreases_to!(*self => (*self)->Obj_0));
                        assert((*self)->Obj_0 == *o);
                        assert(decreases_to!(*o => o@));
                        assert(decreases_to!(o@ => o@[i as int]));
                        assert(decreases_to!(o@[i as int] => o@[i as int].1));
                        assert(decreases_to!(*self => o@[i as int].1));
                    }
                    let k = o[i].0.clone();
                    let v = o[i].1.clone();
                    out.push((k, v));
                    i = i + 1;
                }
                proof {
                    assert forall|j: int| 0 <= j < o@.len() implies spec_fields_view(out@)[j]
                        == spec_fields_view(o@)[j] by {
                        lemma_fields_view_index(out@, j);
                        lemma_fields_view_index(o@, j);
                    }
                    lemma_fields_view_len(out@);
                    lemma_fields_view_len(o@);
                    assert(spec_fields_view(out@) =~= spec_fields_view(o@));
                }
                Value::Obj(out)
            },
        }
    }
}

impl PartialEq for Value {
    fn eq(&self, other: &Value) -> (r: bool) {
        self.deep_eq(other)
    }
}

impl vstd::std_specs::cmp::PartialEqSpecImpl for Value {
    open spec fn obeys_eq_spec() -> bool {
        true
    }

    open spec fn eq_spec(&self, other: &Value) -> bool {
        self@ == other@
    }
}

} // verus!
