//! Free-form structured task payloads: nested objects, arrays, scalars, null.

use vstd::prelude::*;

verus! {

/// A structured payload value, the `args` of a task and the `body` of an
/// event record. Arbitrarily nested, like the wire format it stands for.
pub enum JsonValue {
    Null,
    Bool(bool),
    Int(i64),
    Text(String),
    Array(Vec<JsonValue>),
    Object(Vec<(String, JsonValue)>),
}

/// The mathematical shape of a payload: the same tree over `Seq` and `int`.
pub ghost enum JsonView {
    Null,
    Bool(bool),
    Int(int),
    Text(Seq<char>),
    Array(Seq<JsonView>),
    Object(Seq<(Seq<char>, JsonView)>),
}

/// The views of the elements of an array payload.
pub open spec fn json_list_view(items: Vec<JsonValue>) -> Seq<JsonView>
    decreases items,
{
    Seq::new(
        items@.len(),
        |i: int|
            if 0 <= i < items@.len() {
                items[i]@
            } else {
                JsonView::Null
            },
    )
}

/// The views of the key/value entries of an object payload.
pub open spec fn json_entries_view(entries: Vec<(String, JsonValue)>) -> Seq<
    (Seq<char>, JsonView),
>
    decreases entries,
{
    Seq::new(
        entries@.len(),
        |i: int|
            if 0 <= i < entries@.len() {
                (entries[i].0@, entries[i].1@)
            } else {
                (Seq::<char>::empty(), JsonView::Null)
            },
    )
}

impl View for JsonValue {
    type V = JsonView;

    open spec fn view(&self) -> JsonView
        decreases self,
    {
        match self {
            JsonValue::Null => JsonView::Null,
            JsonValue::Bool(b) => JsonView::Bool(*b),
            JsonValue::Int(i) => JsonView::Int(*i as int),
            JsonValue::Text(s) => JsonView::Text(s@),
            JsonValue::Array(items) => JsonView::Array(json_list_view(*items)),
            JsonValue::Object(entries) => JsonView::Object(json_entries_view(*entries)),
        }
    }
}

impl Clone for JsonValue {
    /// A clone has exactly the shape of the original.
    #[verifier::loop_isolation(false)]
    fn clone(&self) -> (res: Self)
        ensures
            res@ == self@,
        decreases self,
    {
        match self {
            JsonValue::Null => JsonValue::Null,
            JsonValue::Bool(b) => JsonValue::Bool(*b),
            JsonValue::Int(i) => JsonValue::Int(*i),
            JsonValue::Text(s) => JsonValue::Text(s.clone()),
            JsonValue::Array(items) => {
                let mut out: Vec<JsonValue> = Vec::new();
                let mut i: usize = 0;
                while i < items.len()
                    invariant
                        i <= items@.len(),
                        out@.len() == i,
                        forall|j: int| 0 <= j < i ==> out@[j]@ == items@[j]@,
                    decreases items@.len() - i,
                {
                    out.push(items[i].clone());
                    i = i + 1;
                }
                let res = JsonValue::Array(out);
                proof {
                    assert(res@->Array_0 =~= self@->Array_0);
                }
                res
            },
            JsonValue::Object(entries) => {
                let mut out: Vec<(String, JsonValue)> = Vec::new();
                let mut i: usize = 0;
                while i < entries.len()
                    invariant
                        i <= entries@.len(),
                        out@.len() == i,
                        forall|j: int| 0 <= j < i ==> out@[j].0@ == entries@[j].0@
                            && out@[j].1@ == entries@[j].1@,
                    decreases entries@.len() - i,
                {
                    let key = entries[i].0.clone();
                    let value = entries[i].1.clone();
                    out.push((key, value));
                    i = i + 1;
                }
                let res = JsonValue::Object(out);
                proof {
                    assert(res@->Object_0 =~= self@->Object_0);
                }
                res
            },
        }
    }
}

/// Decides structural equality of two payloads: true exactly when the two
/// trees have the same shape and the same scalars everywhere.
#[verifier::loop_isolation(false)]
pub fn json_eq(a: &JsonValue, b: &JsonValue) -> (r: bool)
    ensures
        r == (a@ == b@),
    decreases a,
{
    match (a, b) {
        (JsonValue::Null, JsonValue::Null) => true,
        (JsonValue::Bool(x), JsonValue::Bool(y)) => x == y,
        (JsonValue::Int(x), JsonValue::Int(y)) => x == y,
        (JsonValue::Text(x), JsonValue::Text(y)) => *x == *y,
        (JsonValue::Array(x), JsonValue::Array(y)) => {
            if x.len() != y.len() {
                proof {
                    assert(a@->Array_0.len() == x@.len());
                    assert(b@->Array_0.len() == y@.len());
                }
                return false;
            }
            let mut i: usize = 0;
            while i < x.len()
                invariant
                    x@.len() == y@.len(),
                    i <= x@.len(),
                    forall|j: int| 0 <= j < i ==> x@[j]@ == y@[j]@,
                decreases x@.len() - i,
            {
                if !json_eq(&x[i], &y[i]) {
                    proof {
                        assert(a@->Array_0[i as int] == x@[i as int]@);
                        assert(b@->Array_0[i as int] == y@[i as int]@);
                    }
                    return false;
                }
                i = i + 1;
            }
            proof {
                assert(a@->Array_0 =~= b@->Array_0);
            }
            true
        },
        (JsonValue::Object(x), JsonValue::Object(y)) => {
            if x.len() != y.len() {
                proof {
                    assert(json_entries_view(*x).len() == x@.len());
                    assert(json_entries_view(*y).len() == y@.len());
                    assert(a@ == JsonView::Object(json_entries_view(*x)));
                    assert(b@ == JsonView::Object(json_entries_view(*y)));
                }
                return false;
            }
            let mut i: usize = 0;
            while i < x.len()
                invariant
                    x@.len() == y@.len(),
                    i <= x@.len(),
                    forall|j: int| 0 <= j < i ==> x@[j].0@ == y@[j].0@ && x@[j].1@ == y@[j].1@,
                decreases x@.len() - i,
            {
                let keys_equal = x[i].0 == y[i].0;
                if !keys_equal {
                    proof {
                        assert(json_entries_view(*x)[i as int] == (x@[i as int].0@, x@[i as int].1@));
                        assert(json_entries_view(*y)[i as int] == (y@[i as int].0@, y@[i as int].1@));
                        assert(a@ == JsonView::Object(json_entries_view(*x)));
                        assert(b@ == JsonView::Object(json_entries_view(*y)));
                    }
                    return false;
                }
                if !json_eq(&x[i].1, &y[i].1) {
                    proof {
                        assert(json_entries_view(*x)[i as int] == (x@[i as int].0@, x@[i as int].1@));
                        assert(json_entries_view(*y)[i as int] == (y@[i as int].0@, y@[i as int].1@));
                        assert(a@ == JsonView::Object(json_entries_view(*x)));
                        assert(b@ == JsonView::Object(json_entries_view(*y)));
                    }
                    return false;
                }
                i = i + 1;
            }
            proof {
                assert(json_entries_view(*x) =~= json_entries_view(*y));
                assert(a@ == JsonView::Object(json_entries_view(*x)));
                assert(b@ == JsonView::Object(json_entries_view(*y)));
            }
            true
        },
        _ => false,
    }
}

} // verus!
