//! The library's model of a parsed protocol line: a JSON-like value held in
//! plain library types, with a ghost view for contracts, total field probing
//! that mirrors lenient lookup (absent fields read as null), and the trusted
//! boundary to the outside parser.

use vstd::prelude::*;

verus! {

/// A structured value parsed from one protocol line. Numbers keep their
/// source text: the correlation logic never reads them numerically.
#[derive(Debug)]
pub enum JsonVal {
    Null,
    Bool(bool),
    Num(String),
    Str(String),
    Arr(Vec<JsonVal>),
    Obj(Vec<(String, JsonVal)>),
}

/// The mathematical shape of a [`JsonVal`]: the same tree over sequences.
#[verifier::ext_equal]
pub enum JsonView {
    Null,
    Bool(bool),
    Num(Seq<char>),
    Str(Seq<char>),
    Arr(Seq<JsonView>),
    Obj(Seq<(Seq<char>, JsonView)>),
}

pub open spec fn json_view(v: JsonVal) -> JsonView
    decreases v,
{
    match v {
        JsonVal::Null => JsonView::Null,
        JsonVal::Bool(b) => JsonView::Bool(b),
        JsonVal::Num(s) => JsonView::Num(s@),
        JsonVal::Str(s) => JsonView::Str(s@),
        JsonVal::Arr(items) => JsonView::Arr(
            Seq::new(
                items@.len(),
                |i: int|
                    if 0 <= i < items@.len() {
                        proof {
                            assert(decreases_to!(v => v->Arr_0));
                            assert(decreases_to!(v->Arr_0 => v->Arr_0@));
                            assert(decreases_to!(v->Arr_0@ => v->Arr_0@[i]));
                        }
                        json_view(items@[i])
                    } else {
                        JsonView::Null
                    },
            ),
        ),
        JsonVal::Obj(fields) => JsonView::Obj(
            Seq::new(
                fields@.len(),
                |i: int|
                    if 0 <= i < fields@.len() {
                        proof {
                            assert(decreases_to!(v => v->Obj_0));
                            assert(decreases_to!(v->Obj_0 => v->Obj_0@));
                            assert(decreases_to!(v->Obj_0@ => v->Obj_0@[i]));
                            assert(decreases_to!(v->Obj_0@[i] => v->Obj_0@[i].1));
                        }
                        (fields@[i].0@, json_view(fields@[i].1))
                    } else {
                        (Seq::<char>::empty(), JsonView::Null)
                    },
            ),
        ),
    }
}

impl DeepView for JsonVal {
    type V = JsonView;

    open spec fn deep_view(&self) -> JsonView {
        json_view(*self)
    }
}

/// First binding of `key` in an association sequence, if any.
pub open spec fn assoc_get(fields: Seq<(Seq<char>, JsonView)>, key: Seq<char>) -> Option<JsonView>
    decreases fields.len(),
{
    if fields.len() == 0 {
        None
    } else if fields[0].0 == key {
        Some(fields[0].1)
    } else {
        assoc_get(fields.drop_first(), key)
    }
}

/// Lenient field lookup: reading any key of a non-object, or an absent key,
/// yields null, as the original protocol probing does.
pub open spec fn jget(v: JsonView, key: Seq<char>) -> JsonView {
    match v {
        JsonView::Obj(fields) => match assoc_get(fields, key) {
            Some(x) => x,
            None => JsonView::Null,
        },
        _ => JsonView::Null,
    }
}

/// The character sequence of a string value, if the value is a string.
pub open spec fn as_str_view(v: JsonView) -> Option<Seq<char>> {
    match v {
        JsonView::Str(s) => Some(s),
        _ => None,
    }
}

/// Elementwise reading of an array value's view.
pub proof fn lemma_arr_view(items: Vec<JsonVal>)
    ensures
        json_view(JsonVal::Arr(items)) matches JsonView::Arr(s) && s.len() == items@.len() && (
        forall|i: int| 0 <= i < items@.len() ==> s[i] == json_view(items@[i])),
{
}

/// Elementwise reading of an object value's view.
pub proof fn lemma_obj_view(fields: Vec<(String, JsonVal)>)
    ensures
        json_view(JsonVal::Obj(fields)) matches JsonView::Obj(s) && s.len() == fields@.len() && (
        forall|i: int|
            0 <= i < fields@.len() ==> s[i] == (fields@[i].0@, json_view(fields@[i].1))),
{
}

proof fn lemma_assoc_get_skip(fields: Seq<(Seq<char>, JsonView)>, key: Seq<char>, i: int)
    requires
        0 <= i <= fields.len(),
        forall|j: int| 0 <= j < i ==> fields[j].0 != key,
    ensures
        assoc_get(fields, key) == assoc_get(fields.skip(i), key),
    decreases i,
{
    if i > 0 {
        lemma_assoc_get_skip(fields, key, i - 1);
        assert(fields.skip(i - 1).drop_first() =~= fields.skip(i));
        assert(fields.skip(i - 1)[0] == fields[i - 1]);
    } else {
        assert(fields.skip(0) =~= fields);
    }
}

impl JsonVal {
    /// Looks a key up in this value, reading as the lenient `jget` does:
    /// `None` is returned exactly when `jget` reads null because the value
    /// is not an object or lacks the key.
    pub fn field<'a>(&'a self, key: &str) -> (r: Option<&'a JsonVal>)
        ensures
            match r {
                Some(x) => jget(self.deep_view(), key@) == x.deep_view(),
                None => jget(self.deep_view(), key@) == JsonView::Null,
            },
    {
        match self {
            JsonVal::Obj(fields) => {
                proof {
                    lemma_obj_view(*fields);
                }
                let ghost vf: Seq<(Seq<char>, JsonView)> = json_view(*self)->Obj_0;
                let mut i: usize = 0;
                while i < fields.len()
                    invariant
                        *self == JsonVal::Obj(*fields),
                        vf == json_view(*self)->Obj_0,
                        vf.len() == fields@.len(),
                        forall|j: int|
                            0 <= j < fields@.len() ==> vf[j] == (
                            fields@[j].0@,
                            json_view(fields@[j].1),
                            ),
                        0 <= i <= fields.len(),
                        forall|j: int| 0 <= j < i ==> vf[j].0 != key@,
                    decreases fields.len() - i,
                {
                    let pair = &fields[i];
                    if crate::strutil::str_eq(pair.0.as_str(), key) {
                        proof {
                            lemma_assoc_get_skip(vf, key@, i as int);
                            assert(vf.skip(i as int)[0] == vf[i as int]);
                        }
                        return Some(&pair.1);
                    }
                    i = i + 1;
                }
                proof {
                    lemma_assoc_get_skip(vf, key@, vf.len() as int);
                    assert(vf.skip(vf.len() as int) =~= Seq::<(Seq<char>, JsonView)>::empty());
                }
                None
            },
            _ => None,
        }
    }

    /// The string slice held by a string value, or `None` for any other shape.
    pub fn as_str_val<'a>(&'a self) -> (r: Option<&'a String>)
        ensures
            match r {
                Some(s) => as_str_view(self.deep_view()) == Some(s@),
                None => as_str_view(self.deep_view()) is None,
            },
    {
        match self {
            JsonVal::Str(s) => Some(s),
            _ => None,
        }
    }

    /// A structurally equal copy of this value.
    pub fn duplicate(&self) -> (r: JsonVal)
        ensures
            r.deep_view() == self.deep_view(),
        decreases *self,
    {
        match self {
            JsonVal::Null => JsonVal::Null,
            JsonVal::Bool(b) => JsonVal::Bool(*b),
            JsonVal::Num(s) => JsonVal::Num(s.clone()),
            JsonVal::Str(s) => JsonVal::Str(s.clone()),
            JsonVal::Arr(items) => {
                let mut out: Vec<JsonVal> = Vec::new();
                let mut i: usize = 0;
                while i < items.len()
                    invariant
                        *self == JsonVal::Arr(*items),
                        0 <= i <= items.len(),
                        out@.len() == i as int,
                        forall|j: int| 0 <= j < i ==> out@[j].deep_view() == items@[j].deep_view(),
                    decreases items.len() - i,
                {
                    proof {
                        assert(decreases_to!(*self => (*self)->Arr_0));
                        assert(decreases_to!(*items => items[i as int]));
                    }
                    let c = items[i].duplicate();
                    out.push(c);
                    i = i + 1;
                }
                let r = JsonVal::Arr(out);
                proof {
                    lemma_arr_view(out);
                    lemma_arr_view(*items);
                    assert(json_view(r)->Arr_0 =~= json_view(*self)->Arr_0);
                }
                r
            },
            JsonVal::Obj(fields) => {
                let mut out: Vec<(String, JsonVal)> = Vec::new();
                let mut i: usize = 0;
                while i < fields.len()
                    invariant
                        *self == JsonVal::Obj(*fields),
                        0 <= i <= fields.len(),
                        out@.len() == i as int,
                        forall|j: int|
                            0 <= j < i ==> out@[j].0@ == fields@[j].0@ && out@[j].1.deep_view()
                                == fields@[j].1.deep_view(),
                    decreases fields.len() - i,
                {
                    proof {
                        assert(decreases_to!(*self => (*self)->Obj_0));
                        assert(decreases_to!(*fields => fields[i as int]));
                        assert(decreases_to!(fields[i as int] => fields[i as int].1));
                    }
                    let pair = &fields[i];
                    let c = pair.1.duplicate();
                    out.push((pair.0.clone(), c));
                    i = i + 1;
                }
                let r = JsonVal::Obj(out);
                proof {
                    lemma_obj_view(out);
                    lemma_obj_view(*fields);
                    assert(json_view(r)->Obj_0 =~= json_view(*self)->Obj_0);
                }
                r
            },
        }
    }
}

/// The parse of one line of protocol text, named abstractly: the outside
/// parser is deterministic, so the parse is a function of the text alone.
pub uninterp spec fn json_doc(s: Seq<char>) -> Option<JsonView>;

/// Declares the outside parser's value type so that the conversion below
/// may take it; the type stays opaque and no contract is stated on it.
#[verifier::external_type_specification]
#[verifier::external_body]
pub struct ExValue(serde_json::Value);

/// Converts the outside parser's tree into the library's model, variant by
/// variant; only `parse_line` calls it. Numbers keep their rendered text.
#[verifier::external_body]
fn value_to_json(v: serde_json::Value) -> JsonVal {
    match v {
        serde_json::Value::Null => JsonVal::Null,
        serde_json::Value::Bool(b) => JsonVal::Bool(b),
        serde_json::Value::Number(n) => JsonVal::Num(n.to_string()),
        serde_json::Value::String(s) => JsonVal::Str(s),
        serde_json::Value::Array(items) => JsonVal::Arr(
            items.into_iter().map(value_to_json).collect(),
        ),
        serde_json::Value::Object(fields) => JsonVal::Obj(
            fields.into_iter().map(|(k, x)| (k, value_to_json(x))).collect(),
        ),
    }
}

/// Relies on `serde_json::from_str::<serde_json::Value>`: whether a line
/// parses, and what it parses to, depends on the line's text alone, which
/// `json_doc` names.
#[verifier::external_body]
pub fn parse_line(line: &str) -> (r: Option<JsonVal>)
    ensures
        r is Some <==> json_doc(line@) is Some,
        r matches Some(v) ==> Some(v.deep_view()) == json_doc(line@),
{
    match serde_json::from_str::<serde_json::Value>(line) {
        Ok(v) => Some(value_to_json(v)),
        Err(_) => None,
    }
}

} // verus!
