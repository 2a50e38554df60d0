use vstd::prelude::*;

verus! {

broadcast use vstd::std_specs::vec::group_vec_axioms;

/// A JSON value as the evaluator sees it. Numbers are carried in their
/// canonical decimal form, exactly as a JSON writer prints them, so that the
/// evaluator's coercions work on plain strings.
#[derive(Debug, PartialEq)]
pub enum JsonValue {
    Null,
    Bool(bool),
    Num(String),
    Str(String),
    Arr(Vec<JsonValue>),
    Obj(Vec<(String, JsonValue)>),
}

/// The mathematical shape of a JSON value.
pub enum JsonV {
    Null,
    Bool(bool),
    Num(Seq<char>),
    Str(Seq<char>),
    Arr(Seq<JsonV>),
    Obj(Seq<(Seq<char>, JsonV)>),
}

/// The shape of one JSON value.
pub open spec fn json_view(v: JsonValue) -> JsonV
    decreases v,
{
    match v {
        JsonValue::Null => JsonV::Null,
        JsonValue::Bool(b) => JsonV::Bool(b),
        JsonValue::Num(s) => JsonV::Num(s@),
        JsonValue::Str(s) => JsonV::Str(s@),
        JsonValue::Arr(a) => JsonV::Arr(json_views(a@)),
        JsonValue::Obj(o) => JsonV::Obj(json_field_views(o@)),
    }
}

/// The shapes of a sequence of JSON values, in order.
pub open spec fn json_views(s: Seq<JsonValue>) -> Seq<JsonV>
    decreases s,
{
    if s.len() == 0 {
        Seq::empty()
    } else {
        seq![json_view(s[0])] + json_views(s.drop_first())
    }
}

/// The shapes of a sequence of object fields, in order.
pub open spec fn json_field_views(s: Seq<(String, JsonValue)>) -> Seq<(Seq<char>, JsonV)>
    decreases s,
{
    if s.len() == 0 {
        Seq::empty()
    } else {
        seq![(s[0].0@, json_view(s[0].1))] + json_field_views(s.drop_first())
    }
}

pub broadcast proof fn lemma_json_views_len(s: Seq<JsonValue>)
    ensures
        (#[trigger] json_views(s)).len() == s.len(),
    decreases s,
{
    if s.len() > 0 {
        lemma_json_views_len(s.drop_first());
    }
}

pub broadcast proof fn lemma_json_views_index(s: Seq<JsonValue>, i: int)
    requires
        0 <= i < s.len(),
    ensures
        #[trigger] json_views(s)[i] == json_view(s[i]),
    decreases s,
{
    lemma_json_views_len(s);
    if i > 0 {
        lemma_json_views_index(s.drop_first(), i - 1);
    }
}

pub broadcast proof fn lemma_json_field_views_len(s: Seq<(String, JsonValue)>)
    ensures
        (#[trigger] json_field_views(s)).len() == s.len(),
    decreases s,
{
    if s.len() > 0 {
        lemma_json_field_views_len(s.drop_first());
    }
}

pub broadcast proof fn lemma_json_field_views_index(s: Seq<(String, JsonValue)>, i: int)
    requires
        0 <= i < s.len(),
    ensures
        #[trigger] json_field_views(s)[i] == (s[i].0@, json_view(s[i].1)),
    decreases s,
{
    lemma_json_field_views_len(s);
    if i > 0 {
        lemma_json_field_views_index(s.drop_first(), i - 1);
    }
}

impl View for JsonValue {
    type V = JsonV;

    open spec fn view(&self) -> JsonV {
        json_view(*self)
    }
}

impl Clone for JsonValue {
    #[verifier::loop_isolation(false)]
    fn clone(&self) -> (r: Self)
        ensures
            r@ == self@,
        decreases self,
    {
        match self {
            JsonValue::Null => JsonValue::Null,
            JsonValue::Bool(b) => JsonValue::Bool(*b),
            JsonValue::Num(s) => JsonValue::Num(s.clone()),
            JsonValue::Str(s) => JsonValue::Str(s.clone()),
            JsonValue::Arr(a) => {
                let mut out: Vec<JsonValue> = Vec::new();
                let n = a.len();
                let mut i: usize = 0;
                while i < n
                    invariant
                        n == a@.len(),
                        i <= n,
                        out@.len() == i,
                        forall|j: int| 0 <= j < i ==> #[trigger] json_view(out@[j]) == json_view(
                            a@[j],
                        ),
                    decreases n - i,
                {
                    let e = a[i].clone();
                    out.push(e);
                    i += 1;
                }
                proof {
                    broadcast use lemma_json_views_len, lemma_json_views_index;

                    assert(json_views(out@) =~= json_views(a@));
                }
                JsonValue::Arr(out)
            },
            JsonValue::Obj(o) => {
                let mut out: Vec<(String, JsonValue)> = Vec::new();
                let n = o.len();
                let mut i: usize = 0;
                while i < n
                    invariant
                        n == o@.len(),
                        i <= n,
                        out@.len() == i,
                        forall|j: int|
                            0 <= j < i ==> out@[j].0@ == o@[j].0@ && #[trigger] json_view(
                                out@[j].1,
                            ) == json_view(o@[j].1),
                    decreases n - i,
                {
                    let key = o[i].0.clone();
                    let val = o[i].1.clone();
                    out.push((key, val));
                    i += 1;
                }
                proof {
                    broadcast use lemma_json_field_views_len, lemma_json_field_views_index;

                    assert(json_field_views(out@) =~= json_field_views(o@));
                }
                JsonValue::Obj(out)
            },
        }
    }
}

} // verus!
