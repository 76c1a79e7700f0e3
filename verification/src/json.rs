//! Untyped structured payloads, as the gateway's own data.
//!
//! Every event and every control-plane response carries an untyped structured
//! value. The gateway holds such a value in `JsonValue`, a tree of plain
//! data, so that the logic that reads it — roster extraction, frame decoding,
//! response settling — is verified. The host converts at its serialization
//! boundary between `JsonValue` and whatever its JSON library hands it.
//!
//! `JsonModel` is the mathematical shadow of `JsonValue`: the same tree over
//! `Seq` instead of `Vec` and `String`, so contracts can state structural
//! equality and lookups directly.

use vstd::prelude::*;

verus! {

/// A mathematical JSON tree: what contracts speak of.
#[verifier::ext_equal]
pub enum JsonModel {
    Null,
    Bool(bool),
    Int(i64),
    Str(Seq<char>),
    Arr(Seq<JsonModel>),
    Obj(Seq<(Seq<char>, JsonModel)>),
}

/// An untyped structured payload: a JSON tree over plain values. Numbers are
/// held as integers; the gateway's own logic never reads a fractional number.
pub enum JsonValue {
    Null,
    Bool(bool),
    Int(i64),
    Str(String),
    Arr(Vec<JsonValue>),
    Obj(Vec<(String, JsonValue)>),
}

/// The mathematical tree a `JsonValue` stands for.
pub open spec fn json_model(v: JsonValue) -> JsonModel
    decreases v, 1int,
{
    match v {
        JsonValue::Null => JsonModel::Null,
        JsonValue::Bool(b) => JsonModel::Bool(b),
        JsonValue::Int(n) => JsonModel::Int(n),
        JsonValue::Str(s) => JsonModel::Str(s@),
        JsonValue::Arr(items) => JsonModel::Arr(json_model_list(items@)),
        JsonValue::Obj(pairs) => JsonModel::Obj(json_model_pairs(pairs@)),
    }
}

/// The models of a list of payload values, in order.
pub open spec fn json_model_list(items: Seq<JsonValue>) -> Seq<JsonModel>
    decreases items, 0int,
{
    if items.len() == 0 {
        Seq::empty()
    } else {
        seq![json_model(items[0])] + json_model_list(items.subrange(1, items.len() as int))
    }
}

/// The models of an object's field list, in order, keys viewed as sequences.
pub open spec fn json_model_pairs(pairs: Seq<(String, JsonValue)>) -> Seq<(Seq<char>, JsonModel)>
    decreases pairs, 0int,
{
    if pairs.len() == 0 {
        Seq::empty()
    } else {
        seq![(pairs[0].0@, json_model(pairs[0].1))] + json_model_pairs(
            pairs.subrange(1, pairs.len() as int),
        )
    }
}

/// Element-wise reading of `json_model_list`.
pub proof fn lemma_json_model_list_index(items: Seq<JsonValue>)
    ensures
        json_model_list(items).len() == items.len(),
        forall|i: int| 0 <= i < items.len() ==> json_model_list(items)[i] == json_model(
            #[trigger] items[i],
        ),
    decreases items.len(),
{
    if items.len() > 0 {
        let sub = items.subrange(1, items.len() as int);
        lemma_json_model_list_index(sub);
        assert forall|i: int| 0 <= i < items.len() implies json_model_list(items)[i]
            == json_model(#[trigger] items[i]) by {
            if i > 0 {
                assert(sub[i - 1] == items[i]);
                assert(json_model_list(items)[i] == json_model_list(sub)[i - 1]);
            }
        }
    }
}

/// Element-wise reading of `json_model_pairs`.
pub proof fn lemma_json_model_pairs_index(pairs: Seq<(String, JsonValue)>)
    ensures
        json_model_pairs(pairs).len() == pairs.len(),
        forall|i: int| 0 <= i < pairs.len() ==> json_model_pairs(pairs)[i] == ((
        #[trigger] pairs[i]).0@, json_model(pairs[i].1)),
    decreases pairs.len(),
{
    if pairs.len() > 0 {
        let sub = pairs.subrange(1, pairs.len() as int);
        lemma_json_model_pairs_index(sub);
        assert forall|i: int| 0 <= i < pairs.len() implies json_model_pairs(pairs)[i] == ((
        #[trigger] pairs[i]).0@, json_model(pairs[i].1)) by {
            if i > 0 {
                assert(sub[i - 1] == pairs[i]);
                assert(json_model_pairs(pairs)[i] == json_model_pairs(sub)[i - 1]);
            }
        }
    }
}

impl View for JsonValue {
    type V = JsonModel;

    open spec fn view(&self) -> JsonModel {
        json_model(*self)
    }
}

/// The value under `key` in an object's field list: the first binding wins,
/// as it does in the control plane's wire encoding.
pub open spec fn obj_get(pairs: Seq<(Seq<char>, JsonModel)>, key: Seq<char>) -> Option<JsonModel>
    decreases pairs.len(),
{
    if pairs.len() == 0 {
        None
    } else if pairs[0].0 == key {
        Some(pairs[0].1)
    } else {
        obj_get(pairs.drop_first(), key)
    }
}

/// If no binding among the first `i` carries `key`, the lookup is decided by
/// the rest of the field list.
pub proof fn lemma_obj_get_skip(pairs: Seq<(Seq<char>, JsonModel)>, key: Seq<char>, i: int)
    requires
        0 <= i <= pairs.len(),
        forall|j: int| 0 <= j < i ==> pairs[j].0 != key,
    ensures
        obj_get(pairs, key) == obj_get(pairs.skip(i), key),
    decreases i,
{
    if i > 0 {
        lemma_obj_get_skip(pairs, key, i - 1);
        assert(pairs.skip(i - 1).drop_first() =~= pairs.skip(i));
        assert(pairs.skip(i - 1)[0] == pairs[i - 1]);
    } else {
        assert(pairs.skip(0) =~= pairs);
    }
}

impl JsonValue {
    /// Look a key up in this value, when it is an object: `None` when this
    /// value is no object or the key is absent.
    pub fn lookup<'a>(&'a self, key: &String) -> (r: Option<&'a JsonValue>)
        ensures
            match r {
                Some(found) => self@ matches JsonModel::Obj(pairs) && obj_get(pairs, key@)
                    == Some(found@),
                None => !(self@ matches JsonModel::Obj(pairs) && obj_get(pairs, key@) is Some),
            },
    {
        match self {
            JsonValue::Obj(pairs) => {
                let ghost mpairs = json_model_pairs(pairs@);
                proof {
                    lemma_json_model_pairs_index(pairs@);
                }
                let n = pairs.len();
                let mut i: usize = 0;
                while i < n
                    invariant
                        n == pairs@.len(),
                        0 <= i <= n,
                        *self == JsonValue::Obj(*pairs),
                        mpairs == json_model_pairs(pairs@),
                        mpairs.len() == n,
                        forall|k: int| 0 <= k < n ==> mpairs[k] == ((#[trigger] pairs@[k]).0@,
                        json_model(pairs@[k].1)),
                        forall|j: int| 0 <= j < i ==> mpairs[j].0 != key@,
                    decreases n - i,
                {
                    let pair = &pairs[i];
                    if pair.0 == *key {
                        proof {
                            lemma_obj_get_skip(mpairs, key@, i as int);
                            let tail = mpairs.skip(i as int);
                            assert(tail[0] == mpairs[i as int]);
                            assert(tail[0].0 == key@);
                            assert(obj_get(tail, key@) == Some(tail[0].1));
                            assert(*self == JsonValue::Obj(*pairs));
                            assert(self@ == JsonModel::Obj(mpairs));
                        }
                        return Some(&pair.1);
                    }
                    i += 1;
                }
                proof {
                    lemma_obj_get_skip(mpairs, key@, n as int);
                    assert(mpairs.skip(n as int) =~= Seq::<(Seq<char>, JsonModel)>::empty());
                }
                None
            },
            _ => None,
        }
    }

    /// A structurally equal copy of this value.
    pub fn duplicate(&self) -> (r: JsonValue)
        ensures
            r@ == self@,
        decreases *self,
    {
        match self {
            JsonValue::Null => JsonValue::Null,
            JsonValue::Bool(b) => JsonValue::Bool(*b),
            JsonValue::Int(n) => JsonValue::Int(*n),
            JsonValue::Str(s) => JsonValue::Str(s.clone()),
            JsonValue::Arr(items) => {
                let n = items.len();
                let mut out: Vec<JsonValue> = Vec::new();
                let mut i: usize = 0;
                while i < n
                    invariant
                        n == items@.len(),
                        0 <= i <= n,
                        out@.len() == i,
                        *self == JsonValue::Arr(*items),
                        forall|j: int| 0 <= j < i ==> #[trigger] json_model(out@[j])
                            == json_model(items@[j]),
                    decreases n - i,
                {
                    proof {
                        assert(decreases_to!(*self => (*self)->Arr_0));
                        assert(decreases_to!(*items => items@));
                        assert(decreases_to!(items@ => items@[i as int]));
                    }
                    let copy = items[i].duplicate();
                    out.push(copy);
                    i += 1;
                }
                let r = JsonValue::Arr(out);
                proof {
                    lemma_json_model_list_index(out@);
                    lemma_json_model_list_index(items@);
                    assert forall|k: int| 0 <= k < items@.len() implies json_model_list(out@)[k]
                        == json_model_list(items@)[k] by {
                        assert(json_model(out@[k]) == json_model(items@[k]));
                    }
                    assert(json_model_list(out@) =~= json_model_list(items@));
                }
                r
            },
            JsonValue::Obj(pairs) => {
                let n = pairs.len();
                let mut out: Vec<(String, JsonValue)> = Vec::new();
                let mut i: usize = 0;
                while i < n
                    invariant
                        n == pairs@.len(),
                        0 <= i <= n,
                        out@.len() == i,
                        *self == JsonValue::Obj(*pairs),
                        forall|j: int| 0 <= j < i ==> (#[trigger] out@[j]).0@ == pairs@[j].0@
                            && json_model(out@[j].1) == json_model(pairs@[j].1),
                    decreases n - i,
                {
                    proof {
                        assert(decreases_to!(*self => (*self)->Obj_0));
                        assert(decreases_to!(*pairs => pairs@));
                        assert(decreases_to!(pairs@ => pairs@[i as int]));
                        assert(decreases_to!(pairs@[i as int] => pairs@[i as int].1));
                    }
                    let key = pairs[i].0.clone();
                    let val = pairs[i].1.duplicate();
                    out.push((key, val));
                    i += 1;
                }
                let r = JsonValue::Obj(out);
                proof {
                    lemma_json_model_pairs_index(out@);
                    lemma_json_model_pairs_index(pairs@);
                    assert forall|k: int| 0 <= k < pairs@.len() implies json_model_pairs(out@)[k]
                        == json_model_pairs(pairs@)[k] by {
                        assert((out@[k]).0@ == pairs@[k].0@ && json_model(out@[k].1) == json_model(
                            pairs@[k].1,
                        ));
                    }
                    assert(json_model_pairs(out@) =~= json_model_pairs(pairs@));
                }
                r
            },
        }
    }
}

} // verus!
