use vstd::prelude::*;

verus! {

/// A JSON document as the library reads and builds it.
/// Numbers are split the way the parser reports them: non-negative
/// integers, negative integers, and any other number kept as its text.
#[derive(Debug)]
pub enum Json {
    Null,
    Bool(bool),
    UInt(u64),
    Int(i64),
    Float(String),
    Str(String),
    Array(Vec<Json>),
    Object(Vec<(String, Json)>),
}

/// The mathematical value of a [`Json`] document.
pub enum JsonV {
    Null,
    Bool(bool),
    UInt(u64),
    Int(i64),
    Float(Seq<char>),
    Str(Seq<char>),
    Array(Seq<JsonV>),
    Object(Seq<(Seq<char>, JsonV)>),
}

pub open spec fn json_view(j: Json) -> JsonV
    decreases j, 0nat,
{
    match j {
        Json::Null => JsonV::Null,
        Json::Bool(b) => JsonV::Bool(b),
        Json::UInt(n) => JsonV::UInt(n),
        Json::Int(n) => JsonV::Int(n),
        Json::Float(t) => JsonV::Float(t@),
        Json::Str(s) => JsonV::Str(s@),
        Json::Array(v) => JsonV::Array(json_seq_view(v@)),
        Json::Object(f) => JsonV::Object(json_fields_view(f@)),
    }
}

pub open spec fn json_seq_view(s: Seq<Json>) -> Seq<JsonV>
    decreases s, 1nat,
{
    if s.len() == 0 {
        Seq::empty()
    } else {
        seq![json_view(s[0])] + json_seq_view(s.subrange(1, s.len() as int))
    }
}

pub open spec fn json_fields_view(s: Seq<(String, Json)>) -> Seq<(Seq<char>, JsonV)>
    decreases s, 1nat,
{
    if s.len() == 0 {
        Seq::empty()
    } else {
        seq![(s[0].0@, json_view(s[0].1))] + json_fields_view(s.subrange(1, s.len() as int))
    }
}

impl View for Json {
    type V = JsonV;

    open spec fn view(&self) -> JsonV {
        json_view(*self)
    }
}


pub proof fn lemma_seq_view(s: Seq<Json>)
    ensures
        json_seq_view(s).len() == s.len(),
        forall|i: int| 0 <= i < s.len() ==> #[trigger] json_seq_view(s)[i] == json_view(s[i]),
    decreases s.len(),
{
    if s.len() > 0 {
        let rest = s.subrange(1, s.len() as int);
        lemma_seq_view(rest);
        assert forall|i: int| 0 <= i < s.len() implies #[trigger] json_seq_view(s)[i] == json_view(
            s[i],
        ) by {
            if i > 0 {
                assert(rest[i - 1] == s[i]);
            }
        }
    }
}

pub proof fn lemma_fields_view(s: Seq<(String, Json)>)
    ensures
        json_fields_view(s).len() == s.len(),
        forall|i: int|
            0 <= i < s.len() ==> #[trigger] json_fields_view(s)[i] == (s[i].0@, json_view(s[i].1)),
    decreases s.len(),
{
    if s.len() > 0 {
        let rest = s.subrange(1, s.len() as int);
        lemma_fields_view(rest);
        assert forall|i: int| 0 <= i < s.len() implies #[trigger] json_fields_view(s)[i] == (
            s[i].0@,
            json_view(s[i].1),
        ) by {
            if i > 0 {
                assert(rest[i - 1] == s[i]);
            }
        }
    }
}

/// The value under the first field named `key` in `fields`.
pub open spec fn lookup(fields: Seq<(Seq<char>, JsonV)>, key: Seq<char>) -> Option<JsonV>
    decreases fields.len(),
{
    if fields.len() == 0 {
        None
    } else if fields[0].0 == key {
        Some(fields[0].1)
    } else {
        lookup(fields.drop_first(), key)
    }
}

/// `Value::get` with a string key: the field `key` of an object, `None` for anything else.
pub open spec fn jget(v: JsonV, key: Seq<char>) -> Option<JsonV> {
    match v {
        JsonV::Object(fields) => lookup(fields, key),
        _ => None,
    }
}

/// `Value::as_str`.
pub open spec fn jstr(v: JsonV) -> Option<Seq<char>> {
    match v {
        JsonV::Str(s) => Some(s),
        _ => None,
    }
}

/// `Value::as_u64`.
pub open spec fn ju64(v: JsonV) -> Option<u64> {
    match v {
        JsonV::UInt(n) => Some(n),
        _ => None,
    }
}

/// The string under `key`, if the field exists and holds a string.
pub open spec fn field_str(v: JsonV, key: Seq<char>) -> Option<Seq<char>> {
    match jget(v, key) {
        Some(f) => jstr(f),
        None => None,
    }
}

/// The unsigned integer under `key`, if the field exists and holds one.
pub open spec fn field_u64(v: JsonV, key: Seq<char>) -> Option<u64> {
    match jget(v, key) {
        Some(f) => ju64(f),
        None => None,
    }
}

/// The items under `key`, if the field exists and holds an array.
pub open spec fn field_array(v: JsonV, key: Seq<char>) -> Option<Seq<JsonV>> {
    match jget(v, key) {
        Some(JsonV::Array(a)) => Some(a),
        _ => None,
    }
}

/// `Option<&str>::unwrap_or("")`.
pub open spec fn or_empty(o: Option<Seq<char>>) -> Seq<char> {
    match o {
        Some(s) => s,
        None => Seq::empty(),
    }
}

/// A JSON array of strings.
pub open spec fn str_array(v: Seq<String>) -> JsonV {
    JsonV::Array(v.map_values(|x: String| JsonV::Str(x@)))
}

/// `fields` with `key` set to `value`: the first field of that name is replaced in place,
/// else the field is added at the end.
pub open spec fn obj_set(fields: Seq<(Seq<char>, JsonV)>, key: Seq<char>, value: JsonV) -> Seq<
    (Seq<char>, JsonV),
>
    decreases fields.len(),
{
    if fields.len() == 0 {
        seq![(key, value)]
    } else if fields[0].0 == key {
        fields.update(0, (key, value))
    } else {
        seq![fields[0]] + obj_set(fields.drop_first(), key, value)
    }
}

/// `value[key] = v` on a JSON value: an object gets the field set, anything else is unchanged.
pub open spec fn spec_set_field(j: JsonV, key: Seq<char>, value: JsonV) -> JsonV {
    match j {
        JsonV::Object(fields) => JsonV::Object(obj_set(fields, key, value)),
        _ => j,
    }
}

/// Reading a field back after setting it gives the value set; every other field reads as
/// before.
pub proof fn law_set_then_get(fields: Seq<(Seq<char>, JsonV)>, key: Seq<char>, value: JsonV, other: Seq<char>)
    ensures
        jget(spec_set_field(JsonV::Object(fields), key, value), key) == Some(value),
        other != key ==> jget(spec_set_field(JsonV::Object(fields), key, value), other) == jget(
            JsonV::Object(fields),
            other,
        ),
    decreases fields.len(),
{
    if fields.len() > 0 && fields[0].0 != key {
        let rest = fields.drop_first();
        law_set_then_get(rest, key, value, other);
        let set = seq![fields[0]] + obj_set(rest, key, value);
        assert(obj_set(fields, key, value) == set);
        assert(set[0] == fields[0]);
        assert(set.drop_first() =~= obj_set(rest, key, value));
    } else if fields.len() > 0 {
        let set = fields.update(0, (key, value));
        assert(set.drop_first() =~= fields.drop_first());
        assert(set[0] == (key, value));
        if other != key {
            assert(lookup(set, other) == lookup(set.drop_first(), other));
            assert(lookup(fields, other) == lookup(fields.drop_first(), other));
        }
    } else {
        let set = seq![(key, value)];
        assert(set.drop_first() =~= Seq::<(Seq<char>, JsonV)>::empty());
        if other != key {
            assert(lookup(set, other) == lookup(set.drop_first(), other));
        }
    }
}

/// A JSON string.
pub fn jstr_of(s: &str) -> (r: Json)
    ensures
        r@ == JsonV::Str(s@),
{
    Json::Str(crate::text::owned(s))
}

/// A JSON array of the strings `v`.
pub fn str_array_of(v: &Vec<String>) -> (r: Json)
    ensures
        r@ == str_array(v@),
{
    let mut out: Vec<Json> = Vec::new();
    let mut i: usize = 0;
    while i < v.len()
        invariant
            i <= v.len(),
            out@.len() == i,
            forall|k: int| 0 <= k < i ==> json_view(#[trigger] out@[k]) == JsonV::Str(v@[k]@),
        decreases v.len() - i,
    {
        out.push(Json::Str(v[i].clone()));
        i = i + 1;
    }
    proof {
        lemma_seq_view(out@);
        assert(json_seq_view(out@) =~= v@.map_values(|x: String| JsonV::Str(x@)));
    }
    Json::Array(out)
}

proof fn lemma_obj_set_at(fields: Seq<(Seq<char>, JsonV)>, key: Seq<char>, value: JsonV, i: int)
    requires
        0 <= i <= fields.len(),
        forall|k: int| 0 <= k < i ==> fields[k].0 != key,
        i < fields.len() ==> fields[i].0 == key,
    ensures
        obj_set(fields, key, value) == if i < fields.len() {
            fields.update(i, (key, value))
        } else {
            fields.push((key, value))
        },
    decreases fields.len(),
{
    if fields.len() > 0 && i > 0 {
        let t = fields.drop_first();
        assert forall|k: int| 0 <= k < i - 1 implies t[k].0 != key by {
            assert(t[k] == fields[k + 1]);
        }
        lemma_obj_set_at(t, key, value, i - 1);
        if i < fields.len() {
            assert(seq![fields[0]] + t.update(i - 1, (key, value)) =~= fields.update(i, (key, value)));
        } else {
            assert(seq![fields[0]] + t.push((key, value)) =~= fields.push((key, value)));
        }
    } else if fields.len() == 0 {
        assert(seq![(key, value)] =~= fields.push((key, value)));
    }
}

impl Json {
    /// `value[key] = v`: sets a field of an object; anything else is left unchanged.
    pub fn set_field(&mut self, key: &str, value: Json)
        ensures
            final(self)@ == spec_set_field(old(self)@, key@, value@),
    {
        match self {
            Json::Object(fields) => {
                proof {
                    lemma_fields_view(fields@);
                }
                let ghost fv = json_fields_view(fields@);
                let mut i: usize = 0;
                while i < fields.len()
                    invariant
                        i <= fields.len(),
                        fv == json_fields_view(fields@),
                        fv.len() == fields.len(),
                        forall|k: int|
                            0 <= k < fields.len() ==> #[trigger] fv[k] == (
                                fields@[k].0@,
                                json_view(fields@[k].1),
                            ),
                        forall|k: int| 0 <= k < i ==> fields@[k].0@ != key@,
                    ensures
                        i <= fields.len(),
                        fv == json_fields_view(fields@),
                        fv.len() == fields.len(),
                        forall|k: int|
                            0 <= k < fields.len() ==> #[trigger] fv[k] == (
                                fields@[k].0@,
                                json_view(fields@[k].1),
                            ),
                        forall|k: int| 0 <= k < i ==> fields@[k].0@ != key@,
                        i < fields.len() ==> fields@[i as int].0@ == key@,
                    decreases fields.len() - i,
                {
                    if crate::text::str_eq(fields[i].0.as_str(), key) {
                        break;
                    }
                    i = i + 1;
                }
                proof {
                    lemma_obj_set_at(fv, key@, value@, i as int);
                }
                let ghost old_fields = fields@;
                if i < fields.len() {
                    fields.set(i, (crate::text::owned(key), value));
                    proof {
                        lemma_fields_view(fields@);
                        assert(fields@ == old_fields.update(i as int, fields@[i as int]));
                        assert(json_fields_view(fields@) =~= fv.update(i as int, (key@, value@)));
                    }
                } else {
                    fields.push((crate::text::owned(key), value));
                    proof {
                        lemma_fields_view(fields@);
                        assert(json_fields_view(fields@) =~= fv.push((key@, value@)));
                    }
                }
            },
            _ => {},
        }
    }

    /// A copy of this value.
    #[verifier::loop_isolation(false)]
    pub fn duplicate(&self) -> (r: Json)
        ensures
            r@ == self@,
        decreases self,
    {
        match self {
            Json::Null => Json::Null,
            Json::Bool(b) => Json::Bool(*b),
            Json::UInt(n) => Json::UInt(*n),
            Json::Int(n) => Json::Int(*n),
            Json::Float(t) => Json::Float(t.clone()),
            Json::Str(t) => Json::Str(t.clone()),
            Json::Array(a) => {
                let mut out: Vec<Json> = Vec::new();
                let mut i: usize = 0;
                while i < a.len()
                    invariant
                        i <= a.len(),
                        out@.len() == i,
                        forall|k: int| 0 <= k < i ==> json_view(#[trigger] out@[k]) == json_view(a@[k]),
                    decreases a.len() - i,
                {
                    proof {
                        assert(decreases_to!(*self => *a));
                        assert(decreases_to!(*a => a@));
                        assert(decreases_to!(a@ => a@[i as int]));
                    }
                    out.push(a[i].duplicate());
                    i = i + 1;
                }
                proof {
                    lemma_seq_view(out@);
                    lemma_seq_view(a@);
                    assert(json_seq_view(out@) =~= json_seq_view(a@));
                }
                Json::Array(out)
            },
            Json::Object(f) => {
                let mut out: Vec<(String, Json)> = Vec::new();
                let mut i: usize = 0;
                while i < f.len()
                    invariant
                        i <= f.len(),
                        out@.len() == i,
                        forall|k: int| 0 <= k < i ==> (#[trigger] out@[k]).0@ == f@[k].0@ && json_view(out@[k].1) == json_view(f@[k].1),
                    decreases f.len() - i,
                {
                    proof {
                        assert(decreases_to!(*self => *f));
                        assert(decreases_to!(*f => f@));
                        assert(decreases_to!(f@ => f@[i as int]));
                        assert(decreases_to!(f@[i as int] => f@[i as int].1));
                    }
                    out.push((f[i].0.clone(), f[i].1.duplicate()));
                    i = i + 1;
                }
                proof {
                    lemma_fields_view(out@);
                    lemma_fields_view(f@);
                    assert(json_fields_view(out@) =~= json_fields_view(f@));
                }
                Json::Object(out)
            },
        }
    }

    /// `Value::get` with a string key.
    pub fn get(&self, key: &str) -> (r: Option<&Json>)
        ensures
            match r {
                Some(j) => jget(self@, key@) == Some(j@),
                None => jget(self@, key@) is None,
            },
    {
        match self {
            Json::Object(fields) => {
                proof {
                    lemma_fields_view(fields@);
                }
                let ghost fv = json_fields_view(fields@);
                assert(fv.subrange(0, fv.len() as int) == fv);
                assert(self@ == JsonV::Object(fv));
                let mut i: usize = 0;
                while i < fields.len()
                    invariant
                        fv == json_fields_view(fields@),
                        self@ == JsonV::Object(fv),
                        fv.len() == fields.len(),
                        forall|k: int|
                            0 <= k < fields.len() ==> #[trigger] fv[k] == (
                                fields@[k].0@,
                                json_view(fields@[k].1),
                            ),
                        i <= fields.len(),
                        lookup(fv, key@) == lookup(fv.subrange(i as int, fv.len() as int), key@),
                    decreases fields.len() - i,
                {
                    let ghost rest = fv.subrange(i as int, fv.len() as int);
                    assert(rest[0] == fv[i as int]);
                    if crate::text::str_eq(fields[i].0.as_str(), key) {
                        assert(rest.len() > 0 && rest[0].0 == key@);
                        assert(lookup(rest, key@) == Some(json_view(fields@[i as int].1)));
                        return Some(&fields[i].1);
                    }
                    assert(rest.drop_first() == fv.subrange(i + 1, fv.len() as int));
                    i = i + 1;
                }
                None
            },
            _ => None,
        }
    }

    /// `Value::as_str`.
    pub fn as_str(&self) -> (r: Option<&String>)
        ensures
            match r {
                Some(s) => jstr(self@) == Some(s@),
                None => jstr(self@) is None,
            },
    {
        match self {
            Json::Str(s) => Some(s),
            _ => None,
        }
    }

    /// `Value::as_u64`.
    pub fn as_u64(&self) -> (r: Option<u64>)
        ensures
            r == ju64(self@),
    {
        match self {
            Json::UInt(n) => Some(*n),
            _ => None,
        }
    }

    /// `Value::as_array`.
    pub fn as_array(&self) -> (r: Option<&Vec<Json>>)
        ensures
            match r {
                Some(a) => self@ == JsonV::Array(json_seq_view(a@)),
                None => !(self@ is Array),
            },
    {
        match self {
            Json::Array(a) => Some(a),
            _ => None,
        }
    }

    /// The string under `key`, cloned.
    pub fn str_field(&self, key: &str) -> (r: Option<String>)
        ensures
            match r {
                Some(s) => field_str(self@, key@) == Some(s@),
                None => field_str(self@, key@) is None,
            },
    {
        match self.get(key) {
            Some(f) => match f.as_str() {
                Some(s) => Some(s.clone()),
                None => None,
            },
            None => None,
        }
    }

    /// The unsigned integer under `key`.
    pub fn u64_field(&self, key: &str) -> (r: Option<u64>)
        ensures
            r == field_u64(self@, key@),
    {
        match self.get(key) {
            Some(f) => f.as_u64(),
            None => None,
        }
    }
}


/// Adding a field at the end: the first field of a name still wins, and a new name reads as
/// the value added.
pub proof fn lemma_lookup_push(f: Seq<(Seq<char>, JsonV)>, k: Seq<char>, v: JsonV, q: Seq<char>)
    ensures
        lookup(f.push((k, v)), q) == (if lookup(f, q) is Some {
            lookup(f, q)
        } else if q == k {
            Some(v)
        } else {
            None::<JsonV>
        }),
    decreases f.len(),
{
    let g = f.push((k, v));
    if f.len() == 0 {
        assert(g.drop_first() =~= Seq::<(Seq<char>, JsonV)>::empty());
    } else {
        assert(g.drop_first() =~= f.drop_first().push((k, v)));
        assert(g[0] == f[0]);
        lemma_lookup_push(f.drop_first(), k, v, q);
    }
}

} // verus!
