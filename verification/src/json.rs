use vstd::prelude::*;

verus! {

/// A parsed JSON document, holding what routing configuration reads: numbers
/// are kept as their unsigned 64-bit value when they have one, and object
/// members in the order the parser yields them.
pub enum Json {
    Null,
    Bool(bool),
    Number(Option<u64>),
    Str(String),
    Array(Vec<Json>),
    Object(Vec<(String, Json)>),
}

#[verifier::external_type_specification]
#[verifier::external_body]
pub struct ExJsonValue(serde_json::Value);

/// What `serde_json` makes of `text`: the document it parses `text` into,
/// or the text of its error when `text` is not valid JSON.
pub uninterp spec fn json_outcome(text: Seq<char>) -> Result<Json, Seq<char>>;

/// Converts a `serde_json::Value` variant by variant (numbers through
/// `Number::as_u64`, objects member by member); it claims nothing itself and
/// is only used by `parse_json`.
#[verifier::external_body]
fn json_from_value(v: serde_json::Value) -> Json {
    match v {
        serde_json::Value::Null => Json::Null,
        serde_json::Value::Bool(b) => Json::Bool(b),
        serde_json::Value::Number(n) => Json::Number(n.as_u64()),
        serde_json::Value::String(s) => Json::Str(s),
        serde_json::Value::Array(a) => Json::Array(a.into_iter().map(json_from_value).collect()),
        serde_json::Value::Object(m) => Json::Object(m.into_iter().map(|(k, x)| (k, json_from_value(x))).collect()),
    }
}

/// Calls `serde_json::from_str::<serde_json::Value>`: the parsed document,
/// or, when `text` is not valid JSON, the text of serde_json's error (its
/// `Display` form). Both are a function of the text alone; nothing more is
/// claimed about them.
#[verifier::external_body]
pub fn parse_json(text: &str) -> (r: Result<Json, String>)
    ensures
        match r {
            Ok(v) => json_outcome(text@) == Ok::<Json, Seq<char>>(v),
            Err(e) => json_outcome(text@) == Err::<Json, Seq<char>>(e@),
        },
{
    match serde_json::from_str::<serde_json::Value>(text) {
        Ok(v) => Ok(json_from_value(v)),
        Err(e) => Err(e.to_string()),
    }
}

/// Value of the first member named `key`.
pub open spec fn member(m: Seq<(String, Json)>, key: Seq<char>) -> Option<Json>
    decreases m.len(),
{
    if m.len() == 0 {
        None
    } else if m[0].0@ == key {
        Some(m[0].1)
    } else {
        member(m.drop_first(), key)
    }
}

/// The texts of the string items of `s`, other items skipped.
pub open spec fn string_items(s: Seq<Json>) -> Seq<Seq<char>>
    decreases s.len(),
{
    if s.len() == 0 {
        Seq::empty()
    } else {
        let rest = string_items(s.drop_first());
        match s[0] {
            Json::Str(x) => seq![x@] + rest,
            _ => rest,
        }
    }
}

/// The texts of a sequence of strings.
pub open spec fn texts(v: Seq<String>) -> Seq<Seq<char>> {
    v.map_values(|s: String| s@)
}

impl Json {
    pub open spec fn spec_get(&self, key: Seq<char>) -> Option<Json> {
        match self {
            Json::Object(m) => member(m@, key),
            _ => None,
        }
    }

    pub open spec fn spec_as_str(&self) -> Option<Seq<char>> {
        match self {
            Json::Str(s) => Some(s@),
            _ => None,
        }
    }

    pub open spec fn spec_as_u64(&self) -> Option<u64> {
        match self {
            Json::Number(n) => *n,
            _ => None,
        }
    }

    /// Texts of the string items of an array; empty for anything else.
    pub open spec fn spec_str_vec(&self) -> Seq<Seq<char>> {
        match self {
            Json::Array(a) => string_items(a@),
            _ => Seq::empty(),
        }
    }

    /// Member `key` of an object; `None` for a missing member or a non-object.
    pub fn get(&self, key: &str) -> (r: Option<&Json>)
        ensures
            r matches Some(x) ==> self.spec_get(key@) == Some(*x),
            r is None ==> self.spec_get(key@) is None,
    {
        match self {
            Json::Object(m) => {
                let n = m.len();
                let wanted = key.to_owned();
                let mut i: usize = 0;
                assert(m@.subrange(0, n as int) =~= m@);
                while i < n
                    invariant
                        n == m@.len(),
                        i <= n,
                        member(m@, key@) == member(m@.subrange(i as int, n as int), key@),
                        self.spec_get(key@) == member(m@, key@),
                        wanted@ == key@,
                    decreases n - i,
                {
                    proof {
                        let rest = m@.subrange(i as int, n as int);
                        assert(rest.drop_first() =~= m@.subrange(i + 1, n as int));
                        assert(rest[0] == m@[i as int]);
                    }
                    if m[i].0.eq(&wanted) {
                        return Some(&m[i].1);
                    }
                    i = i + 1;
                }
                None
            },
            _ => None,
        }
    }

    /// The text of a string value.
    pub fn as_str(&self) -> (r: Option<&String>)
        ensures
            r matches Some(s) ==> self.spec_as_str() == Some(s@),
            r is None ==> self.spec_as_str() is None,
    {
        match self {
            Json::Str(s) => Some(s),
            _ => None,
        }
    }

    /// The unsigned 64-bit value of a number.
    pub fn as_u64(&self) -> (r: Option<u64>)
        ensures
            r == self.spec_as_u64(),
    {
        match self {
            Json::Number(n) => *n,
            _ => None,
        }
    }

    /// The string items of an array, in order; empty for anything else.
    pub fn str_vec(&self) -> (r: Vec<String>)
        ensures
            texts(r@) == self.spec_str_vec(),
    {
        let mut r: Vec<String> = Vec::new();
        match self {
            Json::Array(a) => {
                let n = a.len();
                let mut i: usize = 0;
                proof {
                    assert(a@.subrange(0, n as int) =~= a@);
                    assert(texts(r@) =~= Seq::<Seq<char>>::empty());
                }
                while i < n
                    invariant
                        n == a@.len(),
                        i <= n,
                        texts(r@) + string_items(a@.subrange(i as int, n as int)) == string_items(a@),
                    decreases n - i,
                {
                    let ghost s = a@.subrange(i as int, n as int);
                    proof {
                        assert(s.drop_first() =~= a@.subrange(i + 1, n as int));
                        assert(s[0] == a@[i as int]);
                    }
                    match &a[i] {
                        Json::Str(x) => {
                            let ghost before = r@;
                            r.push(x.clone());
                            proof {
                                assert(texts(r@) =~= texts(before).push(x@));
                                assert(texts(r@) + string_items(a@.subrange(i + 1, n as int)) =~= texts(before)
                                    + string_items(s));
                            }
                        },
                        _ => {},
                    }
                    i = i + 1;
                }
                proof {
                    assert(a@.subrange(n as int, n as int) =~= Seq::<Json>::empty());
                    assert(texts(r@) + Seq::<Seq<char>>::empty() =~= texts(r@));
                }
                r
            },
            _ => {
                proof {
                    assert(texts(r@) =~= Seq::<Seq<char>>::empty());
                }
                r
            },
        }
    }
}

} // verus!
