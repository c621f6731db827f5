use vstd::prelude::*;

verus! {

/// A JSON value. A number keeps its textual form, which must be JSON number text (as
/// serde_json writes it, e.g. `60000` or `1.5`); an object is a list of entries in
/// which a later entry for a key overrides an earlier one.
#[derive(Debug, PartialEq, Eq)]
pub enum Json {
    Null,
    Bool(bool),
    Number(String),
    Str(String),
    Array(Vec<Json>),
    Object(Vec<(String, Json)>),
}

/// The mathematical value of a JSON document.
pub enum JsonView {
    Null,
    Bool(bool),
    Number(Seq<char>),
    Str(Seq<char>),
    Array(Seq<JsonView>),
    Object(Map<Seq<char>, JsonView>),
}

pub open spec fn json_view(j: Json) -> JsonView
    decreases j,
{
    match j {
        Json::Null => JsonView::Null,
        Json::Bool(b) => JsonView::Bool(b),
        Json::Number(n) => JsonView::Number(n@),
        Json::Str(s) => JsonView::Str(s@),
        Json::Array(v) => JsonView::Array(items_view(v@)),
        Json::Object(e) => JsonView::Object(entries_view(e@)),
    }
}

pub open spec fn items_view(s: Seq<Json>) -> Seq<JsonView>
    decreases s,
{
    if s.len() == 0 {
        Seq::empty()
    } else {
        items_view(s.drop_last()).push(json_view(s.last()))
    }
}

pub open spec fn entries_view(s: Seq<(String, Json)>) -> Map<Seq<char>, JsonView>
    decreases s,
{
    if s.len() == 0 {
        Map::empty()
    } else {
        entries_view(s.drop_last()).insert(s.last().0@, json_view(s.last().1))
    }
}

impl View for Json {
    type V = JsonView;

    open spec fn view(&self) -> JsonView {
        json_view(*self)
    }
}


/// `i` is the last position of `s` whose key is `k`.
pub open spec fn last_key_index(s: Seq<(String, Json)>, k: Seq<char>, i: int) -> bool {
    &&& 0 <= i < s.len()
    &&& s[i].0@ == k
    &&& forall|j: int| i < j < s.len() ==> s[j].0@ != k
}

/// No entry of `s` has the key `k`.
pub open spec fn no_key(s: Seq<(String, Json)>, k: Seq<char>) -> bool {
    forall|j: int| 0 <= j < s.len() ==> s[j].0@ != k
}

pub proof fn lemma_items_view(s: Seq<Json>)
    ensures
        items_view(s).len() == s.len(),
        forall|i: int| 0 <= i < s.len() ==> #[trigger] items_view(s)[i] == json_view(s[i]),
    decreases s.len(),
{
    if s.len() > 0 {
        lemma_items_view(s.drop_last());
    }
}

pub proof fn lemma_items_view_push(s: Seq<Json>, x: Json)
    ensures
        items_view(s.push(x)) == items_view(s).push(json_view(x)),
{
    assert(s.push(x).drop_last() =~= s);
}

pub proof fn lemma_entries_no_key(s: Seq<(String, Json)>, k: Seq<char>)
    requires
        no_key(s, k),
    ensures
        !entries_view(s).contains_key(k),
    decreases s.len(),
{
    if s.len() > 0 {
        lemma_entries_no_key(s.drop_last(), k);
    }
}

pub proof fn lemma_entries_last_key(s: Seq<(String, Json)>, k: Seq<char>, i: int)
    requires
        last_key_index(s, k, i),
    ensures
        entries_view(s).contains_key(k),
        entries_view(s)[k] == json_view(s[i].1),
    decreases s.len(),
{
    if i < s.len() - 1 {
        lemma_entries_last_key(s.drop_last(), k, i);
    }
}

/// Replacing the value at the last position of a key is an insertion into the map.
pub proof fn lemma_entries_update(s: Seq<(String, Json)>, k: Seq<char>, i: int, e: (String, Json))
    requires
        last_key_index(s, k, i),
        e.0@ == k,
    ensures
        entries_view(s.update(i, e)) == entries_view(s).insert(k, json_view(e.1)),
    decreases s.len(),
{
    let t = s.update(i, e);
    if i == s.len() - 1 {
        assert(t.drop_last() =~= s.drop_last());
        assert(entries_view(t) =~= entries_view(s).insert(k, json_view(e.1)));
    } else {
        assert(t.drop_last() =~= s.drop_last().update(i, e));
        lemma_entries_update(s.drop_last(), k, i, e);
        assert(entries_view(t) =~= entries_view(s).insert(k, json_view(e.1)));
    }
}

pub proof fn lemma_entries_push(s: Seq<(String, Json)>, e: (String, Json))
    ensures
        entries_view(s.push(e)) == entries_view(s).insert(e.0@, json_view(e.1)),
{
    assert(s.push(e).drop_last() =~= s);
}

/// Finds the last position of `key` among `entries`.
pub(crate) fn find_key(entries: &Vec<(String, Json)>, key: &str) -> (r: Option<usize>)
    ensures
        match r {
            Some(i) => last_key_index(entries@, key@, i as int),
            None => no_key(entries@, key@),
        },
{
    let k = String::from_str(key);
    let mut i = entries.len();
    while i > 0
        invariant
            i <= entries.len(),
            k@ == key@,
            forall|j: int| i <= j < entries.len() ==> entries@[j].0@ != key@,
        decreases i,
    {
        i = i - 1;
        if entries[i].0 == k {
            return Some(i);
        }
    }
    None
}

/// Looks up `key` in an object's entries.
fn entries_get<'a>(entries: &'a Vec<(String, Json)>, key: &str) -> (r: Option<&'a Json>)
    ensures
        entries_view(entries@).contains_key(key@) ==> r is Some && r.unwrap()@ == entries_view(
            entries@,
        )[key@],
        !entries_view(entries@).contains_key(key@) ==> r is None,
{
    match find_key(entries, key) {
        Some(i) => {
            proof {
                lemma_entries_last_key(entries@, key@, i as int);
            }
            Some(&entries[i].1)
        },
        None => {
            proof {
                lemma_entries_no_key(entries@, key@);
            }
            None
        },
    }
}

/// Sets `key` to `value` among an object's entries.
fn entries_insert(entries: &mut Vec<(String, Json)>, key: &str, value: Json)
    ensures
        entries_view(final(entries)@) == entries_view(old(entries)@).insert(key@, value@),
{
    let k = String::from_str(key);
    match find_key(entries, key) {
        Some(i) => {
            proof {
                lemma_entries_update(entries@, key@, i as int, (k, value));
            }
            entries.set(i, (k, value));
        },
        None => {
            proof {
                lemma_entries_push(entries@, (k, value));
            }
            entries.push((k, value));
        },
    }
}

impl Json {
    /// A copy of this value.
    #[verifier::loop_isolation(false)]
    pub fn deep_clone(&self) -> (r: Json)
        ensures
            r@ == self@,
        decreases self,
    {
        match self {
            Json::Null => Json::Null,
            Json::Bool(b) => Json::Bool(*b),
            Json::Number(n) => Json::Number(n.clone()),
            Json::Str(s) => Json::Str(s.clone()),
            Json::Array(v) => {
                let mut out: Vec<Json> = Vec::new();
                let mut i: usize = 0;
                while i < v.len()
                    invariant
                        i <= v.len(),
                        items_view(out@) == items_view(v@.take(i as int)),
                    decreases v.len() - i,
                {
                    let x = v[i].deep_clone();
                    proof {
                        lemma_items_view_push(out@, x);
                        lemma_items_view_push(v@.take(i as int), v@[i as int]);
                        assert(v@.take(i + 1) =~= v@.take(i as int).push(v@[i as int]));
                    }
                    out.push(x);
                    i = i + 1;
                }
                assert(v@.take(v.len() as int) =~= v@);
                Json::Array(out)
            },
            Json::Object(e) => {
                let mut out: Vec<(String, Json)> = Vec::new();
                let mut i: usize = 0;
                while i < e.len()
                    invariant
                        i <= e.len(),
                        entries_view(out@) == entries_view(e@.take(i as int)),
                    decreases e.len() - i,
                {
                    let x = (e[i].0.clone(), e[i].1.deep_clone());
                    proof {
                        lemma_entries_push(out@, x);
                        lemma_entries_push(e@.take(i as int), e@[i as int]);
                        assert(e@.take(i + 1) =~= e@.take(i as int).push(e@[i as int]));
                    }
                    out.push(x);
                    i = i + 1;
                }
                assert(e@.take(e.len() as int) =~= e@);
                Json::Object(out)
            },
        }
    }

    /// The value at `key` of an object; `None` for a missing key or a value that is not an object.
    pub fn get(&self, key: &str) -> (r: Option<&Json>)
        ensures
            r matches Some(v) ==> obj_get(self@, key@) == Some(v@),
            r is None ==> obj_get(self@, key@) is None,
    {
        match self {
            Json::Object(entries) => entries_get(entries, key),
            _ => None,
        }
    }

    /// The text of a string value.
    pub fn as_str(&self) -> (r: Option<&str>)
        ensures
            r matches Some(s) ==> self@ == JsonView::Str(s@),
            r is None ==> !(self@ is Str),
    {
        match self {
            Json::Str(s) => Some(s.as_str()),
            _ => None,
        }
    }

    /// The items of a list value.
    pub fn as_array(&self) -> (r: Option<&Vec<Json>>)
        ensures
            r matches Some(v) ==> self@ == JsonView::Array(items_view(v@)),
            r is None ==> !(self@ is Array),
    {
        match self {
            Json::Array(v) => Some(v),
            _ => None,
        }
    }

    /// An empty object.
    pub fn new_object() -> (r: Json)
        ensures
            r@ == JsonView::Object(Map::empty()),
    {
        Json::Object(Vec::new())
    }

    /// A string value.
    pub fn string(s: &str) -> (r: Json)
        ensures
            r@ == JsonView::Str(s@),
    {
        Json::Str(String::from_str(s))
    }

    /// A number value written as `text`, which must be JSON number text; other text
    /// is printed as a JSON string.
    pub fn number(text: &str) -> (r: Json)
        ensures
            r@ == JsonView::Number(text@),
    {
        Json::Number(String::from_str(text))
    }

    /// Sets `key` to `value` when `self` is an object; leaves any other value as it is.
    pub fn insert(&mut self, key: &str, value: Json)
        ensures
            old(self)@ matches JsonView::Object(m) ==> final(self)@ == JsonView::Object(
                m.insert(key@, value@),
            ),
            !(old(self)@ is Object) ==> final(self)@ == old(self)@,
    {
        match self {
            Json::Object(entries) => entries_insert(entries, key, value),
            _ => {},
        }
    }
}

/// The value at `key` of an object view.
pub open spec fn obj_get(j: JsonView, key: Seq<char>) -> Option<JsonView> {
    match j {
        JsonView::Object(m) => if m.contains_key(key) {
            Some(m[key])
        } else {
            None
        },
        _ => None,
    }
}

pub open spec fn opt_json_view(o: Option<Json>) -> Option<JsonView> {
    match o {
        Some(j) => Some(j@),
        None => None,
    }
}

pub open spec fn opt_string_view(o: Option<String>) -> Option<Seq<char>> {
    match o {
        Some(s) => Some(s@),
        None => None,
    }
}

pub open spec fn opt_str_view(o: Option<&str>) -> Option<Seq<char>> {
    match o {
        Some(s) => Some(s@),
        None => None,
    }
}

} // verus!
