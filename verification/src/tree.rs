use vstd::prelude::*;

use crate::json::{
    entries_view, find_key, items_view, lemma_items_view_push, lemma_entries_last_key, lemma_entries_no_key,
    lemma_entries_push, lemma_entries_update, Json, JsonView,
};

verus! {

/// Why an agent config cannot be updated.
#[derive(Debug, PartialEq, Eq)]
pub enum ConfigError {
    /// The key path is empty.
    EmptyKeyPath,
    /// The value that should hold this key is not an object.
    NotAnObject(String),
    /// The value at this last key is not a list.
    NotAList(String),
    /// The config file holds text that is not plain JSON; the parser's message.
    NotPlainJson(String),
}

pub enum ConfigErrorView {
    EmptyKeyPath,
    NotAnObject(Seq<char>),
    NotAList(Seq<char>),
    NotPlainJson(Seq<char>),
}

impl View for ConfigError {
    type V = ConfigErrorView;

    open spec fn view(&self) -> ConfigErrorView {
        match self {
            ConfigError::EmptyKeyPath => ConfigErrorView::EmptyKeyPath,
            ConfigError::NotAnObject(k) => ConfigErrorView::NotAnObject(k@),
            ConfigError::NotAList(k) => ConfigErrorView::NotAList(k@),
            ConfigError::NotPlainJson(d) => ConfigErrorView::NotPlainJson(d@),
        }
    }
}

/// The views of a list of keys.
pub open spec fn keys_view(keys: Seq<&str>) -> Seq<Seq<char>> {
    keys.map_values(|k: &str| k@)
}

/// The value at `k` of `m`, or an empty object where `m` has no `k`.
pub open spec fn child_or_empty(m: Map<Seq<char>, JsonView>, k: Seq<char>) -> JsonView {
    if m.contains_key(k) {
        m[k]
    } else {
        JsonView::Object(Map::empty())
    }
}

/// The list reached from `node` through `keys`, where a missing key stands for an
/// empty object (above the last key) or an empty list (at the last key).
pub open spec fn array_at(node: JsonView, keys: Seq<Seq<char>>) -> Result<
    Seq<JsonView>,
    ConfigErrorView,
>
    decreases keys.len(),
{
    if keys.len() == 0 {
        Err(ConfigErrorView::EmptyKeyPath)
    } else {
        match node {
            JsonView::Object(m) => if keys.len() == 1 {
                if !m.contains_key(keys[0]) {
                    Ok(Seq::empty())
                } else if let JsonView::Array(a) = m[keys[0]] {
                    Ok(a)
                } else {
                    Err(ConfigErrorView::NotAList(keys[0]))
                }
            } else {
                array_at(child_or_empty(m, keys[0]), keys.drop_first())
            },
            _ => Err(ConfigErrorView::NotAnObject(keys[0])),
        }
    }
}

/// `node` with the list `arr` placed at the end of `keys`, objects created on the way.
pub open spec fn with_array(node: JsonView, keys: Seq<Seq<char>>, arr: Seq<JsonView>) -> JsonView
    decreases keys.len(),
{
    if keys.len() == 0 {
        node
    } else {
        match node {
            JsonView::Object(m) => if keys.len() == 1 {
                JsonView::Object(m.insert(keys[0], JsonView::Array(arr)))
            } else {
                JsonView::Object(
                    m.insert(
                        keys[0],
                        with_array(child_or_empty(m, keys[0]), keys.drop_first(), arr),
                    ),
                )
            },
            _ => node,
        }
    }
}

/// The list that `node` already holds at the end of `keys`, without creating anything.
pub open spec fn existing_array(node: JsonView, keys: Seq<Seq<char>>) -> Option<Seq<JsonView>>
    decreases keys.len(),
{
    if keys.len() == 0 {
        None
    } else {
        match node {
            JsonView::Object(m) => if !m.contains_key(keys[0]) {
                None
            } else if keys.len() == 1 {
                if let JsonView::Array(a) = m[keys[0]] {
                    Some(a)
                } else {
                    None
                }
            } else {
                existing_array(m[keys[0]], keys.drop_first())
            },
            _ => None,
        }
    }
}

/// Placing a list twice at the same path keeps only the second.
pub proof fn lemma_with_array_twice(
    node: JsonView,
    keys: Seq<Seq<char>>,
    a: Seq<JsonView>,
    b: Seq<JsonView>,
)
    ensures
        with_array(with_array(node, keys, a), keys, b) == with_array(node, keys, b),
    decreases keys.len(),
{
    if keys.len() > 0 {
        if let JsonView::Object(m) = node {
            if keys.len() == 1 {
                assert(m.insert(keys[0], JsonView::Array(a)).insert(keys[0], JsonView::Array(b))
                    =~= m.insert(keys[0], JsonView::Array(b)));
            } else {
                let c = child_or_empty(m, keys[0]);
                lemma_with_array_twice(c, keys.drop_first(), a, b);
                let x = with_array(c, keys.drop_first(), a);
                let y = with_array(x, keys.drop_first(), b);
                assert(m.insert(keys[0], x).insert(keys[0], y) =~= m.insert(keys[0], y));
            }
        }
    }
}

/// After a list is placed at a path, the path leads to that list.
pub proof fn lemma_array_at_with_array(node: JsonView, keys: Seq<Seq<char>>, a: Seq<JsonView>)
    requires
        array_at(node, keys) is Ok,
    ensures
        array_at(with_array(node, keys, a), keys) == Ok::<Seq<JsonView>, ConfigErrorView>(a),
        existing_array(with_array(node, keys, a), keys) == Some(a),
    decreases keys.len(),
{
    if keys.len() > 1 {
        if let JsonView::Object(m) = node {
            let c = child_or_empty(m, keys[0]);
            lemma_array_at_with_array(c, keys.drop_first(), a);
        }
    }
}

/// A list that is already there is what the path leads to, and placing it again
/// changes nothing.
pub proof fn lemma_existing_array(node: JsonView, keys: Seq<Seq<char>>)
    requires
        existing_array(node, keys) is Some,
    ensures
        array_at(node, keys) == Ok::<Seq<JsonView>, ConfigErrorView>(
            existing_array(node, keys).unwrap(),
        ),
        with_array(node, keys, existing_array(node, keys).unwrap()) == node,
    decreases keys.len(),
{
    if let JsonView::Object(m) = node {
        if keys.len() == 1 {
            assert(m.insert(keys[0], m[keys[0]]) =~= m);
        } else {
            lemma_existing_array(m[keys[0]], keys.drop_first());
            let a = existing_array(node, keys).unwrap();
            assert(m.insert(keys[0], with_array(m[keys[0]], keys.drop_first(), a)) =~= m);
        }
    }
}

proof fn lemma_keys_skip(keys: Seq<&str>, idx: int)
    requires
        0 <= idx < keys.len(),
    ensures
        keys_view(keys).skip(idx).len() > 0,
        keys_view(keys).skip(idx)[0] == keys[idx]@,
        keys_view(keys).skip(idx).drop_first() == keys_view(keys).skip(idx + 1),
{
    assert(keys_view(keys).skip(idx).drop_first() =~= keys_view(keys).skip(idx + 1));
}

proof fn lemma_remove_insert(s: Seq<(String, Json)>, i: int, e: (String, Json))
    requires
        0 <= i < s.len(),
    ensures
        s.remove(i).insert(i, e) == s.update(i, e),
{
    assert(s.remove(i).insert(i, e) =~= s.update(i, e));
}

fn take_array_from(node: &mut Json, keys: &[&str], idx: usize) -> (r: Result<Vec<Json>, ConfigError>)
    requires
        idx < keys.len(),
    ensures
        match array_at(old(node)@, keys_view(keys@).skip(idx as int)) {
            Ok(a) => r matches Ok(v) && items_view(v@) == a && final(node)@ == with_array(
                old(node)@,
                keys_view(keys@).skip(idx as int),
                Seq::empty(),
            ),
            Err(e) => r matches Err(x) && x@ == e && final(node)@ == old(node)@,
        },
    decreases keys.len() - idx,
{
    proof {
        lemma_keys_skip(keys@, idx as int);
    }
    let ghost ks = keys_view(keys@).skip(idx as int);
    let key = keys[idx];
    match node {
        Json::Object(entries) => {
            let ghost e0 = entries@;
            if idx + 1 == keys.len() {
                match find_key(entries, key) {
                    None => {
                        proof {
                            lemma_entries_no_key(entries@, key@);
                        }
                        let k = String::from_str(key);
                        let pushed = (k, Json::Array(Vec::new()));
                        proof {
                            lemma_entries_push(entries@, pushed);
                        }
                        entries.push(pushed);
                        let out: Vec<Json> = Vec::new();
                        assert(items_view(out@) =~= Seq::<JsonView>::empty());
                        Ok(out)
                    },
                    Some(i) => {
                        proof {
                            lemma_entries_last_key(entries@, key@, i as int);
                        }
                        let (k, v) = entries.remove(i);
                        match v {
                            Json::Array(a) => {
                                let e = (k, Json::Array(Vec::new()));
                                proof {
                                    lemma_remove_insert(e0, i as int, e);
                                    lemma_entries_update(e0, key@, i as int, e);
                                }
                                entries.insert(i, e);
                                Ok(a)
                            },
                            other => {
                                let e = (k, other);
                                proof {
                                    lemma_remove_insert(e0, i as int, e);
                                    assert(e0.update(i as int, e) =~= e0);
                                }
                                entries.insert(i, e);
                                Err(ConfigError::NotAList(String::from_str(key)))
                            },
                        }
                    },
                }
            } else {
                match find_key(entries, key) {
                    None => {
                        proof {
                            lemma_entries_no_key(entries@, key@);
                        }
                        let mut child = Json::new_object();
                        let r = take_array_from(&mut child, keys, idx + 1);
                        match r {
                            Ok(a) => {
                                let k = String::from_str(key);
                                proof {
                                    lemma_entries_push(entries@, (k, child));
                                }
                                entries.push((k, child));
                                Ok(a)
                            },
                            Err(e) => Err(e),
                        }
                    },
                    Some(i) => {
                        proof {
                            lemma_entries_last_key(entries@, key@, i as int);
                        }
                        let (k, mut child) = entries.remove(i);
                        let ghost c0 = child;
                        let r = take_array_from(&mut child, keys, idx + 1);
                        let e = (k, child);
                        proof {
                            lemma_remove_insert(e0, i as int, e);
                            lemma_entries_update(e0, key@, i as int, e);
                            if r is Err {
                                assert(entries_view(e0).insert(key@, e.1@)
                                    =~= entries_view(e0));
                            }
                        }
                        entries.insert(i, e);
                        r
                    },
                }
            }
        },
        _ => Err(ConfigError::NotAnObject(String::from_str(key))),
    }
}

fn put_array_from(node: &mut Json, keys: &[&str], idx: usize, arr: Vec<Json>)
    requires
        idx < keys.len(),
    ensures
        final(node)@ == with_array(old(node)@, keys_view(keys@).skip(idx as int), items_view(arr@)),
    decreases keys.len() - idx,
{
    proof {
        lemma_keys_skip(keys@, idx as int);
    }
    let key = keys[idx];
    match node {
        Json::Object(entries) => {
            let ghost e0 = entries@;
            if idx + 1 == keys.len() {
                let k = String::from_str(key);
                match find_key(entries, key) {
                    None => {
                        let e = (k, Json::Array(arr));
                        proof {
                            lemma_entries_push(e0, e);
                        }
                        entries.push(e);
                    },
                    Some(i) => {
                        let e = (k, Json::Array(arr));
                        proof {
                            lemma_entries_update(e0, key@, i as int, e);
                        }
                        entries.set(i, e);
                    },
                }
            } else {
                match find_key(entries, key) {
                    None => {
                        proof {
                            lemma_entries_no_key(e0, key@);
                        }
                        let mut child = Json::new_object();
                        put_array_from(&mut child, keys, idx + 1, arr);
                        let e = (String::from_str(key), child);
                        proof {
                            lemma_entries_push(e0, e);
                        }
                        entries.push(e);
                    },
                    Some(i) => {
                        proof {
                            lemma_entries_last_key(e0, key@, i as int);
                        }
                        let (k, mut child) = entries.remove(i);
                        put_array_from(&mut child, keys, idx + 1, arr);
                        let e = (k, child);
                        proof {
                            lemma_remove_insert(e0, i as int, e);
                            lemma_entries_update(e0, key@, i as int, e);
                        }
                        entries.insert(i, e);
                    },
                }
            }
        },
        _ => {},
    }
}

/// Walks `keys` from `root`, creating objects as needed, and takes out the list at
/// the end (an empty list where there was none), leaving an empty list in its place.
/// On an error `root` is left as it was. The caller puts the edited list back.
pub(crate) fn take_array_at(root: &mut Json, keys: &[&str]) -> (r: Result<Vec<Json>, ConfigError>)
    ensures
        match array_at(old(root)@, keys_view(keys@)) {
            Ok(a) => r matches Ok(v) && items_view(v@) == a && final(root)@ == with_array(
                old(root)@,
                keys_view(keys@),
                Seq::empty(),
            ),
            Err(e) => r matches Err(x) && x@ == e && final(root)@ == old(root)@,
        },
{
    if keys.len() == 0 {
        return Err(ConfigError::EmptyKeyPath);
    }
    assert(keys_view(keys@).skip(0) =~= keys_view(keys@));
    take_array_from(root, keys, 0)
}

/// A copy of a list of values.
fn clone_items(v: &Vec<Json>) -> (r: Vec<Json>)
    ensures
        items_view(r@) == items_view(v@),
{
    let mut out: Vec<Json> = Vec::new();
    let mut i: usize = 0;
    while i < v.len()
        invariant
            i <= v.len(),
            items_view(out@) == items_view(v@.take(i as int)),
        decreases v.len() - i,
    {
        let x = v[i].deep_clone();
        proof {
            lemma_items_view_push(out@, x);
            lemma_items_view_push(v@.take(i as int), v@[i as int]);
            assert(v@.take(i + 1) =~= v@.take(i as int).push(v@[i as int]));
        }
        out.push(x);
        i = i + 1;
    }
    assert(v@.take(v.len() as int) =~= v@);
    out
}

/// Walks `keys` from `root`, creating objects as needed (a missing key above the last
/// becomes an empty object, a missing last key an empty list), and returns a copy of
/// the list at the end. The list itself stays in `root`; on an error `root` is left
/// as it was.
pub fn json_array_at(root: &mut Json, keys: &[&str]) -> (r: Result<Vec<Json>, ConfigError>)
    ensures
        match array_at(old(root)@, keys_view(keys@)) {
            Ok(a) => r matches Ok(v) && items_view(v@) == a && final(root)@ == with_array(
                old(root)@,
                keys_view(keys@),
                a,
            ),
            Err(e) => r matches Err(x) && x@ == e && final(root)@ == old(root)@,
        },
{
    let ghost r0 = root@;
    let list = match take_array_at(root, keys) {
        Ok(l) => l,
        Err(e) => return Err(e),
    };
    let copy = clone_items(&list);
    proof {
        lemma_with_array_twice(r0, keys_view(keys@), Seq::empty(), items_view(list@));
    }
    put_array_at(root, keys, list);
    Ok(copy)
}

/// Places `arr` at the end of `keys`, creating objects as needed.
pub fn put_array_at(root: &mut Json, keys: &[&str], arr: Vec<Json>)
    ensures
        final(root)@ == with_array(old(root)@, keys_view(keys@), items_view(arr@)),
{
    if keys.len() == 0 {
        return;
    }
    assert(keys_view(keys@).skip(0) =~= keys_view(keys@));
    put_array_from(root, keys, 0, arr);
}

fn has_array_from(node: &Json, keys: &[&str], idx: usize) -> (r: bool)
    requires
        idx < keys.len(),
    ensures
        r == existing_array(node@, keys_view(keys@).skip(idx as int)) is Some,
    decreases keys.len() - idx,
{
    proof {
        lemma_keys_skip(keys@, idx as int);
    }
    match node.get(keys[idx]) {
        None => false,
        Some(child) => {
            if idx + 1 == keys.len() {
                match child {
                    Json::Array(_) => true,
                    _ => false,
                }
            } else {
                has_array_from(child, keys, idx + 1)
            }
        },
    }
}

/// Whether `root` already holds a list at the end of `keys`.
pub fn has_array_at(root: &Json, keys: &[&str]) -> (r: bool)
    ensures
        r == existing_array(root@, keys_view(keys@)) is Some,
{
    if keys.len() == 0 {
        return false;
    }
    assert(keys_view(keys@).skip(0) =~= keys_view(keys@));
    has_array_from(root, keys, 0)
}

} // verus!
