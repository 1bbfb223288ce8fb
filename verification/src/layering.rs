//! Layering the user's `miz.toml` over the vendor's, key by key, before the
//! merged table is read as a configuration.
use crate::error::MizError;
use crate::text::{opt_string, push_str, str_eq, to_owned};
use vstd::prelude::*;

verus! {

#[verifier::external_type_specification]
#[verifier::external_body]
pub struct ExTomlValue(toml::Value);

/// A TOML value split by what it is: a table (its entries), an array (its
/// items), a string, or anything else.
pub enum TomlVariant {
    Table(Vec<(String, toml::Value)>),
    Array(Vec<toml::Value>),
    Str(String),
    Other,
}

/// The content of a [`TomlVariant`].
pub enum TomlV {
    Table(Seq<(Seq<char>, toml::Value)>),
    Array(Seq<toml::Value>),
    Str(Seq<char>),
    Other,
}

pub open spec fn variant_view(x: TomlVariant) -> TomlV {
    match x {
        TomlVariant::Table(t) => TomlV::Table(sub_view(t@)),
        TomlVariant::Array(a) => TomlV::Array(a@),
        TomlVariant::Str(s) => TomlV::Str(s@),
        TomlVariant::Other => TomlV::Other,
    }
}

/// What `toml` parses a document into: its top-level entries, or the parse
/// error's message.
pub uninterp spec fn toml_parse(text: Seq<char>) -> Result<Seq<(Seq<char>, toml::Value)>, Seq<char>>;

/// What kind of TOML value `v` is, with its parts.
pub uninterp spec fn toml_variant_of(v: toml::Value) -> TomlV;

pub open spec fn parse_view(r: Result<Vec<(String, toml::Value)>, String>) -> Result<Seq<(Seq<char>, toml::Value)>, Seq<char>> {
    match r {
        Ok(t) => Ok(sub_view(t@)),
        Err(m) => Err(m@),
    }
}

/// Parses `text` as a TOML document with `toml::Table`'s `FromStr` impl.
/// Claimed: the entries (or the error's `Display` text) are what `toml`
/// yields for `text`, and no key stands twice (the table is a map).
#[verifier::external_body]
fn parse_toml_table(text: &str) -> (r: Result<Vec<(String, toml::Value)>, String>)
    ensures
        parse_view(r) == toml_parse(text@),
        r matches Ok(t) ==> unique_keys(sub_view(t@)),
{
    match text.parse::<toml::Table>() {
        Ok(t) => Ok(t.into_iter().collect()),
        Err(e) => Err(e.to_string()),
    }
}

/// Tells the variants of a `toml::Value` apart, copying out the parts of a
/// table, an array or a string. Claimed: the parts are those of `v`, and a
/// table's keys are distinct (it is a map).
#[verifier::external_body]
fn toml_variant(v: &toml::Value) -> (r: TomlVariant)
    ensures
        variant_view(r) == toml_variant_of(*v),
        r matches TomlVariant::Table(t) ==> unique_keys(sub_view(t@)),
{
    match v {
        toml::Value::Table(t) => TomlVariant::Table(t.clone().into_iter().collect()),
        toml::Value::Array(a) => TomlVariant::Array(a.clone()),
        toml::Value::String(s) => TomlVariant::Str(s.clone()),
        _ => TomlVariant::Other,
    }
}

/// An element of a top-level array: the value, and the string under its
/// `name` key when it is a table that has one.
#[derive(Debug)]
pub struct Element {
    pub name: Option<String>,
    pub value: toml::Value,
}

/// A top-level value: a table (whose values are carried as they are), an
/// array, or any other value.
#[derive(Debug)]
pub enum TopValue {
    Table(Vec<(String, toml::Value)>),
    Array(Vec<Element>),
    Other(toml::Value),
}

/// The content of a top-level value.
pub enum TopV {
    Table(Seq<(Seq<char>, toml::Value)>),
    Array(Seq<(Option<Seq<char>>, toml::Value)>),
    Other(toml::Value),
}

pub open spec fn elem_view(e: Element) -> (Option<Seq<char>>, toml::Value) {
    (match e.name {
        Some(n) => Some(n@),
        None => None,
    }, e.value)
}

pub open spec fn array_view(a: Seq<Element>) -> Seq<(Option<Seq<char>>, toml::Value)> {
    a.map_values(|e: Element| elem_view(e))
}

pub open spec fn sub_view(t: Seq<(String, toml::Value)>) -> Seq<(Seq<char>, toml::Value)> {
    t.map_values(|e: (String, toml::Value)| (e.0@, e.1))
}

pub open spec fn top_view(v: TopValue) -> TopV {
    match v {
        TopValue::Table(t) => TopV::Table(sub_view(t@)),
        TopValue::Array(a) => TopV::Array(array_view(a@)),
        TopValue::Other(x) => TopV::Other(x),
    }
}

pub open spec fn opt_top_view(v: Option<TopValue>) -> Option<TopV> {
    match v {
        Some(x) => Some(top_view(x)),
        None => None,
    }
}

pub open spec fn table_view(t: Seq<(String, TopValue)>) -> Seq<(Seq<char>, TopV)> {
    t.map_values(|e: (String, TopValue)| (e.0@, top_view(e.1)))
}

/// Where key `k` first stands in `t`, or -1.
pub open spec fn key_pos<V>(t: Seq<(Seq<char>, V)>, k: Seq<char>) -> int
    decreases t.len(),
{
    if t.len() == 0 {
        -1
    } else if key_pos(t.drop_last(), k) >= 0 {
        key_pos(t.drop_last(), k)
    } else if t.last().0 == k {
        t.len() - 1
    } else {
        -1
    }
}

/// The value under `k`.
pub open spec fn get<V>(t: Seq<(Seq<char>, V)>, k: Seq<char>) -> Option<V> {
    if key_pos(t, k) >= 0 {
        Some(t[key_pos(t, k)].1)
    } else {
        None
    }
}

/// `t` with `k` set to `v`: replaced where it stands, else added.
pub open spec fn put<V>(t: Seq<(Seq<char>, V)>, k: Seq<char>, v: V) -> Seq<(Seq<char>, V)> {
    if key_pos(t, k) >= 0 {
        t.update(key_pos(t, k), (k, v))
    } else {
        t.push((k, v))
    }
}

/// `t` without the entry for `k`.
pub open spec fn del<V>(t: Seq<(Seq<char>, V)>, k: Seq<char>) -> Seq<(Seq<char>, V)> {
    if key_pos(t, k) >= 0 {
        t.remove(key_pos(t, k))
    } else {
        t
    }
}

/// Every entry of `u` put into `t` in turn.
pub open spec fn put_all<V>(t: Seq<(Seq<char>, V)>, u: Seq<(Seq<char>, V)>) -> Seq<(Seq<char>, V)>
    decreases u.len(),
{
    if u.len() == 0 {
        t
    } else {
        let r = put_all(t, u.drop_last());
        put(r, u.last().0, u.last().1)
    }
}

proof fn lemma_key_pos<V>(t: Seq<(Seq<char>, V)>, k: Seq<char>)
    ensures
        -1 <= key_pos(t, k) < t.len(),
        key_pos(t, k) >= 0 ==> t[key_pos(t, k)].0 == k,
        key_pos(t, k) >= 0 ==> forall|j: int| 0 <= j < key_pos(t, k) ==> t[j].0 != k,
        key_pos(t, k) < 0 ==> forall|j: int| 0 <= j < t.len() ==> t[j].0 != k,
    decreases t.len(),
{
    if t.len() > 0 {
        let d = t.drop_last();
        lemma_key_pos(d, k);
        if key_pos(d, k) >= 0 || t.last().0 == k {
            assert forall|j: int| 0 <= j < key_pos(t, k) implies t[j].0 != k by {
                assert(t[j] == d[j]);
            }
        } else {
            assert forall|j: int| 0 <= j < t.len() implies t[j].0 != k by {
                if j < d.len() {
                    assert(t[j] == d[j]);
                }
            }
        }
    }
}

/// Find a key in a table.
fn find_key<V>(t: &Vec<(String, V)>, k: &str) -> (r: Option<usize>)
    ensures
        match r {
            Some(i) => i < t@.len() && key_pos(t@.map_values(|e: (String, V)| (e.0@, e.1)), k@) == i,
            None => key_pos(t@.map_values(|e: (String, V)| (e.0@, e.1)), k@) == -1,
        },
{
    let ghost tv = t@.map_values(|e: (String, V)| (e.0@, e.1));
    proof {
        lemma_key_pos(tv, k@);
    }
    let mut i: usize = 0;
    while i < t.len()
        invariant
            0 <= i <= t@.len(),
            tv == t@.map_values(|e: (String, V)| (e.0@, e.1)),
            -1 <= key_pos(tv, k@) < tv.len(),
            key_pos(tv, k@) >= 0 ==> tv[key_pos(tv, k@)].0 == k@,
            key_pos(tv, k@) >= 0 ==> forall|j: int| 0 <= j < key_pos(tv, k@) ==> tv[j].0 != k@,
            key_pos(tv, k@) < 0 ==> forall|j: int| 0 <= j < tv.len() ==> tv[j].0 != k@,
            forall|j: int| 0 <= j < i ==> tv[j].0 != k@,
        decreases t@.len() - i,
    {
        if str_eq(t[i].0.as_str(), k) {
            proof {
                assert(tv[i as int].0 == k@);
            }
            return Some(i);
        }
        proof {
            assert(tv[i as int].0 == t@[i as int].0@);
        }
        i = i + 1;
    }
    None
}

/// Set `k` to `v` in a table of carried values.
fn put_sub(t: &mut Vec<(String, toml::Value)>, k: String, v: toml::Value)
    ensures
        sub_view(final(t)@) == put(sub_view(old(t)@), k@, v),
{
    proof {
        assert(sub_view(t@) =~= t@.map_values(|e: (String, toml::Value)| (e.0@, e.1)));
    }
    match find_key(t, k.as_str()) {
        Some(i) => {
            let ghost kv = k@;
            t.set(i, (k, v));
            proof {
                assert(sub_view(t@) =~= put(sub_view(old(t)@), kv, v));
            }
        },
        None => {
            let ghost kv = k@;
            t.push((k, v));
            proof {
                assert(sub_view(t@) =~= put(sub_view(old(t)@), kv, v));
            }
        },
    }
}

/// Set `k` to `v` in the top-level table.
fn put_top(t: &mut Vec<(String, TopValue)>, k: String, v: TopValue)
    ensures
        table_view(final(t)@) == put(table_view(old(t)@), k@, top_view(v)),
{
    proof {
        assert(table_view(t@) =~= t@.map_values(|e: (String, TopValue)| (e.0@, e.1)).map_values(|e: (Seq<char>, TopValue)| (e.0, top_view(e.1))));
    }
    let ghost kv = k@;
    let ghost tv = top_view(v);
    match find_key(t, k.as_str()) {
        Some(i) => {
            proof {
                lemma_key_pos_views(old(t)@, kv);
            }
            t.set(i, (k, v));
            proof {
                assert(table_view(t@) =~= put(table_view(old(t)@), kv, tv));
            }
        },
        None => {
            proof {
                lemma_key_pos_views(old(t)@, kv);
            }
            t.push((k, v));
            proof {
                assert(table_view(t@) =~= put(table_view(old(t)@), kv, tv));
            }
        },
    }
}

/// No key stands twice in `t`, as in a TOML table.
pub open spec fn unique_keys<V>(t: Seq<(Seq<char>, V)>) -> bool {
    forall|i: int, j: int| 0 <= i < j < t.len() ==> t[i].0 != t[j].0
}

proof fn lemma_key_pos_is<V>(t: Seq<(Seq<char>, V)>, k: Seq<char>, i: int)
    requires
        (0 <= i < t.len() && t[i].0 == k && forall|j: int| 0 <= j < i ==> t[j].0 != k)
            || (i == -1 && forall|j: int| 0 <= j < t.len() ==> t[j].0 != k),
    ensures
        key_pos(t, k) == i,
{
    lemma_key_pos(t, k);
    let p = key_pos(t, k);
    if p >= 0 && i >= 0 {
        if p < i {
            assert(t[p].0 != k);
        } else if i < p {
            assert(t[i].0 != k);
        }
    } else if p >= 0 {
        assert(t[p].0 != k);
    } else if i >= 0 {
        assert(t[i].0 != k);
    }
}

proof fn lemma_get_put<V>(t: Seq<(Seq<char>, V)>, k: Seq<char>, x: V, k2: Seq<char>)
    ensures
        get(put(t, k, x), k2) == (if k2 == k { Some(x) } else { get(t, k2) }),
        unique_keys(t) ==> unique_keys(put(t, k, x)),
{
    lemma_key_pos(t, k);
    lemma_key_pos(t, k2);
    let p = key_pos(t, k);
    let t2 = put(t, k, x);
    let q = if p >= 0 { p } else { t.len() as int };
    assert(t2[q] == (k, x));
    assert forall|j: int| 0 <= j < t2.len() && j != q implies #[trigger] t2[j] == t[j] by {}
    if k2 == k {
        assert forall|j: int| 0 <= j < q implies t2[j].0 != k2 by {
            assert(t2[j] == t[j]);
        }
        lemma_key_pos_is(t2, k2, q);
    } else {
        let p2 = key_pos(t, k2);
        if p2 >= 0 {
            assert forall|j: int| 0 <= j < p2 implies t2[j].0 != k2 by {
                if j != q {
                    assert(t2[j] == t[j]);
                }
            }
            assert(p2 != q);
            assert(t2[p2] == t[p2]);
            lemma_key_pos_is(t2, k2, p2);
        } else {
            assert forall|j: int| 0 <= j < t2.len() implies t2[j].0 != k2 by {
                if j != q {
                    assert(t2[j] == t[j]);
                }
            }
            lemma_key_pos_is(t2, k2, -1);
        }
    }
    if unique_keys(t) {
        assert forall|i: int, j: int| 0 <= i < j < t2.len() implies t2[i].0 != t2[j].0 by {
            if i != q && j != q {
                assert(t2[i] == t[i] && t2[j] == t[j]);
            } else if i == q {
                assert(t2[j] == t[j]);
                if p < 0 {
                    assert(false);
                }
            } else {
                assert(t2[i] == t[i]);
            }
        }
    }
}

proof fn lemma_get_del_push<V>(t: Seq<(Seq<char>, V)>, k: Seq<char>, y: V, k2: Seq<char>)
    requires
        unique_keys(t),
    ensures
        get(del(t, k).push((k, y)), k2) == (if k2 == k { Some(y) } else { get(t, k2) }),
        unique_keys(del(t, k).push((k, y))),
{
    lemma_key_pos(t, k);
    lemma_key_pos(t, k2);
    let p = key_pos(t, k);
    let d = del(t, k);
    let t2 = d.push((k, y));
    // every entry of `d` is an entry of `t` other than the one for `k`
    assert forall|j: int| 0 <= j < d.len() implies #[trigger] d[j] == t[if p >= 0 && j >= p { j + 1 } else { j }] by {}
    assert forall|j: int| 0 <= j < d.len() implies #[trigger] d[j].0 != k by {
        let jj = if p >= 0 && j >= p { j + 1 } else { j };
        assert(d[j] == t[jj]);
        if p >= 0 {
            assert(jj != p);
            if jj < p {
                assert(t[p].0 != t[jj].0);
            } else {
                assert(t[jj].0 != t[p].0);
            }
        }
    }
    assert forall|i: int, j: int| 0 <= i < j < t2.len() implies t2[i].0 != t2[j].0 by {
        if j == d.len() {
            assert(t2[i] == d[i]);
            assert(d[i].0 != k);
        } else {
            let ii = if p >= 0 && i >= p { i + 1 } else { i };
            let jj = if p >= 0 && j >= p { j + 1 } else { j };
            assert(t2[i] == d[i] && t2[j] == d[j]);
            assert(d[i] == t[ii] && d[j] == t[jj]);
            assert(ii < jj);
        }
    }
    let n = d.len() as int;
    if k2 == k {
        assert forall|j: int| 0 <= j < n implies t2[j].0 != k2 by {
            assert(t2[j] == d[j]);
        }
        lemma_key_pos_is(t2, k2, n);
    } else {
        let p2 = key_pos(t, k2);
        if p2 >= 0 {
            assert(p2 != p);
            let q = if p >= 0 && p2 > p { p2 - 1 } else { p2 };
            assert(d[q] == t[p2]);
            assert forall|j: int| 0 <= j < q implies t2[j].0 != k2 by {
                let jj = if p >= 0 && j >= p { j + 1 } else { j };
                assert(t2[j] == d[j]);
                assert(d[j] == t[jj]);
                assert(jj < p2);
            }
            assert(t2[q] == d[q]);
            lemma_key_pos_is(t2, k2, q);
        } else {
            assert forall|j: int| 0 <= j < t2.len() implies t2[j].0 != k2 by {
                if j < n {
                    let jj = if p >= 0 && j >= p { j + 1 } else { j };
                    assert(t2[j] == d[j]);
                    assert(d[j] == t[jj]);
                }
            }
            lemma_key_pos_is(t2, k2, -1);
        }
    }
}

/// Per-key override of a section: after the user's entries are put over the
/// vendor's, a key the user wrote has the user's value, and any other key
/// keeps the vendor's.
pub proof fn law_user_keys_win(vendor: Seq<(Seq<char>, toml::Value)>, user: Seq<(Seq<char>, toml::Value)>, k: Seq<char>)
    requires
        unique_keys(user),
    ensures
        get(put_all(vendor, user), k) == (if get(user, k) is Some { get(user, k) } else { get(vendor, k) }),
    decreases user.len(),
{
    if user.len() > 0 {
        let u = user.drop_last();
        assert(unique_keys(u));
        law_user_keys_win(vendor, u, k);
        let (lk, lv) = user.last();
        lemma_get_put(put_all(vendor, u), lk, lv, k);
        lemma_key_pos(u, k);
        lemma_key_pos(user, k);
        if k == lk {
            assert forall|j: int| 0 <= j < u.len() implies u[j].0 != k by {
                assert(user[j] == u[j]);
                assert(user[j].0 != user[user.len() - 1].0);
            }
            lemma_key_pos_is(u, k, -1);
            assert forall|j: int| 0 <= j < user.len() - 1 implies user[j].0 != k by {
                assert(user[j] == u[j]);
            }
            lemma_key_pos_is(user, k, user.len() - 1);
        } else {
            if key_pos(u, k) >= 0 {
                assert forall|j: int| 0 <= j < key_pos(u, k) implies user[j].0 != k by {
                    assert(user[j] == u[j]);
                }
                assert(user[key_pos(u, k)] == u[key_pos(u, k)]);
                lemma_key_pos_is(user, k, key_pos(u, k));
            } else {
                assert forall|j: int| 0 <= j < user.len() implies user[j].0 != k by {
                    if j < u.len() {
                        assert(user[j] == u[j]);
                    }
                }
                lemma_key_pos_is(user, k, -1);
            }
        }
    }
}

/// Layering as a whole: a top-level key the user wrote takes the user's
/// entry layered over the vendor's (see [`layer_value`]); a key only the
/// vendor has keeps the vendor's value; and no key comes to stand twice.
pub proof fn law_layered(vendor: Seq<(Seq<char>, TopV)>, user: Seq<(Seq<char>, TopV)>, k: Seq<char>)
    requires
        unique_keys(vendor),
        unique_keys(user),
    ensures
        get(layered(vendor, user), k) == (match get(user, k) {
            Some(x) => Some(layer_value(k, get(vendor, k), x)),
            None => get(vendor, k),
        }),
        unique_keys(layered(vendor, user)),
    decreases user.len(),
{
    reveal_strlit("options");
    reveal_strlit("archetype");
    reveal_strlit("repos");
    if user.len() > 0 {
        let u = user.drop_last();
        assert(unique_keys(u));
        let (lk, lx) = user.last();
        law_layered(vendor, u, k);
        law_layered(vendor, u, lk);
        let r = layered(vendor, u);
        let special = lk == "options"@ || lk == "archetype"@ || lk == "repos"@;
        if special {
            lemma_get_del_push(r, lk, layer_value(lk, get(r, lk), lx), k);
        } else {
            lemma_get_put(r, lk, lx, k);
        }
        lemma_key_pos(u, k);
        lemma_key_pos(u, lk);
        assert forall|j: int| 0 <= j < u.len() implies u[j].0 != lk by {
            assert(user[j] == u[j]);
            assert(user[j].0 != user[user.len() - 1].0);
        }
        lemma_key_pos_is(u, lk, -1);
        if !special {
            assert(layer_value(lk, get(vendor, lk), lx) == lx);
        }
        if k == lk {
            assert forall|j: int| 0 <= j < user.len() - 1 implies user[j].0 != k by {
                assert(user[j] == u[j]);
            }
            lemma_key_pos_is(user, k, user.len() - 1);
        } else {
            if key_pos(u, k) >= 0 {
                assert forall|j: int| 0 <= j < key_pos(u, k) implies user[j].0 != k by {
                    assert(user[j] == u[j]);
                }
                assert(user[key_pos(u, k)] == u[key_pos(u, k)]);
                lemma_key_pos_is(user, k, key_pos(u, k));
            } else {
                assert forall|j: int| 0 <= j < user.len() implies user[j].0 != k by {
                    if j < u.len() {
                        assert(user[j] == u[j]);
                    }
                }
                lemma_key_pos_is(user, k, -1);
            }
        }
    }
}

proof fn lemma_key_pos_views(t: Seq<(String, TopValue)>, k: Seq<char>)
    ensures
        key_pos(t.map_values(|e: (String, TopValue)| (e.0@, e.1)), k) == key_pos(table_view(t), k),
    decreases t.len(),
{
    if t.len() > 0 {
        lemma_key_pos_views(t.drop_last(), k);
        assert(t.drop_last().map_values(|e: (String, TopValue)| (e.0@, e.1)) =~= t.map_values(|e: (String, TopValue)| (e.0@, e.1)).drop_last());
        assert(table_view(t.drop_last()) =~= table_view(t).drop_last());
    }
}

/// Per-key override of one section: each user key replaces or adds.
pub fn merge_sub_table(vendor: Vec<(String, toml::Value)>, user: Vec<(String, toml::Value)>) -> (r: Vec<(String, toml::Value)>)
    ensures
        sub_view(r@) == put_all(sub_view(vendor@), sub_view(user@)),
{
    let mut out = vendor;
    let ghost v0 = sub_view(out@);
    let ghost uv = sub_view(user@);
    let mut rest = user;
    let ghost all = rest@;
    while rest.len() > 0
        invariant
            rest@.len() <= all.len(),
            rest@ == all.skip(all.len() - rest@.len()),
            uv == sub_view(all),
            sub_view(out@) == put_all(v0, uv.take(all.len() - rest@.len())),
        decreases rest@.len(),
    {
        let ghost n = all.len() - rest@.len();
        let ghost r0 = rest@;
        let (k, v) = rest.remove(0);
        proof {
            assert(r0[0] == all[n]);
            assert(rest@ =~= all.skip(n + 1));
            assert(uv.take(n + 1).drop_last() =~= uv.take(n));
            assert(uv.take(n + 1).last() == (k@, v));
        }
        put_sub(&mut out, k, v);
    }
    proof {
        assert(uv.take(all.len() as int) =~= uv);
    }
    out
}

/// The repository entries of `v` with those of `u` layered over them: an
/// entry named like an existing one replaces the first such in place; any
/// other is appended.
pub open spec fn repo_pos(t: Seq<(Option<Seq<char>>, toml::Value)>, n: Seq<char>) -> int
    decreases t.len(),
{
    if t.len() == 0 {
        -1
    } else if repo_pos(t.drop_last(), n) >= 0 {
        repo_pos(t.drop_last(), n)
    } else if t.last().0 == Some(n) {
        t.len() - 1
    } else {
        -1
    }
}

pub open spec fn repos_merged(v: Seq<(Option<Seq<char>>, toml::Value)>, u: Seq<(Option<Seq<char>>, toml::Value)>) -> Seq<(Option<Seq<char>>, toml::Value)>
    decreases u.len(),
{
    if u.len() == 0 {
        v
    } else {
        let r = repos_merged(v, u.drop_last());
        let e = u.last();
        match e.0 {
            Some(n) => if repo_pos(r, n) >= 0 {
                r.update(repo_pos(r, n), e)
            } else {
                r.push(e)
            },
            None => r.push(e),
        }
    }
}

proof fn lemma_repo_pos(t: Seq<(Option<Seq<char>>, toml::Value)>, n: Seq<char>)
    ensures
        -1 <= repo_pos(t, n) < t.len(),
        repo_pos(t, n) >= 0 ==> t[repo_pos(t, n)].0 == Some(n),
        repo_pos(t, n) >= 0 ==> forall|j: int| 0 <= j < repo_pos(t, n) ==> t[j].0 != Some(n),
        repo_pos(t, n) < 0 ==> forall|j: int| 0 <= j < t.len() ==> t[j].0 != Some(n),
    decreases t.len(),
{
    if t.len() > 0 {
        let d = t.drop_last();
        lemma_repo_pos(d, n);
        if repo_pos(d, n) >= 0 || t.last().0 == Some(n) {
            assert forall|j: int| 0 <= j < repo_pos(t, n) implies t[j].0 != Some(n) by {
                assert(t[j] == d[j]);
            }
        } else {
            assert forall|j: int| 0 <= j < t.len() implies t[j].0 != Some(n) by {
                if j < d.len() {
                    assert(t[j] == d[j]);
                }
            }
        }
    }
}

/// No repository name stands twice in `t`.
pub open spec fn unique_names(t: Seq<(Option<Seq<char>>, toml::Value)>) -> bool {
    forall|i: int, j: int| 0 <= i < j < t.len() && t[i].0 is Some ==> t[i].0 != t[j].0
}

/// The vendor's entries, each replaced by the user's entry of the same name
/// where there is one.
pub open spec fn repos_replaced(v: Seq<(Option<Seq<char>>, toml::Value)>, u: Seq<(Option<Seq<char>>, toml::Value)>) -> Seq<(Option<Seq<char>>, toml::Value)> {
    Seq::new(v.len(), |i: int| match v[i].0 {
        Some(n) => if repo_pos(u, n) >= 0 { u[repo_pos(u, n)] } else { v[i] },
        None => v[i],
    })
}

/// Whether a user entry names no vendor entry.
pub open spec fn repo_is_new(v: Seq<(Option<Seq<char>>, toml::Value)>, e: (Option<Seq<char>>, toml::Value)) -> bool {
    match e.0 {
        Some(n) => repo_pos(v, n) < 0,
        None => true,
    }
}

/// The user's entries that name no vendor entry, in the user's order.
pub open spec fn repos_appended(v: Seq<(Option<Seq<char>>, toml::Value)>, u: Seq<(Option<Seq<char>>, toml::Value)>) -> Seq<(Option<Seq<char>>, toml::Value)>
    decreases u.len(),
{
    if u.len() == 0 {
        Seq::empty()
    } else {
        let a = repos_appended(v, u.drop_last());
        if repo_is_new(v, u.last()) {
            a.push(u.last())
        } else {
            a
        }
    }
}

proof fn lemma_repo_pos_is(t: Seq<(Option<Seq<char>>, toml::Value)>, n: Seq<char>, i: int)
    requires
        (0 <= i < t.len() && t[i].0 == Some(n) && forall|j: int| 0 <= j < i ==> t[j].0 != Some(n))
            || (i == -1 && forall|j: int| 0 <= j < t.len() ==> t[j].0 != Some(n)),
    ensures
        repo_pos(t, n) == i,
{
    lemma_repo_pos(t, n);
    let p = repo_pos(t, n);
    if p >= 0 && i >= 0 {
        if p < i {
            assert(t[p].0 != Some(n));
        } else if i < p {
            assert(t[i].0 != Some(n));
        }
    } else if p >= 0 {
        assert(t[p].0 != Some(n));
    } else if i >= 0 {
        assert(t[i].0 != Some(n));
    }
}

/// Merging `[[repos]]` by name: the vendor's entries keep their places, each
/// replaced by the user's entry of the same name where there is one, and the
/// user's entries with new names (or none) follow in the user's order.
pub proof fn law_repos_replace_in_place_then_append(v: Seq<(Option<Seq<char>>, toml::Value)>, u: Seq<(Option<Seq<char>>, toml::Value)>)
    requires
        unique_names(v),
        unique_names(u),
    ensures
        repos_merged(v, u) == repos_replaced(v, u) + repos_appended(v, u),
        forall|i: int| 0 <= i < repos_appended(v, u).len() ==> !repo_is_new(u, #[trigger] repos_appended(v, u)[i]) || repos_appended(v, u)[i].0 is None,
    decreases u.len(),
{
    if u.len() == 0 {
        assert(repos_replaced(v, u) =~= v);
        assert(repos_replaced(v, u) + repos_appended(v, u) =~= v);
    } else {
        let w = u.drop_last();
        let e = u.last();
        assert(unique_names(w));
        law_repos_replace_in_place_then_append(v, w);
        let r = repos_merged(v, w);
        let rr = repos_replaced(v, w);
        let aa = repos_appended(v, w);
        lemma_repo_pos(v, e.0.unwrap_or(Seq::empty()));
        // a name other than the last entry's stands where it stood in `w`
        assert forall|m: Seq<char>| e.0 != Some(m) implies #[trigger] repo_pos(u, m) == repo_pos(w, m) by {
            lemma_repo_pos(w, m);
        }
        assert forall|j: int| 0 <= j < w.len() implies #[trigger] u[j] == w[j] by {}
        // the replaced part keeps the vendor's names
        assert forall|i: int| 0 <= i < v.len() implies (#[trigger] rr[i]).0 == v[i].0 by {
            if let Some(m) = v[i].0 {
                lemma_repo_pos(w, m);
            }
        }
        match e.0 {
            Some(n) => {
                lemma_repo_pos(w, n);
                assert forall|j: int| 0 <= j < w.len() implies w[j].0 != Some(n) by {
                    assert(u[j] == w[j]);
                    assert(u[j].0 != u[u.len() - 1].0);
                }
                lemma_repo_pos_is(w, n, -1);
                assert(repo_pos(u, n) == u.len() - 1);
                let p = repo_pos(v, n);
                if p >= 0 {
                    assert forall|j: int| 0 <= j < p implies r[j].0 != Some(n) by {
                        assert(r[j] == rr[j]);
                    }
                    assert(r[p] == rr[p]);
                    lemma_repo_pos_is(r, n, p);
                    assert(repos_appended(v, u) == aa);
                    assert forall|i: int| 0 <= i < v.len() implies #[trigger] repos_replaced(v, u)[i] == (if i == p { e } else { rr[i] }) by {
                        if i != p {
                            if let Some(m) = v[i].0 {
                                if i < p {
                                    assert(v[i].0 != v[p].0);
                                } else {
                                    assert(v[p].0 != v[i].0);
                                }
                                assert(repo_pos(u, m) == repo_pos(w, m));
                                lemma_repo_pos(w, m);
                            }
                        }
                    }
                    assert(repos_merged(v, u) =~= repos_replaced(v, u) + repos_appended(v, u));
                } else {
                    assert forall|j: int| 0 <= j < r.len() implies r[j].0 != Some(n) by {
                        if j < rr.len() {
                            assert(r[j] == rr[j]);
                        } else {
                            assert(r[j] == aa[j - rr.len()]);
                            if let Some(m) = aa[j - rr.len()].0 {
                                assert(repo_pos(w, m) >= 0);
                            }
                        }
                    }
                    lemma_repo_pos_is(r, n, -1);
                    assert forall|i: int| 0 <= i < v.len() implies #[trigger] repos_replaced(v, u)[i] == rr[i] by {
                        if let Some(m) = v[i].0 {
                            assert(repo_pos(u, m) == repo_pos(w, m));
                            lemma_repo_pos(w, m);
                        }
                    }
                    assert(repos_replaced(v, u) =~= rr);
                    assert(repos_appended(v, u) == aa.push(e));
                    assert(repos_merged(v, u) =~= repos_replaced(v, u) + repos_appended(v, u));
                    assert forall|i: int| 0 <= i < repos_appended(v, u).len() implies !repo_is_new(u, #[trigger] repos_appended(v, u)[i]) || repos_appended(v, u)[i].0 is None by {
                        if i < aa.len() {
                            assert(repos_appended(v, u)[i] == aa[i]);
                            if let Some(m) = aa[i].0 {
                                assert(repo_pos(w, m) >= 0);
                                assert(m != n);
                            }
                        }
                    }
                }
            },
            None => {
                assert forall|i: int| 0 <= i < v.len() implies #[trigger] repos_replaced(v, u)[i] == rr[i] by {
                    if let Some(m) = v[i].0 {
                        assert(repo_pos(u, m) == repo_pos(w, m));
                        lemma_repo_pos(w, m);
                    }
                }
                assert(repos_replaced(v, u) =~= rr);
                assert(repos_appended(v, u) == aa.push(e));
                assert(repos_merged(v, u) =~= repos_replaced(v, u) + repos_appended(v, u));
                assert forall|i: int| 0 <= i < repos_appended(v, u).len() implies !repo_is_new(u, #[trigger] repos_appended(v, u)[i]) || repos_appended(v, u)[i].0 is None by {
                    if i < aa.len() {
                        assert(repos_appended(v, u)[i] == aa[i]);
                        if let Some(m) = aa[i].0 {
                            assert(repo_pos(w, m) >= 0);
                        }
                    }
                }
            },
        }
    }
}

fn find_repo(t: &Vec<Element>, n: &str) -> (r: Option<usize>)
    ensures
        match r {
            Some(i) => i < t@.len() && repo_pos(array_view(t@), n@) == i,
            None => repo_pos(array_view(t@), n@) == -1,
        },
{
    let ghost tv = array_view(t@);
    proof {
        lemma_repo_pos(tv, n@);
    }
    let mut i: usize = 0;
    while i < t.len()
        invariant
            0 <= i <= t@.len(),
            tv == array_view(t@),
            -1 <= repo_pos(tv, n@) < tv.len(),
            repo_pos(tv, n@) >= 0 ==> tv[repo_pos(tv, n@)].0 == Some(n@),
            repo_pos(tv, n@) >= 0 ==> forall|j: int| 0 <= j < repo_pos(tv, n@) ==> tv[j].0 != Some(n@),
            repo_pos(tv, n@) < 0 ==> forall|j: int| 0 <= j < tv.len() ==> tv[j].0 != Some(n@),
            forall|j: int| 0 <= j < i ==> tv[j].0 != Some(n@),
        decreases t@.len() - i,
    {
        let hit = match &t[i].name {
            Some(x) => str_eq(x.as_str(), n),
            None => false,
        };
        if hit {
            proof {
                assert(tv[i as int].0 == Some(n@));
            }
            return Some(i);
        }
        proof {
            assert(tv[i as int] == elem_view(t@[i as int]));
        }
        i = i + 1;
    }
    None
}

/// Merge `[[repos]]` arrays by `name`: the same name replaces in place, a new
/// one is appended; an entry without a string name is appended as it is.
pub fn merge_repos_by_name(vendor: Vec<Element>, user: Vec<Element>) -> (r: Vec<Element>)
    ensures
        array_view(r@) == repos_merged(
            array_view(vendor@),
            array_view(user@),
        ),
{
    let mut out = vendor;
    let ghost v0 = array_view(out@);
    let ghost uv = array_view(user@);
    let mut rest = user;
    let ghost all = rest@;
    while rest.len() > 0
        invariant
            rest@.len() <= all.len(),
            rest@ == all.skip(all.len() - rest@.len()),
            uv == array_view(all),
            array_view(out@) == repos_merged(v0, uv.take(all.len() - rest@.len())),
        decreases rest@.len(),
    {
        let ghost n = all.len() - rest@.len();
        let ghost r0 = rest@;
        let e = rest.remove(0);
        let ghost ev = elem_view(e);
        let ghost o0 = out@;
        proof {
            assert(r0[0] == all[n]);
            assert(rest@ =~= all.skip(n + 1));
            assert(uv.take(n + 1).drop_last() =~= uv.take(n));
            assert(uv.take(n + 1).last() == ev);
        }
        let pos = match &e.name {
            Some(x) => find_repo(&out, x.as_str()),
            None => None,
        };
        match pos {
            Some(i) => {
                out.set(i, e);
            },
            None => {
                out.push(e);
            },
        }
        proof {
            assert(array_view(out@) =~= repos_merged(v0, uv.take(n + 1)));
        }
    }
    proof {
        assert(uv.take(all.len() as int) =~= uv);
    }
    out
}

/// The merge of one user entry into the vendor table: `options` and
/// `archetype` tables merge per key, `repos` arrays merge by name, and
/// anything else the user gives replaces the vendor's.
pub open spec fn layer_value(key: Seq<char>, vendor: Option<TopV>, user: TopV) -> TopV {
    if key == "options"@ || key == "archetype"@ {
        match (vendor, user) {
            (Some(TopV::Table(v)), TopV::Table(u)) => TopV::Table(put_all(v, u)),
            _ => user,
        }
    } else if key == "repos"@ {
        match (vendor, user) {
            (Some(TopV::Array(v)), TopV::Array(u)) => TopV::Array(repos_merged(v, u)),
            _ => user,
        }
    } else {
        user
    }
}

/// The user table layered over the vendor table, entry by entry.
pub open spec fn layered(v: Seq<(Seq<char>, TopV)>, u: Seq<(Seq<char>, TopV)>) -> Seq<(Seq<char>, TopV)>
    decreases u.len(),
{
    if u.len() == 0 {
        v
    } else {
        let r = layered(v, u.drop_last());
        let (k, x) = u.last();
        if k == "options"@ || k == "archetype"@ || k == "repos"@ {
            del(r, k).push((k, layer_value(k, get(r, k), x)))
        } else {
            put(r, k, x)
        }
    }
}

fn take_key(t: &mut Vec<(String, TopValue)>, k: &str) -> (r: Option<TopValue>)
    ensures
        get(table_view(old(t)@), k@) == opt_top_view(r),
        table_view(final(t)@) == del(table_view(old(t)@), k@),
{
    proof {
        lemma_key_pos_views(t@, k@);
        lemma_key_pos(table_view(t@), k@);
    }
    match find_key(t, k) {
        Some(i) => {
            let e = t.remove(i);
            proof {
                assert(table_view(t@) =~= del(table_view(old(t)@), k@));
            }
            Some(e.1)
        },
        None => None,
    }
}

/// The value of one user entry layered over the vendor's (see [`layer_value`]).
fn layer_entry(key: &str, vendor: Option<TopValue>, user: TopValue) -> (r: TopValue)
    ensures
        top_view(r) == layer_value(key@, opt_top_view(vendor), top_view(user)),
{
    proof {
        reveal_strlit("options");
        reveal_strlit("archetype");
        reveal_strlit("repos");
        assert("repos"@.len() == 5 && "options"@.len() == 7 && "archetype"@.len() == 9);
    }
    let is_section = str_eq(key, "options") || str_eq(key, "archetype");
    let is_repos = str_eq(key, "repos");
    match vendor {
        Some(TopValue::Table(v)) => match user {
            TopValue::Table(u) => {
                if is_section {
                    TopValue::Table(merge_sub_table(v, u))
                } else {
                    TopValue::Table(u)
                }
            },
            other => other,
        },
        Some(TopValue::Array(v)) => match user {
            TopValue::Array(u) => {
                if is_repos {
                    let r = merge_repos_by_name(v, u);
                    proof {
                        assert(top_view(TopValue::Array(r)) == TopV::Array(array_view(r@)));
                    }
                    TopValue::Array(r)
                } else {
                    TopValue::Array(u)
                }
            },
            other => other,
        },
        _ => user,
    }
}

/// Merge the user table over the vendor table (see [`layer_value`]).
pub fn merge_config_tables(vendor: Vec<(String, TopValue)>, user: Vec<(String, TopValue)>) -> (r: Vec<(String, TopValue)>)
    ensures
        table_view(r@) == layered(table_view(vendor@), table_view(user@)),
{
    let mut out = vendor;
    let ghost v0 = table_view(out@);
    let ghost uv = table_view(user@);
    let mut rest = user;
    let ghost all = rest@;
    while rest.len() > 0
        invariant
            rest@.len() <= all.len(),
            rest@ == all.skip(all.len() - rest@.len()),
            uv == table_view(all),
            table_view(out@) == layered(v0, uv.take(all.len() - rest@.len())),
        decreases rest@.len(),
    {
        let ghost n = all.len() - rest@.len();
        let ghost r0 = rest@;
        let (key, uval) = rest.remove(0);
        let ghost cur = table_view(out@);
        proof {
            assert(r0[0] == all[n]);
            assert(rest@ =~= all.skip(n + 1));
            assert(uv.take(n + 1).drop_last() =~= uv.take(n));
            assert(uv.take(n + 1).last() == (key@, top_view(uval)));
        }
        let is_section = str_eq(key.as_str(), "options") || str_eq(key.as_str(), "archetype");
        let is_repos = str_eq(key.as_str(), "repos");
        let ghost prev = get(cur, key@);
        if is_section || is_repos {
            let found = take_key(&mut out, key.as_str());
            let merged = layer_entry(key.as_str(), found, uval);
            let ghost mv = top_view(merged);
            let ghost kv = key@;
            out.push((key, merged));
            proof {
                assert(table_view(out@) =~= del(cur, kv).push((kv, mv)));
            }
        } else {
            proof {
                reveal_strlit("options");
                reveal_strlit("archetype");
                reveal_strlit("repos");
            }
            put_top(&mut out, key, uval);
        }
    }
    proof {
        assert(uv.take(all.len() as int) =~= uv);
    }
    out
}

/// The `name` of a `[[repos]]` entry: the string under its `name` key, when
/// it is a table that has one.
pub open spec fn repo_name_of(x: toml::Value) -> Option<Seq<char>> {
    match toml_variant_of(x) {
        TomlV::Table(e) => match get(e, "name"@) {
            Some(n) => match toml_variant_of(n) {
                TomlV::Str(s) => Some(s),
                _ => None,
            },
            None => None,
        },
        _ => None,
    }
}

pub open spec fn elements_of(items: Seq<toml::Value>) -> Seq<(Option<Seq<char>>, toml::Value)> {
    items.map_values(|i: toml::Value| (repo_name_of(i), i))
}

/// A top-level value as the layering sees it.
pub open spec fn top_of(x: toml::Value) -> TopV {
    match toml_variant_of(x) {
        TomlV::Table(e) => TopV::Table(e),
        TomlV::Array(items) => TopV::Array(elements_of(items)),
        _ => TopV::Other(x),
    }
}

pub open spec fn tops_of(t: Seq<(Seq<char>, toml::Value)>) -> Seq<(Seq<char>, TopV)> {
    t.map_values(|e: (Seq<char>, toml::Value)| (e.0, top_of(e.1)))
}

fn repo_name(x: &toml::Value) -> (r: Option<String>)
    ensures
        opt_string(r) == repo_name_of(*x),
{
    proof {
        reveal_strlit("name");
    }
    match toml_variant(x) {
        TomlVariant::Table(entries) => {
            proof {
                assert(sub_view(entries@) =~= entries@.map_values(|e: (String, toml::Value)| (e.0@, e.1)));
            }
            match find_key(&entries, "name") {
                Some(i) => {
                    proof {
                        lemma_key_pos(sub_view(entries@), "name"@);
                    }
                    match toml_variant(&entries[i].1) {
                        TomlVariant::Str(s) => Some(s),
                        _ => None,
                    }
                },
                None => None,
            }
        },
        _ => None,
    }
}

fn elements(items: Vec<toml::Value>) -> (r: Vec<Element>)
    ensures
        array_view(r@) == elements_of(items@),
{
    let mut out: Vec<Element> = Vec::new();
    let mut rest = items;
    let ghost all = rest@;
    while rest.len() > 0
        invariant
            rest@.len() <= all.len(),
            rest@ == all.skip(all.len() - rest@.len()),
            array_view(out@) == elements_of(all.take(all.len() - rest@.len())),
        decreases rest@.len(),
    {
        let ghost n = all.len() - rest@.len();
        let ghost r0 = rest@;
        let x = rest.remove(0);
        proof {
            assert(r0[0] == all[n]);
            assert(rest@ =~= all.skip(n + 1));
        }
        let ghost o0 = out@;
        let name = repo_name(&x);
        out.push(Element { name, value: x });
        proof {
            assert(all.take(n + 1) =~= all.take(n).push(x));
            assert(elements_of(all.take(n).push(x)) =~= elements_of(all.take(n)).push((repo_name_of(x), x)));
            assert(array_view(out@) =~= array_view(o0).push((repo_name_of(x), x)));
        }
    }
    proof {
        assert(all.take(all.len() as int) =~= all);
    }
    out
}

fn into_top(x: toml::Value) -> (r: TopValue)
    ensures
        top_view(r) == top_of(x),
{
    match toml_variant(&x) {
        TomlVariant::Table(entries) => TopValue::Table(entries),
        TomlVariant::Array(items) => {
            let el = elements(items);
            TopValue::Array(el)
        },
        _ => TopValue::Other(x),
    }
}

/// Parse one config layer's text (read from `path`) into its top-level
/// entries; a parse failure is a [`MizError::Toml`] naming `path`.
pub fn parse_layer(text: &str, path: &str) -> (r: Result<Vec<(String, TopValue)>, MizError>)
    ensures
        match toml_parse(text@) {
            Ok(t) => r matches Ok(x) && table_view(x@) == tops_of(t),
            Err(m) => r matches Err(MizError::Toml { path: p, source }) && p@ == path@ && source@ == m,
        },
        r matches Ok(x) ==> unique_keys(table_view(x@)),
{
    match parse_toml_table(text) {
        Ok(entries) => {
            let mut out: Vec<(String, TopValue)> = Vec::new();
            let mut rest = entries;
            let ghost all = rest@;
            let ghost sv = sub_view(all);
            while rest.len() > 0
                invariant
                    rest@.len() <= all.len(),
                    rest@ == all.skip(all.len() - rest@.len()),
                    sv == sub_view(all),
                    unique_keys(sv),
                    table_view(out@) == tops_of(sv.take(all.len() - rest@.len())),
                decreases rest@.len(),
            {
                let ghost n = all.len() - rest@.len();
                let ghost r0 = rest@;
                let (k, x) = rest.remove(0);
                proof {
                    assert(r0[0] == all[n]);
                    assert(rest@ =~= all.skip(n + 1));
                }
                let ghost o0 = out@;
                let ghost kx = (k@, x);
                let t = into_top(x);
                out.push((k, t));
                proof {
                    assert(sv.take(n + 1) =~= sv.take(n).push(kx));
                    assert(tops_of(sv.take(n).push(kx)) =~= tops_of(sv.take(n)).push((kx.0, top_of(kx.1))));
                    assert(table_view(out@) =~= table_view(o0).push((kx.0, top_of(kx.1))));
                }
            }
            proof {
                assert(sv.take(all.len() as int) =~= sv);
                assert forall|i: int, j: int| 0 <= i < j < table_view(out@).len() implies table_view(out@)[i].0 != table_view(out@)[j].0 by {
                    assert(table_view(out@)[i].0 == sv[i].0);
                    assert(table_view(out@)[j].0 == sv[j].0);
                }
            }
            Ok(out)
        },
        Err(m) => Err(MizError::Toml { path: to_owned(path), source: m }),
    }
}

/// The message when neither config layer exists.
pub open spec fn no_config_message(vendor_path: Seq<char>, user_path: Seq<char>) -> Seq<char> {
    "no miz config found: neither "@ + vendor_path + " (vendor) nor "@ + user_path + " (user override) exists"@
}

/// Layer the user's table (read from `user_path`, `None` when the file does
/// not exist) over the vendor's (from `vendor_path`). Either may be absent;
/// when both are, that is an error.
pub fn load_layered(
    vendor: Option<Vec<(String, TopValue)>>,
    user: Option<Vec<(String, TopValue)>>,
    vendor_path: &str,
    user_path: &str,
) -> (r: Result<Vec<(String, TopValue)>, MizError>)
    ensures
        match (vendor, user) {
            (None, None) => r matches Err(MizError::Other(m)) && m@ == no_config_message(vendor_path@, user_path@),
            (Some(v), None) => r matches Ok(t) && table_view(t@) == table_view(v@),
            (None, Some(u)) => r matches Ok(t) && table_view(t@) == table_view(u@),
            (Some(v), Some(u)) => r matches Ok(t) && table_view(t@) == layered(table_view(v@), table_view(u@)),
        },
{
    match (vendor, user) {
        (None, None) => {
            let mut m = to_owned("no miz config found: neither ");
            push_str(&mut m, vendor_path);
            push_str(&mut m, " (vendor) nor ");
            push_str(&mut m, user_path);
            push_str(&mut m, " (user override) exists");
            Err(MizError::Other(m))
        },
        (Some(v), None) => Ok(v),
        (None, Some(u)) => Ok(u),
        (Some(v), Some(u)) => Ok(merge_config_tables(v, u)),
    }
}

} // verus!
