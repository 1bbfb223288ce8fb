//! The data of sysupdate's `Target.Describe` and `Target.DescribeFeature`
//! payloads. Every documented scalar is optional (an absent key is `None`),
//! the shape-varying `changelog`/`contents`/`transfers` stay raw JSON values,
//! and every other top-level key is kept in `extra`.
use crate::common::fmt::join;
use crate::text::{push_str, str_eq, to_owned};
use vstd::prelude::*;

verus! {

/// A JSON value as decoded from a payload. A number keeps its JSON text and,
/// when it is an integer that fits, its `i64` value; an object keeps its
/// compact JSON text.
pub enum JsonValue {
    Null,
    Bool(bool),
    Number { text: String, integer: Option<i64> },
    Str(String),
    Array(Vec<JsonValue>),
    Object(String),
}

/// The JSON text of a scalar or object value (what `to_string` gives).
pub open spec fn json_text(v: JsonValue) -> Seq<char> {
    match v {
        JsonValue::Null => "null"@,
        JsonValue::Bool(b) => if b {
            "true"@
        } else {
            "false"@
        },
        JsonValue::Number { text, .. } => text@,
        JsonValue::Str(s) => s@,
        JsonValue::Array(_) => seq![],
        JsonValue::Object(t) => t@,
    }
}

/// A value rendered for humans: a string as itself, an array as its items'
/// renderings joined by `, `, null as `None`, anything else as its JSON text.
pub open spec fn value_text(v: JsonValue) -> Seq<char>
    decreases v, 1nat,
{
    match v {
        JsonValue::Str(s) => s@,
        JsonValue::Null => "None"@,
        JsonValue::Array(items) => join(items_text(items@), ", "@),
        _ => json_text(v),
    }
}

/// The renderings of a sequence of values.
pub open spec fn items_text(items: Seq<JsonValue>) -> Seq<Seq<char>>
    decreases items, 0nat,
{
    if items.len() == 0 {
        seq![]
    } else {
        items_text(items.drop_last()).push(value_text(items.last()))
    }
}

/// Render a raw JSON value (changelog, contents, transfers) as one string.
pub fn value_to_text(v: &JsonValue) -> (r: String)
    ensures
        r@ == value_text(*v),
    decreases *v,
{
    match v {
        JsonValue::Str(s) => s.clone(),
        JsonValue::Null => to_owned("None"),
        JsonValue::Array(items) => {
            let mut out = String::new();
            let mut i: usize = 0;
            while i < items.len()
                invariant
                    0 <= i <= items@.len(),
                    *v == JsonValue::Array(*items),
                    out@ == join(items_text(items@.take(i as int)), ", "@),
                decreases items@.len() - i,
            {
                proof {
                    assert(items@.take(i + 1).drop_last() =~= items@.take(i as int));
                    assert(items@.take(i + 1).last() == items@[i as int]);
                }
                proof {
                    let ghost w = *items;
                    assert(decreases_to!(*v => v->Array_0));
                    assert(decreases_to!(w => w[i as int]));
                    assert(decreases_to!(*v => items@[i as int]));
                }
                let t = value_to_text(&items[i]);
                if i > 0 {
                    push_str(&mut out, ", ");
                }
                push_str(&mut out, t.as_str());
                proof {
                    let ts = items_text(items@.take(i + 1));
                    assert(ts == items_text(items@.take(i as int)).push(value_text(items@[i as int])));
                    assert(ts.drop_last() =~= items_text(items@.take(i as int)));
                    if i == 0 {
                        assert(ts.len() == 1);
                    }
                    assert(out@ =~= join(ts, ", "@));
                }
                i = i + 1;
            }
            proof {
                assert(items@.take(items@.len() as int) =~= items@);
            }
            out
        },
        JsonValue::Bool(b) => {
            if *b {
                to_owned("true")
            } else {
                to_owned("false")
            }
        },
        JsonValue::Number { text, .. } => text.clone(),
        JsonValue::Object(t) => t.clone(),
    }
}

/// A `Target.Describe` payload.
pub struct Describe {
    pub version: Option<String>,
    pub newest: Option<bool>,
    pub available: Option<bool>,
    pub installed: Option<bool>,
    pub obsolete: Option<bool>,
    pub incomplete: Option<bool>,
    pub changelog: Option<JsonValue>,
    pub contents: Option<JsonValue>,
    /// Every other top-level key with its value, keys distinct.
    pub extra: Vec<(String, JsonValue)>,
}

/// A `Target.DescribeFeature` payload.
pub struct Feature {
    pub name: Option<String>,
    pub enabled: Option<bool>,
    pub description: Option<String>,
    pub documentation_url: Option<String>,
    pub appstream_url: Option<String>,
    pub transfers: Option<JsonValue>,
}

/// The value stored under `key` among `extra` entries (the first, should a
/// key repeat).
pub open spec fn extra_get(extra: Seq<(String, JsonValue)>, key: Seq<char>) -> Option<JsonValue>
    decreases extra.len(),
{
    if extra.len() == 0 {
        None
    } else if extra[0].0@ == key {
        Some(extra[0].1)
    } else {
        extra_get(extra.drop_first(), key)
    }
}

/// The string form of a scalar extra value: a string as itself, a number or
/// a boolean as its JSON text; nothing for null, arrays and objects.
pub open spec fn scalar_text(v: Option<JsonValue>) -> Option<Seq<char>> {
    match v {
        Some(JsonValue::Str(s)) => Some(s@),
        Some(JsonValue::Number { text, .. }) => Some(text@),
        Some(JsonValue::Bool(b)) => Some(json_text(JsonValue::Bool(b))),
        _ => None,
    }
}

/// The integer value of an extra value, when it is an integer that fits.
pub open spec fn scalar_int(v: Option<JsonValue>) -> Option<i64> {
    match v {
        Some(JsonValue::Number { integer, .. }) => integer,
        _ => None,
    }
}

impl Describe {
    /// Index of `key` among `extra`, if present.
    fn find_extra(&self, key: &str) -> (r: Option<usize>)
        ensures
            match r {
                Some(i) => i < self.extra@.len() && extra_get(self.extra@, key@) == Some(
                    self.extra@[i as int].1,
                ),
                None => extra_get(self.extra@, key@) is None,
            },
    {
        let mut i: usize = 0;
        proof {
            assert(self.extra@.skip(0) =~= self.extra@);
        }
        while i < self.extra.len()
            invariant
                0 <= i <= self.extra@.len(),
                extra_get(self.extra@.skip(i as int), key@) == extra_get(self.extra@, key@),
            decreases self.extra@.len() - i,
        {
            proof {
                assert(self.extra@.skip(i as int)[0] == self.extra@[i as int]);
                assert(self.extra@.skip(i as int).drop_first() =~= self.extra@.skip(i + 1));
            }
            if str_eq(self.extra[i].0.as_str(), key) {
                return Some(i);
            }
            i = i + 1;
        }
        proof {
            assert(self.extra@.skip(i as int).len() == 0);
        }
        None
    }

    /// A scalar extra key as a string (for fields without a typed slot).
    pub fn extra_str(&self, key: &str) -> (r: Option<String>)
        ensures
            match r {
                Some(s) => scalar_text(extra_get(self.extra@, key@)) == Some(s@),
                None => scalar_text(extra_get(self.extra@, key@)) is None,
            },
    {
        match self.find_extra(key) {
            None => None,
            Some(i) => match &self.extra[i].1 {
                JsonValue::Str(s) => Some(s.clone()),
                JsonValue::Number { text, .. } => Some(text.clone()),
                JsonValue::Bool(b) => {
                    if *b {
                        Some(to_owned("true"))
                    } else {
                        Some(to_owned("false"))
                    }
                },
                _ => None,
            },
        }
    }

    /// An extra key as an integer.
    pub fn extra_i64(&self, key: &str) -> (r: Option<i64>)
        ensures
            r == scalar_int(extra_get(self.extra@, key@)),
    {
        match self.find_extra(key) {
            None => None,
            Some(i) => match &self.extra[i].1 {
                JsonValue::Number { integer, .. } => *integer,
                _ => None,
            },
        }
    }
}

} // verus!
