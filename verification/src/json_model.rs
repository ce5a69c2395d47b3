use vstd::prelude::*;

use crate::json_text::{json_texts_equal, same_json_text};
use crate::text::chars_of;

verus! {

/// A JSON value as the profile logic reads it. A number is held as its JSON
/// text; the members of an object are held in the order they were read.
#[derive(Debug)]
pub enum JsonValue {
    Null,
    Bool(bool),
    Number(String),
    Text(String),
    Array(Vec<JsonValue>),
    Object(Vec<(String, JsonValue)>),
}

/// The value of the first member with this name.
pub open spec fn member_value(members: Seq<(String, JsonValue)>, name: Seq<char>) -> Option<JsonValue>
    decreases members.len(),
{
    if members.len() == 0 {
        None
    } else if members[0].0@ == name {
        Some(members[0].1)
    } else {
        member_value(members.drop_first(), name)
    }
}

/// The member of an object value with this name; nothing for another value.
pub open spec fn json_get(value: JsonValue, name: Seq<char>) -> Option<JsonValue> {
    match value {
        JsonValue::Object(members) => member_value(members@, name),
        _ => None,
    }
}

/// Two JSON values are equal: the same literal, the same number (its text
/// alike once a negative zero is written as zero) or string,
/// arrays equal item by item, and objects with the same member names whose
/// values are equal name by name.
pub open spec fn json_equal(a: JsonValue, b: JsonValue) -> bool
    decreases a,
{
    match a {
        JsonValue::Null => b is Null,
        JsonValue::Bool(x) => b matches JsonValue::Bool(y) && x == y,
        JsonValue::Number(x) => b matches JsonValue::Number(y) && same_json_text(x@, y@),
        JsonValue::Text(x) => b matches JsonValue::Text(y) && x@ == y@,
        JsonValue::Array(xs) => match b {
            JsonValue::Array(ys) => xs@.len() == ys@.len() && forall|i: int|
                0 <= i < xs@.len() ==> json_equal(#[trigger] xs@[i], ys@[i]),
            _ => false,
        },
        JsonValue::Object(xs) => match b {
            JsonValue::Object(ys) => {
                &&& forall|i: int| 0 <= i < xs@.len() ==> match member_value(ys@, (#[trigger] xs@[i]).0@) {
                    Some(y) => json_equal(xs@[i].1, y),
                    None => false,
                }
                &&& forall|j: int| 0 <= j < ys@.len() ==> member_value(xs@, (#[trigger] ys@[j]).0@) is Some
            },
            _ => false,
        },
    }
}

/// The two values have the same shape and the same texts, member for member
/// and item for item, in the same order.
pub open spec fn json_same(a: JsonValue, b: JsonValue) -> bool
    decreases a,
{
    match a {
        JsonValue::Null => b is Null,
        JsonValue::Bool(x) => b matches JsonValue::Bool(y) && x == y,
        JsonValue::Number(x) => b matches JsonValue::Number(y) && x@ == y@,
        JsonValue::Text(x) => b matches JsonValue::Text(y) && x@ == y@,
        JsonValue::Array(xs) => match b {
            JsonValue::Array(ys) => xs@.len() == ys@.len() && forall|i: int|
                0 <= i < xs@.len() ==> json_same(#[trigger] xs@[i], ys@[i]),
            _ => false,
        },
        JsonValue::Object(xs) => match b {
            JsonValue::Object(ys) => xs@.len() == ys@.len() && forall|i: int|
                0 <= i < xs@.len() ==> (#[trigger] xs@[i]).0@ == ys@[i].0@ && json_same(xs@[i].1, ys@[i].1),
            _ => false,
        },
    }
}

/// `actual` holds what `expected` asks for: every member of an expected
/// object is present and holds its value, every item of an expected array
/// is held at the same place of a long enough array, and any other value is
/// equal.
pub open spec fn json_contains(actual: JsonValue, expected: JsonValue) -> bool
    decreases expected,
{
    match expected {
        JsonValue::Object(es) => match actual {
            JsonValue::Object(xs) => forall|i: int| 0 <= i < es@.len() ==> match member_value(xs@, (#[trigger] es@[i]).0@) {
                Some(x) => json_contains(x, es@[i].1),
                None => false,
            },
            _ => json_equal(actual, expected),
        },
        JsonValue::Array(es) => match actual {
            JsonValue::Array(xs) => es@.len() <= xs@.len() && forall|i: int|
                0 <= i < es@.len() ==> json_contains(xs@[i], #[trigger] es@[i]),
            _ => json_equal(actual, expected),
        },
        _ => json_equal(actual, expected),
    }
}

/// The parameter a text names: the text between a leading `${` and a
/// trailing `}`.
pub open spec fn parameter_name(text: Seq<char>) -> Option<Seq<char>> {
    if text.len() >= 3 && text[0] == '$' && text[1] == '{' && text.last() == '}' {
        Some(text.subrange(2, text.len() - 1))
    } else {
        None
    }
}

/// The value of the first parameter with this name.
pub open spec fn parameter_value(parameters: Seq<(String, String)>, name: Seq<char>) -> Option<Seq<char>>
    decreases parameters.len(),
{
    if parameters.len() == 0 {
        None
    } else if parameters[0].0@ == name {
        Some(parameters[0].1@)
    } else {
        parameter_value(parameters.drop_first(), name)
    }
}

/// A string value after substitution: the value of the parameter it names,
/// where it names one that is given, else the string itself.
pub open spec fn substituted_text(text: Seq<char>, parameters: Seq<(String, String)>) -> Seq<char> {
    match parameter_name(text) {
        Some(name) => match parameter_value(parameters, name) {
            Some(value) => value,
            None => text,
        },
        None => text,
    }
}

/// `new` is `old` with every string value that names a given parameter
/// replaced by that parameter's value, at any depth; member names are kept.
pub open spec fn substituted(new: JsonValue, old: JsonValue, parameters: Seq<(String, String)>) -> bool
    decreases old,
{
    match old {
        JsonValue::Null => new is Null,
        JsonValue::Bool(x) => new matches JsonValue::Bool(y) && x == y,
        JsonValue::Number(x) => new matches JsonValue::Number(y) && x@ == y@,
        JsonValue::Text(x) => new matches JsonValue::Text(y) && y@ == substituted_text(x@, parameters),
        JsonValue::Array(xs) => match new {
            JsonValue::Array(ys) => xs@.len() == ys@.len() && forall|i: int|
                0 <= i < xs@.len() ==> substituted(ys@[i], #[trigger] xs@[i], parameters),
            _ => false,
        },
        JsonValue::Object(xs) => match new {
            JsonValue::Object(ys) => xs@.len() == ys@.len() && forall|i: int|
                0 <= i < xs@.len() ==> (#[trigger] xs@[i]).0@ == ys@[i].0@ && substituted(ys@[i].1, xs@[i].1, parameters),
            _ => false,
        },
    }
}

/// The value of the first member with this name.
pub fn find_member<'a>(members: &'a Vec<(String, JsonValue)>, name: &String) -> (found: Option<&'a JsonValue>)
    ensures
        match member_value(members@, name@) {
            Some(v) => found matches Some(f) && *f == v,
            None => found is None,
        },
{
    let mut i: usize = 0;
    assert(members@.skip(0) =~= members@);
    while i < members.len()
        invariant
            i <= members@.len(),
            member_value(members@, name@) == member_value(members@.skip(i as int), name@),
        decreases members@.len() - i,
    {
        assert(members@.skip(i as int)[0] == members@[i as int]);
        assert(members@.skip(i as int).drop_first() =~= members@.skip(i + 1));
        if members[i].0 == *name {
            return Some(&members[i].1);
        }
        i = i + 1;
    }
    None
}

/// The member of an object value with this name.
pub fn json_member<'a>(value: &'a JsonValue, name: &String) -> (found: Option<&'a JsonValue>)
    ensures
        match json_get(*value, name@) {
            Some(v) => found matches Some(f) && *f == v,
            None => found is None,
        },
{
    match value {
        JsonValue::Object(members) => find_member(members, name),
        _ => None,
    }
}

fn items_equal(xs: &Vec<JsonValue>, ys: &Vec<JsonValue>, Ghost(whole): Ghost<JsonValue>) -> (equal: bool)
    requires
        whole matches JsonValue::Array(items) && items@ == xs@,
    ensures
        equal == (xs@.len() == ys@.len() && forall|i: int| 0 <= i < xs@.len() ==> json_equal(#[trigger] xs@[i], ys@[i])),
    decreases whole, 0nat,
{
    if xs.len() != ys.len() {
        return false;
    }
    let mut i: usize = 0;
    while i < xs.len()
        invariant
            i <= xs@.len(),
            xs@.len() == ys@.len(),
            whole matches JsonValue::Array(items) && items@ == xs@,
            forall|k: int| 0 <= k < i ==> json_equal(#[trigger] xs@[k], ys@[k]),
        decreases xs@.len() - i,
    {
        proof {
            assert(decreases_to!(whole => xs@[i as int]));
        }
        let same = json_values_equal(&xs[i], &ys[i]);
        assert(same == json_equal(xs@[i as int], ys@[i as int]));
        if !same {
            return false;
        }
        i = i + 1;
    }
    true
}

fn members_equal(
    xs: &Vec<(String, JsonValue)>,
    ys: &Vec<(String, JsonValue)>,
    Ghost(whole): Ghost<JsonValue>,
) -> (equal: bool)
    requires
        whole matches JsonValue::Object(members) && members@ == xs@,
    ensures
        equal == ({
            &&& forall|i: int| 0 <= i < xs@.len() ==> match member_value(ys@, (#[trigger] xs@[i]).0@) {
                Some(y) => json_equal(xs@[i].1, y),
                None => false,
            }
            &&& forall|j: int| 0 <= j < ys@.len() ==> member_value(xs@, (#[trigger] ys@[j]).0@) is Some
        }),
    decreases whole, 0nat,
{
    let mut i: usize = 0;
    while i < xs.len()
        invariant
            i <= xs@.len(),
            whole matches JsonValue::Object(members) && members@ == xs@,
            forall|k: int| 0 <= k < i ==> match member_value(ys@, (#[trigger] xs@[k]).0@) {
                Some(y) => json_equal(xs@[k].1, y),
                None => false,
            },
        decreases xs@.len() - i,
    {
        assert(xs@[i as int] == xs[i as int]);
        match find_member(ys, &xs[i].0) {
            None => {
                return false;
            },
            Some(y) => {
                proof {
                    assert(decreases_to!(whole => xs@[i as int].1));
                }
                if !json_values_equal(&xs[i].1, y) {
                    return false;
                }
            },
        }
        i = i + 1;
    }
    let mut j: usize = 0;
    while j < ys.len()
        invariant
            j <= ys@.len(),
            forall|k: int| 0 <= k < j ==> member_value(xs@, (#[trigger] ys@[k]).0@) is Some,
        decreases ys@.len() - j,
    {
        assert(ys@[j as int] == ys[j as int]);
        if find_member(xs, &ys[j].0).is_none() {
            return false;
        }
        j = j + 1;
    }
    true
}

/// Whether two JSON values are equal.
pub fn json_values_equal(a: &JsonValue, b: &JsonValue) -> (equal: bool)
    ensures
        equal == json_equal(*a, *b),
    decreases *a, 1nat,
{
    match a {
        JsonValue::Null => match b {
            JsonValue::Null => true,
            _ => false,
        },
        JsonValue::Bool(x) => match b {
            JsonValue::Bool(y) => *x == *y,
            _ => false,
        },
        JsonValue::Number(x) => match b {
            JsonValue::Number(y) => json_texts_equal(x.as_str(), y.as_str()),
            _ => false,
        },
        JsonValue::Text(x) => match b {
            JsonValue::Text(y) => *x == *y,
            _ => false,
        },
        JsonValue::Array(xs) => match b {
            JsonValue::Array(ys) => {
                items_equal(xs, ys, Ghost(*a))
            },
            _ => false,
        },
        JsonValue::Object(xs) => match b {
            JsonValue::Object(ys) => {
                members_equal(xs, ys, Ghost(*a))
            },
            _ => false,
        },
    }
}

/// Whether `actual` holds what `expected` asks for.
pub fn json_value_contains(actual: &JsonValue, expected: &JsonValue) -> (contains: bool)
    ensures
        contains == json_contains(*actual, *expected),
    decreases *expected,
{
    match expected {
        JsonValue::Object(es) => match actual {
            JsonValue::Object(xs) => {
                let mut i: usize = 0;
                while i < es.len()
                    invariant
                        i <= es@.len(),
                        *expected matches JsonValue::Object(e) && e@ == es@,
                        *actual matches JsonValue::Object(x) && x@ == xs@,
                        forall|k: int| 0 <= k < i ==> match member_value(xs@, (#[trigger] es@[k]).0@) {
                            Some(x) => json_contains(x, es@[k].1),
                            None => false,
                        },
                    decreases es@.len() - i,
                {
                    assert(es@[i as int] == es[i as int]);
                    match find_member(xs, &es[i].0) {
                        None => {
                            return false;
                        },
                        Some(x) => {
                            proof {
                                assert(decreases_to!(*expected => es@[i as int].1));
                            }
                            if !json_value_contains(x, &es[i].1) {
                                return false;
                            }
                        },
                    }
                    i = i + 1;
                }
                true
            },
            _ => json_values_equal(actual, expected),
        },
        JsonValue::Array(es) => match actual {
            JsonValue::Array(xs) => {
                if es.len() > xs.len() {
                    return false;
                }
                let mut i: usize = 0;
                while i < es.len()
                    invariant
                        i <= es@.len(),
                        es@.len() <= xs@.len(),
                        *expected matches JsonValue::Array(e) && e@ == es@,
                        *actual matches JsonValue::Array(x) && x@ == xs@,
                        forall|k: int| 0 <= k < i ==> json_contains(xs@[k], #[trigger] es@[k]),
                    decreases es@.len() - i,
                {
                    proof {
                        assert(decreases_to!(*expected => es@[i as int]));
                    }
                    let held = json_value_contains(&xs[i], &es[i]);
                    assert(held == json_contains(xs@[i as int], es@[i as int]));
                    if !held {
                        return false;
                    }
                    i = i + 1;
                }
                true
            },
            _ => json_values_equal(actual, expected),
        },
        _ => json_values_equal(actual, expected),
    }
}

fn find_parameter<'a>(parameters: &'a Vec<(String, String)>, name: &String) -> (found: Option<&'a String>)
    ensures
        match parameter_value(parameters@, name@) {
            Some(v) => found matches Some(f) && f@ == v,
            None => found is None,
        },
{
    let mut i: usize = 0;
    assert(parameters@.skip(0) =~= parameters@);
    while i < parameters.len()
        invariant
            i <= parameters@.len(),
            parameter_value(parameters@, name@) == parameter_value(parameters@.skip(i as int), name@),
        decreases parameters@.len() - i,
    {
        assert(parameters@.skip(i as int)[0] == parameters@[i as int]);
        assert(parameters@.skip(i as int).drop_first() =~= parameters@.skip(i + 1));
        if parameters[i].0 == *name {
            return Some(&parameters[i].1);
        }
        i = i + 1;
    }
    None
}

fn substitute_text(text: &String, parameters: &Vec<(String, String)>) -> (result: String)
    ensures
        result@ == substituted_text(text@, parameters@),
{
    let chars = chars_of(text.as_str());
    let n = chars.len();
    if n >= 3 && chars[0] == '$' && chars[1] == '{' && chars[n - 1] == '}' {
        let mut name = String::new();
        let mut i: usize = 2;
        while i < n - 1
            invariant
                2 <= i <= n - 1,
                n == chars@.len(),
                chars@ == text@,
                name@ == text@.subrange(2, i as int),
            decreases n - 1 - i,
        {
            name.push(chars[i]);
            assert(text@.subrange(2, i + 1) =~= text@.subrange(2, i as int).push(chars@[i as int]));
            i = i + 1;
        }
        assert(chars@.last() == chars@[n - 1]);
        match find_parameter(parameters, &name) {
            Some(value) => value.clone(),
            None => text.clone(),
        }
    } else {
        proof {
            if n >= 3 {
                assert(chars@.last() == chars@[n - 1]);
            }
        }
        text.clone()
    }
}

/// The value with every string that names a given parameter replaced by
/// that parameter's value.
pub fn substitute_json_parameters(value: &JsonValue, parameters: &Vec<(String, String)>) -> (result: JsonValue)
    ensures
        substituted(result, *value, parameters@),
    decreases value,
{
    match value {
        JsonValue::Null => JsonValue::Null,
        JsonValue::Bool(b) => JsonValue::Bool(*b),
        JsonValue::Number(text) => JsonValue::Number(text.clone()),
        JsonValue::Text(text) => JsonValue::Text(substitute_text(text, parameters)),
        JsonValue::Array(items) => {
            let mut out: Vec<JsonValue> = Vec::new();
            let mut i: usize = 0;
            while i < items.len()
                invariant
                    i <= items@.len(),
                    out@.len() == i,
                    *value matches JsonValue::Array(v) && v@ == items@,
                    forall|k: int| 0 <= k < i ==> substituted(out@[k], #[trigger] items@[k], parameters@),
                decreases items@.len() - i,
            {
                proof {
                    assert(decreases_to!(*value => items@[i as int]));
                }
                out.push(substitute_json_parameters(&items[i], parameters));
                i = i + 1;
            }
            JsonValue::Array(out)
        },
        JsonValue::Object(members) => {
            let mut out: Vec<(String, JsonValue)> = Vec::new();
            let mut i: usize = 0;
            while i < members.len()
                invariant
                    i <= members@.len(),
                    out@.len() == i,
                    *value matches JsonValue::Object(v) && v@ == members@,
                    forall|k: int| 0 <= k < i ==> (#[trigger] members@[k]).0@ == out@[k].0@ && substituted(
                        out@[k].1,
                        members@[k].1,
                        parameters@,
                    ),
                decreases members@.len() - i,
            {
                proof {
                    assert(decreases_to!(*value => members@[i as int].1));
                }
                let name = members[i].0.clone();
                let item = substitute_json_parameters(&members[i].1, parameters);
                out.push((name, item));
                i = i + 1;
            }
            JsonValue::Object(out)
        },
    }
}

/// Two member lists with the same names and values, in the same order.
pub open spec fn same_members(a: Seq<(String, JsonValue)>, b: Seq<(String, JsonValue)>) -> bool {
    a.len() == b.len() && forall|i: int| 0 <= i < a.len() ==> (#[trigger] a[i]).0@ == b[i].0@ && json_same(a[i].1, b[i].1)
}

/// A copy of a list of named JSON values.
pub fn copy_members(members: &Vec<(String, JsonValue)>) -> (copy: Vec<(String, JsonValue)>)
    ensures
        same_members(members@, copy@),
{
    let mut out: Vec<(String, JsonValue)> = Vec::new();
    let mut i: usize = 0;
    while i < members.len()
        invariant
            i <= members@.len(),
            out@.len() == i,
            forall|k: int| 0 <= k < i ==> (#[trigger] members@[k]).0@ == out@[k].0@ && json_same(members@[k].1, out@[k].1),
        decreases members@.len() - i,
    {
        let name = members[i].0.clone();
        let item = copy_json(&members[i].1);
        out.push((name, item));
        i = i + 1;
    }
    out
}

impl Clone for JsonValue {
    fn clone(&self) -> (copy: Self)
        ensures
            json_same(*self, copy),
    {
        copy_json(self)
    }
}

/// A copy of a JSON value.
pub fn copy_json(value: &JsonValue) -> (copy: JsonValue)
    ensures
        json_same(*value, copy),
    decreases value,
{
    match value {
        JsonValue::Null => JsonValue::Null,
        JsonValue::Bool(b) => JsonValue::Bool(*b),
        JsonValue::Number(text) => JsonValue::Number(text.clone()),
        JsonValue::Text(text) => JsonValue::Text(text.clone()),
        JsonValue::Array(items) => {
            let mut out: Vec<JsonValue> = Vec::new();
            let mut i: usize = 0;
            while i < items.len()
                invariant
                    i <= items@.len(),
                    out@.len() == i,
                    *value matches JsonValue::Array(v) && v@ == items@,
                    forall|k: int| 0 <= k < i ==> json_same(#[trigger] items@[k], out@[k]),
                decreases items@.len() - i,
            {
                proof {
                    assert(decreases_to!(*value => items@[i as int]));
                }
                out.push(copy_json(&items[i]));
                i = i + 1;
            }
            JsonValue::Array(out)
        },
        JsonValue::Object(members) => {
            let mut out: Vec<(String, JsonValue)> = Vec::new();
            let mut i: usize = 0;
            while i < members.len()
                invariant
                    i <= members@.len(),
                    out@.len() == i,
                    *value matches JsonValue::Object(v) && v@ == members@,
                    forall|k: int| 0 <= k < i ==> (#[trigger] members@[k]).0@ == out@[k].0@ && json_same(
                        members@[k].1,
                        out@[k].1,
                    ),
                decreases members@.len() - i,
            {
                proof {
                    assert(decreases_to!(*value => members@[i as int].1));
                }
                let name = members[i].0.clone();
                let item = copy_json(&members[i].1);
                out.push((name, item));
                i = i + 1;
            }
            JsonValue::Object(out)
        },
    }
}

} // verus!
