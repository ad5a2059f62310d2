use vstd::prelude::*;
use crate::colour::{colour_of, parse_colour, Colour};
use crate::num::{i32_of, num_of, parse_i32, parse_num, parse_u32, u32_of, Num};
use crate::text::str_eq;

verus! {

/// The raw value of the last attribute named `key` in the tag's attribute
/// list: a later occurrence of a name overwrites an earlier one, exactly as
/// the extractor assigns while walking the list in order.
pub open spec fn last_attr(attrs: Seq<(String, String)>, key: Seq<char>) -> Option<Seq<char>>
    decreases attrs.len(),
{
    if attrs.len() == 0 {
        None
    } else if attrs.last().0@ == key {
        Some(attrs.last().1@)
    } else {
        last_attr(attrs.drop_last(), key)
    }
}

/// Looks up the last attribute named `key`.
pub fn find_attr<'a>(attrs: &'a Vec<(String, String)>, key: &str) -> (r: Option<&'a String>)
    ensures
        match r {
            Some(v) => last_attr(attrs@, key@) == Some(v@),
            None => last_attr(attrs@, key@) == None::<Seq<char>>,
        },
{
    let mut i: usize = attrs.len();
    proof {
        assert(attrs@.take(attrs@.len() as int) =~= attrs@);
    }
    while i > 0
        invariant
            i <= attrs@.len(),
            last_attr(attrs@, key@) == last_attr(attrs@.take(i as int), key@),
        decreases i,
    {
        i = i - 1;
        let pair: &(String, String) = &attrs[i];
        proof {
            assert(attrs@.take(i + 1).last() == attrs@[i as int]);
            assert(attrs@.take(i + 1).drop_last() =~= attrs@.take(i as int));
        }
        if str_eq(pair.0.as_str(), key) {
            return Some(&attrs[i].1);
        }
    }
    proof {
        assert(attrs@.take(0) =~= Seq::<(String, String)>::empty());
    }
    None
}

/// The truth value denoted by `s`: the words `true` and `false` only.
pub open spec fn bool_of(s: Seq<char>) -> Option<bool> {
    if s == "true"@ {
        Some(true)
    } else if s == "false"@ {
        Some(false)
    } else {
        None
    }
}

pub fn parse_bool(s: &str) -> (r: Option<bool>)
    ensures
        r == bool_of(s@),
{
    if str_eq(s, "true") {
        Some(true)
    } else if str_eq(s, "false") {
        Some(false)
    } else {
        None
    }
}

/// The extractor's view of a decimal-number key: the last occurrence,
/// coerced; absence and a value that fails to coerce both yield `None`.
pub open spec fn num_attr(attrs: Seq<(String, String)>, key: Seq<char>) -> Option<Num> {
    match last_attr(attrs, key) {
        None => None,
        Some(v) => num_of(v),
    }
}

/// The extractor's view of an unsigned-integer key.
pub open spec fn u32_attr(attrs: Seq<(String, String)>, key: Seq<char>) -> Option<u32> {
    match last_attr(attrs, key) {
        None => None,
        Some(v) => u32_of(v),
    }
}

/// The extractor's view of a signed-integer key.
pub open spec fn i32_attr(attrs: Seq<(String, String)>, key: Seq<char>) -> Option<i32> {
    match last_attr(attrs, key) {
        None => None,
        Some(v) => i32_of(v),
    }
}

/// The extractor's view of a numeric-flag key: `1` means set.
pub open spec fn flag_attr(attrs: Seq<(String, String)>, key: Seq<char>) -> Option<bool> {
    match i32_attr(attrs, key) {
        None => None,
        Some(v) => Some(v == 1),
    }
}

/// The extractor's view of a boolean-word key.
pub open spec fn bool_attr(attrs: Seq<(String, String)>, key: Seq<char>) -> Option<bool> {
    match last_attr(attrs, key) {
        None => None,
        Some(v) => bool_of(v),
    }
}

/// The extractor's view of a plain-text key: text always coerces.
pub open spec fn text_attr(attrs: Seq<(String, String)>, key: Seq<char>) -> Option<Seq<char>> {
    last_attr(attrs, key)
}

/// The extractor's view of a colour key.
pub open spec fn colour_attr(attrs: Seq<(String, String)>, key: Seq<char>) -> Option<Colour> {
    match last_attr(attrs, key) {
        None => None,
        Some(v) => colour_of(v),
    }
}

pub fn get_num(attrs: &Vec<(String, String)>, key: &str) -> (r: Option<Num>)
    ensures
        r == num_attr(attrs@, key@),
{
    match find_attr(attrs, key) {
        None => None,
        Some(v) => parse_num(v.as_str()),
    }
}

pub fn get_u32(attrs: &Vec<(String, String)>, key: &str) -> (r: Option<u32>)
    ensures
        r == u32_attr(attrs@, key@),
{
    match find_attr(attrs, key) {
        None => None,
        Some(v) => parse_u32(v.as_str()),
    }
}

pub fn get_i32(attrs: &Vec<(String, String)>, key: &str) -> (r: Option<i32>)
    ensures
        r == i32_attr(attrs@, key@),
{
    match find_attr(attrs, key) {
        None => None,
        Some(v) => parse_i32(v.as_str()),
    }
}

pub fn get_flag(attrs: &Vec<(String, String)>, key: &str) -> (r: Option<bool>)
    ensures
        r == flag_attr(attrs@, key@),
{
    match get_i32(attrs, key) {
        None => None,
        Some(v) => Some(v == 1),
    }
}

pub fn get_bool(attrs: &Vec<(String, String)>, key: &str) -> (r: Option<bool>)
    ensures
        r == bool_attr(attrs@, key@),
{
    match find_attr(attrs, key) {
        None => None,
        Some(v) => parse_bool(v.as_str()),
    }
}

pub fn get_text(attrs: &Vec<(String, String)>, key: &str) -> (r: Option<String>)
    ensures
        match r {
            Some(v) => text_attr(attrs@, key@) == Some(v@),
            None => text_attr(attrs@, key@) == None::<Seq<char>>,
        },
{
    match find_attr(attrs, key) {
        None => None,
        Some(v) => Some(v.clone()),
    }
}

pub fn get_colour(attrs: &Vec<(String, String)>, key: &str) -> (r: Option<Colour>)
    ensures
        r == colour_attr(attrs@, key@),
{
    match find_attr(attrs, key) {
        None => None,
        Some(v) => parse_colour(v.as_str()),
    }
}

} // verus!
