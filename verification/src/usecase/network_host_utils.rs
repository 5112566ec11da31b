//! Where the fields of a host line begin and end. Positions count bytes
//! from the start of the line, as the positions of a `str` do.
use crate::entity::const_values::{PASS_SEPARATOR, TUBE_NAME_SEPARATOR};
use crate::text::{chars_of, contains, find, find_bytes, find_index};
use vstd::prelude::*;
use vstd::string::*;

verus! {

/// Where the password begins: behind the first password separator.
pub open spec fn password_start(line: Seq<u8>) -> Option<int> {
    match find(line, PASS_SEPARATOR.spec_bytes()) {
        Some(i) => Some(i + PASS_SEPARATOR.spec_bytes().len()),
        None => None,
    }
}

/// Where the password ends when a tube name follows: at the first tube
/// separator of a line that holds a password separator.
pub open spec fn password_end(line: Seq<u8>) -> Option<int> {
    if contains(line, PASS_SEPARATOR.spec_bytes()) {
        find(line, TUBE_NAME_SEPARATOR.spec_bytes())
    } else {
        None
    }
}

/// Where the tube name begins: behind the first tube separator.
pub open spec fn tube_name_start(line: Seq<u8>) -> Option<int> {
    match find(line, TUBE_NAME_SEPARATOR.spec_bytes()) {
        Some(i) => Some(i + TUBE_NAME_SEPARATOR.spec_bytes().len()),
        None => None,
    }
}

/// Where the tube name ends: at the end of a line that holds a tube separator.
pub open spec fn tube_name_end(line: Seq<u8>) -> Option<int> {
    if contains(line, TUBE_NAME_SEPARATOR.spec_bytes()) {
        Some(line.len() as int)
    } else {
        None
    }
}

/// `r` is the position `p`, or both are absent.
pub open spec fn is_position(r: Option<usize>, p: Option<int>) -> bool {
    match r {
        Some(k) => p == Some(k as int),
        None => p is None,
    }
}

/// Whether one of `subs` stands in `s`.
pub fn contains_one(s: &str, subs: &Vec<String>) -> (r: bool)
    ensures
        r == exists|k: int| 0 <= k < subs@.len() && contains(s@, #[trigger] subs@[k]@),
{
    let chars = chars_of(s);
    let mut i: usize = 0;
    while i < subs.len()
        invariant
            i <= subs.len(),
            chars@ == s@,
            forall|k: int| 0 <= k < i ==> !contains(s@, #[trigger] subs@[k]@),
        decreases subs.len() - i,
    {
        let sub = chars_of(subs[i].as_str());
        if find_index(&chars, &sub, 0).is_some() {
            return true;
        }
        i += 1;
    }
    false
}

/// The position behind the first password separator of `host`.
pub fn find_password_start(host: &str) -> (r: Option<usize>)
    ensures
        is_position(r, password_start(host.spec_bytes())),
{
    let sep = PASS_SEPARATOR.as_bytes();
    match find_bytes(host.as_bytes(), sep, 0) {
        Some(i) => Some(i + sep.len()),
        None => None,
    }
}

/// The position of the first tube separator of `host`, when `host` also
/// holds a password separator.
pub fn find_password_end(host: &str) -> (r: Option<usize>)
    ensures
        is_position(r, password_end(host.spec_bytes())),
{
    let hay = host.as_bytes();
    if find_bytes(hay, PASS_SEPARATOR.as_bytes(), 0).is_some() {
        find_bytes(hay, TUBE_NAME_SEPARATOR.as_bytes(), 0)
    } else {
        None
    }
}

/// The position behind the first tube separator of `host`.
pub fn find_tube_name_start(host: &str) -> (r: Option<usize>)
    ensures
        is_position(r, tube_name_start(host.spec_bytes())),
{
    let sep = TUBE_NAME_SEPARATOR.as_bytes();
    match find_bytes(host.as_bytes(), sep, 0) {
        Some(i) => Some(i + sep.len()),
        None => None,
    }
}

/// The length of `host` in bytes, when `host` holds a tube separator.
pub fn find_tube_name_end(host: &str) -> (r: Option<usize>)
    ensures
        is_position(r, tube_name_end(host.spec_bytes())),
{
    let hay = host.as_bytes();
    if find_bytes(hay, TUBE_NAME_SEPARATOR.as_bytes(), 0).is_some() {
        Some(hay.len())
    } else {
        None
    }
}

} // verus!
