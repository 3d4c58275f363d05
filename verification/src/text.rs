//! Texts: comparing two of them, searching one in another, and writing a
//! number in digits.

use vstd::prelude::*;
use vstd::string::StringExecFns;
use vstd::utf8::{encode_utf8, encode_utf8_decode_utf8};

verus! {

/// Whether two runs of bytes are the same.
pub fn same_bytes(a: &[u8], b: &[u8]) -> (same: bool)
    ensures
        same == (a@ == b@),
{
    if a.len() != b.len() {
        return false;
    }
    let mut i: usize = 0;
    while i < a.len()
        invariant
            a@.len() == b@.len(),
            i <= a@.len(),
            forall|j: int| 0 <= j < i ==> a@[j] == b@[j],
        decreases a@.len() - i,
    {
        if a[i] != b[i] {
            return false;
        }
        i += 1;
    }
    assert(a@ =~= b@);
    true
}

/// Whether two texts are the same.
pub fn same_text(a: &str, b: &str) -> (same: bool)
    ensures
        same == (a@ == b@),
{
    proof {
        encode_utf8_decode_utf8(a@);
        encode_utf8_decode_utf8(b@);
    }
    same_bytes(a.as_bytes(), b.as_bytes())
}

/// `needle` stands in `hay` at place `at`.
pub open spec fn occurs_at(hay: Seq<u8>, needle: Seq<u8>, at: int) -> bool {
    0 <= at && at + needle.len() <= hay.len() && hay.subrange(at, at + needle.len()) == needle
}

/// `needle` stands somewhere in `hay`.
pub open spec fn occurs_in(hay: Seq<u8>, needle: Seq<u8>) -> bool {
    exists|at: int| occurs_at(hay, needle, at)
}

/// Whether `needle` stands in `hay` at place `at`.
fn matches_at(hay: &[u8], needle: &[u8], at: usize) -> (found: bool)
    requires
        at + needle@.len() <= hay@.len(),
    ensures
        found == occurs_at(hay@, needle@, at as int),
{
    let len = needle.len();
    let whole = hay.len();
    let mut i: usize = 0;
    while i < len
        invariant
            i <= len,
            len == needle@.len(),
            whole == hay@.len(),
            at + len <= whole,
            forall|j: int| 0 <= j < i ==> hay@[at + j] == needle@[j],
        decreases len - i,
    {
        if hay[at + i] != needle[i] {
            assert(hay@.subrange(at as int, at + needle@.len())[i as int] != needle@[i as int]);
            return false;
        }
        i += 1;
    }
    assert(hay@.subrange(at as int, at + needle@.len()) =~= needle@);
    true
}

/// Whether the bytes of `needle` stand somewhere in `hay`.
pub fn contains_bytes(hay: &[u8], needle: &[u8]) -> (found: bool)
    ensures
        found == occurs_in(hay@, needle@),
{
    if needle.len() > hay.len() {
        return false;
    }
    let last = hay.len() - needle.len();
    let mut at: usize = 0;
    loop
        invariant
            at <= last,
            last == hay@.len() - needle@.len(),
            forall|k: int| 0 <= k < at ==> !occurs_at(hay@, needle@, k),
        decreases last - at,
    {
        if matches_at(hay, needle, at) {
            return true;
        }
        if at == last {
            return false;
        }
        at += 1;
    }
}

/// Whether `needle` is a part of `hay`.
pub fn contains(hay: &str, needle: &str) -> (found: bool)
    ensures
        found == part_of(needle@, hay@),
{
    contains_bytes(hay.as_bytes(), needle.as_bytes())
}

/// `needle` is a part of `hay`: the bytes of the one, in UTF-8, stand
/// somewhere among the bytes of the other.
pub open spec fn part_of(needle: Seq<char>, hay: Seq<char>) -> bool {
    occurs_in(encode_utf8(hay), encode_utf8(needle))
}

/// The place of the first of `texts` that `needle` is a part of.
pub fn first_containing(texts: &Vec<String>, needle: &str) -> (place: Option<usize>)
    ensures
        place matches Some(k) ==> k < texts@.len() && part_of(needle@, texts@[k as int]@)
            && forall|j: int| 0 <= j < k ==> !part_of(needle@, (#[trigger] texts@[j])@),
        place is None ==> forall|j: int|
            0 <= j < texts@.len() ==> !part_of(needle@, (#[trigger] texts@[j])@),
{
    let mut i: usize = 0;
    while i < texts.len()
        invariant
            i <= texts@.len(),
            forall|j: int| 0 <= j < i ==> !part_of(needle@, (#[trigger] texts@[j])@),
        decreases texts@.len() - i,
    {
        if contains(texts[i].as_str(), needle) {
            return Some(i);
        }
        i += 1;
    }
    None
}

/// The place of the last of `texts` that `needle` is a part of.
pub fn last_containing(texts: &Vec<String>, needle: &str) -> (place: Option<usize>)
    ensures
        place matches Some(k) ==> k < texts@.len() && part_of(needle@, texts@[k as int]@)
            && forall|j: int| k < j < texts@.len() ==> !part_of(needle@, (#[trigger] texts@[j])@),
        place is None ==> forall|j: int|
            0 <= j < texts@.len() ==> !part_of(needle@, (#[trigger] texts@[j])@),
{
    let mut i: usize = texts.len();
    while i > 0
        invariant
            i <= texts@.len(),
            forall|j: int| i <= j < texts@.len() ==> !part_of(needle@, (#[trigger] texts@[j])@),
        decreases i,
    {
        i -= 1;
        if contains(texts[i].as_str(), needle) {
            return Some(i);
        }
    }
    None
}

/// `prefix` is the beginning of `text`, byte by byte.
pub open spec fn begins(text: Seq<char>, prefix: Seq<char>) -> bool {
    occurs_at(encode_utf8(text), encode_utf8(prefix), 0)
}

/// Whether `prefix` is the beginning of `text`.
pub fn starts_with(text: &str, prefix: &str) -> (found: bool)
    ensures
        found == begins(text@, prefix@),
{
    let whole = text.as_bytes();
    let head = prefix.as_bytes();
    if head.len() > whole.len() {
        return false;
    }
    matches_at(whole, head, 0)
}

/// The digit that stands for a number below ten.
pub open spec fn digit(d: nat) -> Seq<char> {
    if d == 0 {
        "0"@
    } else if d == 1 {
        "1"@
    } else if d == 2 {
        "2"@
    } else if d == 3 {
        "3"@
    } else if d == 4 {
        "4"@
    } else if d == 5 {
        "5"@
    } else if d == 6 {
        "6"@
    } else if d == 7 {
        "7"@
    } else if d == 8 {
        "8"@
    } else {
        "9"@
    }
}

/// The decimal digits of a number, without leading zeros.
pub open spec fn decimal(n: nat) -> Seq<char>
    decreases n,
{
    if n < 10 {
        digit(n)
    } else {
        decimal(n / 10) + digit(n % 10)
    }
}

/// Writes the digit that stands for a number below ten.
fn digit_text(d: usize) -> (text: &'static str)
    requires
        d < 10,
    ensures
        text@ == digit(d as nat),
{
    match d {
        0 => "0",
        1 => "1",
        2 => "2",
        3 => "3",
        4 => "4",
        5 => "5",
        6 => "6",
        7 => "7",
        8 => "8",
        _ => "9",
    }
}

/// Writes a number in decimal digits.
pub fn decimal_text(n: usize) -> (text: String)
    ensures
        text@ == decimal(n as nat),
    decreases n,
{
    if n < 10 {
        String::from_str(digit_text(n))
    } else {
        decimal_text(n / 10).concat(digit_text(n % 10))
    }
}

} // verus!
