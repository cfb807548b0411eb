//! Text helpers: comparing, searching and building the short strings that
//! names, queries and edit buffers are made of.
//!
//! A string is seen as its sequence of characters.

use vstd::prelude::*;
use vstd::string::*;

verus! {

/// What `str::to_lowercase` returns for a string with these characters.
pub uninterp spec fn lowercase(text: Seq<char>) -> Seq<char>;

/// `needle` occurs in `hay` as a run of consecutive characters.
pub open spec fn is_substring(needle: Seq<char>, hay: Seq<char>) -> bool {
    exists|start: int|
        0 <= start && start + needle.len() <= hay.len() && #[trigger] hay.subrange(
            start,
            start + needle.len(),
        ) == needle
}

/// A candidate named `name` is kept under the query `query`: every name is
/// kept under the empty query, and otherwise those that hold the query,
/// letter case set aside.
pub open spec fn matches_query(name: Seq<char>, query: Seq<char>) -> bool {
    query.len() == 0 || is_substring(lowercase(query), lowercase(name))
}

/// The decimal digit for `d`, which is below ten.
pub open spec fn digit(d: nat) -> char {
    if d == 0 {
        '0'
    } else if d == 1 {
        '1'
    } else if d == 2 {
        '2'
    } else if d == 3 {
        '3'
    } else if d == 4 {
        '4'
    } else if d == 5 {
        '5'
    } else if d == 6 {
        '6'
    } else if d == 7 {
        '7'
    } else if d == 8 {
        '8'
    } else {
        '9'
    }
}

/// `n` written in decimal, without leading zeros.
pub open spec fn decimal(n: nat) -> Seq<char>
    decreases n,
{
    if n < 10 {
        seq![digit(n)]
    } else {
        decimal(n / 10).push(digit(n % 10))
    }
}

/// `text` without its last character; `text` itself where it is empty.
pub open spec fn without_last(text: Seq<char>) -> Seq<char> {
    if text.len() == 0 {
        text
    } else {
        text.drop_last()
    }
}

/// Calls `str::to_lowercase`: the lowercase equivalent of `text` as a new
/// string. The mapping is Unicode's; the contract gives it a name and says
/// nothing else of it.
#[verifier::external_body]
pub(crate) fn to_lowercase(text: &str) -> (lowered: String)
    ensures
        lowered@ == lowercase(text@),
{
    text.to_lowercase()
}

/// Calls `String::pop`: removes the last character and returns it, or
/// returns `None` and changes nothing where the string is empty.
#[verifier::external_body]
pub(crate) fn pop_char(text: &mut String) -> (last: Option<char>)
    ensures
        final(text)@ == without_last(old(text)@),
        old(text)@.len() == 0 ==> last.is_none(),
        old(text)@.len() > 0 ==> last == Some(old(text)@.last()),
{
    text.pop()
}

/// The characters of `text`, in order.
pub fn to_chars(text: &str) -> (chars: Vec<char>)
    ensures
        chars@ == text@,
{
    let n = text.unicode_len();
    let mut chars: Vec<char> = Vec::new();
    let mut i: usize = 0;
    while i < n
        invariant
            i <= n,
            n == text@.len(),
            chars@ == text@.take(i as int),
        decreases n - i,
    {
        chars.push(text.get_char(i));
        assert(text@.take(i as int).push(text@[i as int]) =~= text@.take(i + 1));
        i += 1;
    }
    assert(text@.take(n as int) =~= text@);
    chars
}

/// Whether the two strings hold the same characters.
pub fn same_text(a: &str, b: &str) -> (same: bool)
    ensures
        same == (a@ == b@),
{
    let left = to_chars(a);
    let right = to_chars(b);
    if left.len() != right.len() {
        return false;
    }
    let mut i: usize = 0;
    while i < left.len()
        invariant
            i <= left@.len(),
            left@ == a@,
            right@ == b@,
            left@.len() == right@.len(),
            left@.take(i as int) == right@.take(i as int),
        decreases left@.len() - i,
    {
        if left[i] != right[i] {
            assert(a@[i as int] != b@[i as int]);
            return false;
        }
        assert(left@.take(i + 1) =~= left@.take(i as int).push(left@[i as int]));
        assert(right@.take(i + 1) =~= right@.take(i as int).push(right@[i as int]));
        i += 1;
    }
    assert(left@.take(i as int) =~= left@);
    assert(right@.take(i as int) =~= right@);
    true
}

/// Whether `needle` occurs in `hay`. The empty string occurs in every
/// string.
pub fn contains_text(hay: &str, needle: &str) -> (found: bool)
    ensures
        found == is_substring(needle@, hay@),
{
    let h = to_chars(hay);
    let n = to_chars(needle);
    if n.len() > h.len() {
        return false;
    }
    let last_start = h.len() - n.len();
    let mut start: usize = 0;
    while start <= last_start
        invariant
            h@ == hay@,
            n@ == needle@,
            n@.len() <= h@.len(),
            h@.len() <= usize::MAX,
            last_start == h@.len() - n@.len(),
            start <= last_start + 1,
            forall|s: int|
                0 <= s < start ==> #[trigger] h@.subrange(s, s + n@.len()) != n@,
        decreases last_start + 1 - start,
    {
        let mut k: usize = 0;
        while k < n.len() && h[start + k] == n[k]
            invariant
                k <= n@.len(),
                start <= last_start,
                h@.len() <= usize::MAX,
                n@.len() <= h@.len(),
                last_start == h@.len() - n@.len(),
                h@.subrange(start as int, start + k) == n@.take(k as int),
            decreases n@.len() - k,
        {
            assert(h@.subrange(start as int, start + k + 1) =~= h@.subrange(
                start as int,
                start + k,
            ).push(h@[start + k]));
            assert(n@.take(k + 1) =~= n@.take(k as int).push(n@[k as int]));
            k += 1;
        }
        if k == n.len() {
            assert(n@.take(k as int) =~= n@);
            return true;
        }
        assert(h@.subrange(start as int, start + n@.len())[k as int] != n@[k as int]);
        start += 1;
    }
    false
}

/// Whether a candidate named `name` is kept under `query`.
pub fn name_matches(name: &str, query: &str) -> (kept: bool)
    ensures
        kept == matches_query(name@, query@),
{
    if query.unicode_len() == 0 {
        return true;
    }
    let lowered_query = to_lowercase(query);
    let lowered_name = to_lowercase(name);
    contains_text(lowered_name.as_str(), lowered_query.as_str())
}

/// The one-character string for a decimal digit.
fn digit_text(d: u8) -> (text: &'static str)
    requires
        d < 10,
    ensures
        text@ == seq![digit(d as nat)],
{
    proof {
        reveal_strlit("0");
        reveal_strlit("1");
        reveal_strlit("2");
        reveal_strlit("3");
        reveal_strlit("4");
        reveal_strlit("5");
        reveal_strlit("6");
        reveal_strlit("7");
        reveal_strlit("8");
        reveal_strlit("9");
    }
    let text = if d == 0 {
        "0"
    } else if d == 1 {
        "1"
    } else if d == 2 {
        "2"
    } else if d == 3 {
        "3"
    } else if d == 4 {
        "4"
    } else if d == 5 {
        "5"
    } else if d == 6 {
        "6"
    } else if d == 7 {
        "7"
    } else if d == 8 {
        "8"
    } else {
        "9"
    };
    assert(text@ =~= seq![digit(d as nat)]);
    text
}

/// Appends `n` in decimal to `text`.
pub fn append_decimal(text: &mut String, n: u128)
    ensures
        final(text)@ == old(text)@ + decimal(n as nat),
    decreases n,
{
    if n >= 10 {
        append_decimal(text, n / 10);
    }
    let last = (n % 10) as u8;
    text.append(digit_text(last));
    assert(text@ =~= old(text)@ + decimal(n as nat));
}

/// `label`, a space, and `n` in decimal: the name given to the `n`-th entity
/// of a kind.
pub fn numbered_name(label: &str, n: u128) -> (name: String)
    ensures
        name@ == label@ + seq![' '] + decimal(n as nat),
{
    proof {
        reveal_strlit(" ");
    }
    let mut name = label.to_owned();
    name.append(" ");
    append_decimal(&mut name, n);
    assert(name@ =~= label@ + seq![' '] + decimal(n as nat));
    name
}

} // verus!
