//! Line cleaning ahead of the parser: whitespace, comments and blank lines.
use vstd::prelude::*;
use vstd::string::*;
use crate::text::chars_of;

verus! {

/// Whether a character has Unicode's White_Space property, as `char::is_whitespace` decides.
pub uninterp spec fn white_space(c: char) -> bool;

/// Relies on `char::is_whitespace`: whether `c` has the Unicode White_Space property.
#[verifier::external_body]
fn is_whitespace(c: char) -> (r: bool)
    ensures
        r == white_space(c),
{
    c.is_whitespace()
}

/// The characters of `s` that are not white space, in order.
pub open spec fn without_white_space(s: Seq<char>) -> Seq<char> {
    s.filter(|c: char| !white_space(c))
}

/// Where a `//` comment starts at or after `from`, or `s.len()` if none does.
pub open spec fn comment_from(s: Seq<char>, from: int) -> int
    decreases s.len() - from,
{
    if from + 1 >= s.len() {
        s.len() as int
    } else if s[from] == '/' && s[from + 1] == '/' {
        from
    } else {
        comment_from(s, from + 1)
    }
}

/// The line up to its first `//`, or the whole line if it has none.
pub open spec fn without_comment(s: Seq<char>) -> Seq<char> {
    s.subrange(0, comment_from(s, 0))
}

/// Removes every white-space character of the line.
pub fn remove_white_spaces(some_string: &str) -> (r: String)
    ensures
        r@ == without_white_space(some_string@),
{
    let chars = chars_of(some_string);
    let n = chars.len();
    let ghost s = some_string@;
    let mut r = String::new();
    let mut i: usize = 0;
    assert(s.take(0).filter(|c: char| !white_space(c)) =~= Seq::<char>::empty()) by {
        reveal(Seq::filter);
    }
    while i < n
        invariant
            n == s.len(),
            s == chars@,
            s == some_string@,
            i <= n,
            r@ == s.take(i as int).filter(|c: char| !white_space(c)),
        decreases n - i,
    {
        assert(s.take(i + 1).drop_last() =~= s.take(i as int));
        reveal(Seq::filter);
        if !is_whitespace(chars[i]) {
            r.append(some_string.substring_char(i, i + 1));
        }
        assert(r@ =~= s.take(i + 1).filter(|c: char| !white_space(c)));
        i = i + 1;
    }
    assert(s.take(n as int) =~= s);
    r
}

/// Cuts the line at its first `//` comment.
pub fn remove_comment(some_string: &str) -> (r: String)
    ensures
        r@ == without_comment(some_string@),
{
    let chars = chars_of(some_string);
    let n = chars.len();
    let last: usize = if n > 0 { n - 1 } else { 0 };
    let mut i: usize = 0;
    while i < last
        invariant
            last == if n > 0 { n - 1 } else { 0 },
            n == chars@.len(),
            chars@ == some_string@,
            i <= n,
            comment_from(chars@, 0) == comment_from(chars@, i as int),
        decreases n - i,
    {
        if chars[i] == '/' && chars[i + 1] == '/' {
            return some_string.substring_char(0, i).to_owned();
        }
        i = i + 1;
    }
    assert(some_string@.subrange(0, n as int) =~= some_string@);
    some_string.to_owned()
}

/// Cuts each line at its first `//` comment.
pub fn remove_all_comments(lines: &Vec<String>) -> (r: Vec<String>)
    ensures
        r.deep_view() == lines.deep_view().map_values(|l: Seq<char>| without_comment(l)),
{
    let mut r: Vec<String> = Vec::new();
    let mut i: usize = 0;
    while i < lines.len()
        invariant
            i <= lines@.len(),
            r@.len() == i,
            forall|k: int| 0 <= k < i ==> #[trigger] r@[k]@ == without_comment(lines@[k]@),
        decreases lines@.len() - i,
    {
        r.push(remove_comment(lines[i].as_str()));
        i = i + 1;
    }
    assert(r.deep_view() =~= lines.deep_view().map_values(|l: Seq<char>| without_comment(l)));
    r
}

/// Drops the empty lines, keeping the others in order.
pub fn remove_all_empty_lines(lines: &Vec<String>) -> (r: Vec<String>)
    ensures
        r.deep_view() == lines.deep_view().filter(|l: Seq<char>| l.len() > 0),
{
    let ghost s = lines.deep_view();
    let mut r: Vec<String> = Vec::new();
    let mut i: usize = 0;
    assert(s.take(0).filter(|l: Seq<char>| l.len() > 0) =~= Seq::<Seq<char>>::empty()) by {
        reveal(Seq::filter);
    }
    while i < lines.len()
        invariant
            s == lines.deep_view(),
            i <= lines@.len(),
            r.deep_view() == s.take(i as int).filter(|l: Seq<char>| l.len() > 0),
        decreases lines@.len() - i,
    {
        assert(s.take(i + 1).drop_last() =~= s.take(i as int));
        reveal(Seq::filter);
        if !lines[i].as_str().is_empty() {
            r.push(lines[i].clone());
        }
        assert(r.deep_view() =~= s.take(i + 1).filter(|l: Seq<char>| l.len() > 0));
        i = i + 1;
    }
    assert(s.take(i as int) =~= s);
    r
}

} // verus!
