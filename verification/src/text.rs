//! Text helpers shared by the declaration parser and the invocation parser.

use vstd::prelude::*;
use vstd::string::*;

verus! {

/// The quotation mark that delimits a string literal.
pub open spec fn quote_mark() -> char {
    '"'
}

/// Whether `c` is one of the 52 ASCII letters.
pub open spec fn is_ascii_letter(c: char) -> bool {
    ('a' <= c && c <= 'z') || ('A' <= c && c <= 'Z')
}

/// `c` with an ASCII upper-case letter replaced by its lower-case form.
pub open spec fn ascii_lower_char(c: char) -> char {
    if 'A' <= c && c <= 'Z' {
        ((c as u8) + 32) as char
    } else {
        c
    }
}

/// `s` with every ASCII upper-case letter replaced by its lower-case form.
pub open spec fn ascii_lowercase(s: Seq<char>) -> Seq<char> {
    Seq::new(s.len(), |i: int| ascii_lower_char(s[i]))
}

/// `s` without its leading run of `c`.
pub open spec fn trim_leading(s: Seq<char>, c: char) -> Seq<char>
    decreases s.len(),
{
    if s.len() > 0 && s[0] == c {
        trim_leading(s.skip(1), c)
    } else {
        s
    }
}

/// `s` without its trailing run of `c`.
pub open spec fn trim_trailing(s: Seq<char>, c: char) -> Seq<char>
    decreases s.len(),
{
    if s.len() > 0 && s.last() == c {
        trim_trailing(s.drop_last(), c)
    } else {
        s
    }
}

/// The value of a literal written as `s`: the text between its quotation
/// marks, or all of `s` where it has none.
pub open spec fn unquote(s: Seq<char>) -> Seq<char> {
    trim_trailing(trim_leading(s, quote_mark()), quote_mark())
}

/// The first character that `char::to_uppercase` yields for `c`.
pub uninterp spec fn uppercase_initial(c: char) -> char;

/// `char::to_uppercase` of std, reduced to the first character it yields: the
/// upper-case form of `c`, or `c` itself where it has none.
#[verifier::external_body]
pub(crate) fn first_uppercase(c: char) -> (upper: char)
    ensures
        upper == uppercase_initial(c),
{
    c.to_uppercase().next().unwrap_or(c)
}

/// `String::push` of std: appends the character to the end of the string.
pub assume_specification[ String::push ](s: &mut String, c: char)
    ensures
        final(s)@ == old(s)@.push(c),
;

/// `char::is_ascii_alphabetic` of std: true exactly for `'A'..='Z'` and
/// `'a'..='z'`, as its documentation lists them.
pub assume_specification[ char::is_ascii_alphabetic ](c: &char) -> (b: bool)
    ensures
        b == is_ascii_letter(*c),
;

/// `str::to_ascii_lowercase` of std: a copy of the string in which `'A'..='Z'`
/// are mapped to `'a'..='z'` and every other character is left as it is.
pub assume_specification[ str::to_ascii_lowercase ](s: &str) -> (r: String)
    ensures
        r@ == ascii_lowercase(s@),
;

/// Strips the quotation marks off a literal's source text.
pub fn unquoted(text: &str) -> (value: String)
    ensures
        value@ == unquote(text@),
{
    let n: usize = text.unicode_len();
    let mut start: usize = 0;
    assert(text@.skip(0) =~= text@);
    while start < n && text.get_char(start) == '"'
        invariant
            start <= n,
            n == text@.len(),
            trim_leading(text@, quote_mark()) == trim_leading(
                text@.skip(start as int),
                quote_mark(),
            ),
        decreases n - start,
    {
        assert(text@.skip(start as int).skip(1) =~= text@.skip(start + 1));
        start += 1;
    }
    let mut end: usize = n;
    while end > start && text.get_char(end - 1) == '"'
        invariant
            start <= end <= n,
            n == text@.len(),
            trim_trailing(text@.skip(start as int), quote_mark()) == trim_trailing(
                text@.subrange(start as int, end as int),
                quote_mark(),
            ),
        decreases end - start,
    {
        assert(text@.subrange(start as int, end as int).drop_last() =~= text@.subrange(
            start as int,
            end - 1,
        ));
        end -= 1;
    }
    String::from_str(text.substring_char(start, end))
}

/// Whether no two of the strings are equal.
pub fn all_distinct(names: &Vec<String>) -> (distinct: bool)
    ensures
        distinct == names.deep_view().no_duplicates(),
{
    let mut i: usize = 0;
    while i < names.len()
        invariant
            i <= names.len(),
            forall|a: int, b: int| 0 <= a < b < i ==> names[a]@ != names[b]@,
        decreases names.len() - i,
    {
        let mut j: usize = 0;
        while j < i
            invariant
                j <= i < names.len(),
                forall|a: int| 0 <= a < j ==> names[a]@ != names[i as int]@,
            decreases i - j,
        {
            if names[j] == names[i] {
                assert(names.deep_view()[j as int] == names.deep_view()[i as int]);
                return false;
            }
            j += 1;
        }
        i += 1;
    }
    assert forall|a: int, b: int|
        0 <= a < names.len() && 0 <= b < names.len() && a != b implies names.deep_view()[a]
        != names.deep_view()[b] by {
        if a < b {
            assert(names[a]@ != names[b]@);
        } else {
            assert(names[b]@ != names[a]@);
        }
    }
    true
}

} // verus!
