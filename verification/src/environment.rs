//! What the environment says: texts, directories and numbers that override the defaults.
use vstd::prelude::*;

use crate::text;

verus! {

broadcast use vstd::string::group_string_axioms;

/// The value of an environment variable that is read as a text.
#[derive(Debug, PartialEq, Eq)]
pub enum EnvText {
    /// The variable is not set.
    NotPresent,
    /// The variable is set to something that is no Unicode text.
    NotUnicode,
    /// The variable is set to a text.
    Text(String),
}

/// The value of an environment variable that is read as a path. What the path is, the library
/// passes on; it reads of it whether it is empty and whether it is absolute.
#[derive(Debug, PartialEq, Eq)]
pub struct EnvPath<R> {
    pub path: R,
    pub is_empty: bool,
    pub is_absolute: bool,
}

/// The text of a variable, or a default for one that holds no text.
pub open spec fn text_or(value: EnvText, default: Seq<char>) -> Seq<char> {
    match value {
        EnvText::Text(t) => t@,
        _ => default,
    }
}

/// The text of a variable, or a default for one that holds no text.
pub fn env_text(value: EnvText, default: &str) -> (r: String)
    ensures
        r@ == text_or(value, default@),
{
    match value {
        EnvText::Text(t) => t,
        _ => default.to_owned(),
    }
}

/// A variable that is set to nothing counts as not set.
pub open spec fn path_if_set<R>(value: Option<EnvPath<R>>) -> Option<EnvPath<R>> {
    match value {
        Some(p) => if p.is_empty {
            None
        } else {
            Some(p)
        },
        None => None,
    }
}

/// A variable that is set to nothing counts as not set.
pub fn env_path<R>(value: Option<EnvPath<R>>) -> (r: Option<EnvPath<R>>)
    ensures
        r == path_if_set(value),
{
    match value {
        Some(p) => if p.is_empty {
            None
        } else {
            Some(p)
        },
        None => None,
    }
}

// ---------------------------------------------------------------------------------------------
// Numbers
// ---------------------------------------------------------------------------------------------

/// A decimal digit.
pub open spec fn is_digit(c: char) -> bool {
    '0' <= c <= '9'
}

/// The digits of a number: what follows an optional plus sign.
pub open spec fn digits_of(s: Seq<char>) -> Seq<char> {
    if s.len() > 0 && s[0] == '+' {
        s.skip(1)
    } else {
        s
    }
}

/// The value of some decimal digits.
pub open spec fn decimal(s: Seq<char>) -> nat
    decreases s.len(),
{
    if s.len() == 0 {
        0
    } else {
        (decimal(s.drop_last()) * 10 + (s.last() as int - '0' as int)) as nat
    }
}

/// The text is a number: at least one digit and nothing else, a plus sign before them aside.
pub open spec fn is_number(s: Seq<char>) -> bool {
    digits_of(s).len() > 0 && forall|i: int|
        0 <= i < digits_of(s).len() ==> is_digit(#[trigger] digits_of(s)[i])
}

/// The number that the text stands for, where it is one that 64 bits can hold.
pub open spec fn number_in(s: Seq<char>) -> Option<u64> {
    if is_number(s) && decimal(digits_of(s)) <= u64::MAX {
        Some(decimal(digits_of(s)) as u64)
    } else {
        None
    }
}

/// The words with which `str::parse::<u64>` refuses a text.
pub uninterp spec fn number_error(s: Seq<char>) -> Seq<char>;

/// Calls `str::parse::<u64>`. It claims that a text is accepted where it is an optional plus sign
/// and at least one decimal digit, and the number fits into 64 bits; that the result is this
/// number; and that the words of the error, its `Display` text, depend on the text alone.
#[verifier::external_body]
fn parse_number(s: &str) -> (r: Result<u64, String>)
    ensures
        match r {
            Ok(n) => number_in(s@) == Some(n),
            Err(e) => number_in(s@) is None && e@ == number_error(s@),
        },
{
    match s.parse::<u64>() {
        Ok(n) => Ok(n),
        Err(e) => Err(e.to_string()),
    }
}

/// What a number of seconds comes to, given what was made of the text of the variable.
pub open spec fn seconds(key: Seq<char>, parsed: Result<u64, Seq<char>>) -> Result<
    Option<u64>,
    Seq<char>,
> {
    match parsed {
        Ok(n) => Ok(Some(n)),
        Err(e) => Err("invalid "@ + key + ": "@ + e),
    }
}

/// What a number of seconds comes to, given what was made of the text of the variable.
pub fn accept_seconds(key: &str, parsed: Result<u64, String>) -> (r: Result<Option<u64>, String>)
    ensures
        text::viewed_as_is(r) == seconds(key@, text::viewed_as_is(parsed)),
{
    match parsed {
        Ok(n) => Ok(Some(n)),
        Err(e) => Err(text::concat(&text::concat(&text::concat("invalid ", key), ": "), &e)),
    }
}

/// What the parser makes of the text of a number.
pub open spec fn parsed_number(s: Seq<char>) -> Result<u64, Seq<char>> {
    match number_in(s) {
        Some(n) => Ok(n),
        None => Err(number_error(s)),
    }
}

/// The number of seconds that a variable holds: none where it is not set, else the number in its
/// text, white space around it aside.
pub open spec fn duration_secs(key: Seq<char>, value: EnvText) -> Result<Option<u64>, Seq<char>> {
    match value {
        EnvText::Text(t) => seconds(key, parsed_number(text::trim(t@))),
        EnvText::NotPresent => Ok(None),
        EnvText::NotUnicode => Err(key + " must be valid unicode"@),
    }
}

/// The number of seconds that the variable `key` holds.
pub fn env_duration_secs(key: &str, value: &EnvText) -> (r: Result<Option<u64>, String>)
    ensures
        text::viewed_as_is(r) == duration_secs(key@, *value),
{
    match value {
        EnvText::Text(t) => accept_seconds(key, parse_number(text::trimmed_text(t))),
        EnvText::NotPresent => Ok(None),
        EnvText::NotUnicode => Err(text::concat(key, " must be valid unicode")),
    }
}

// ---------------------------------------------------------------------------------------------
// Laws
// ---------------------------------------------------------------------------------------------

/// A variable with a text is taken at its word. One that is not set, or that holds no text, leaves
/// the default.
pub proof fn law_texts_override_the_default(value: EnvText, default: Seq<char>)
    ensures
        value matches EnvText::Text(t) ==> text_or(value, default) == t@,
        !(value is Text) ==> text_or(value, default) == default,
{
}

/// A path that is not empty is passed on as it is. One that is empty or not set is none.
pub proof fn law_paths_are_passed_on<R>(path: EnvPath<R>)
    ensures
        !path.is_empty ==> path_if_set(Some(path)) == Some(path),
        path.is_empty ==> path_if_set(Some(path)) is None,
        path_if_set(None::<EnvPath<R>>) is None,
{
}

/// A number in a variable is taken as it stands, white space around it aside. A text that is no
/// number is an error that names the variable; so is one that is no Unicode text.
pub proof fn law_numbers_are_taken_as_they_stand(
    key: Seq<char>,
    value: EnvText,
    before: Seq<char>,
    number: Seq<char>,
    behind: Seq<char>,
)
    requires
        text::is_blank(before),
        text::is_blank(behind),
        text::has_bare_ends(number),
    ensures
        value matches EnvText::Text(t) ==> (t@ == before + number + behind ==> match number_in(
            number,
        ) {
            Some(n) => duration_secs(key, value) == Ok::<Option<u64>, Seq<char>>(Some(n)),
            None => duration_secs(key, value) == Err::<Option<u64>, Seq<char>>(
                "invalid "@ + key + ": "@ + number_error(number),
            ),
        }),
        value is NotPresent ==> duration_secs(key, value) == Ok::<Option<u64>, Seq<char>>(None),
        value is NotUnicode ==> duration_secs(key, value) == Err::<Option<u64>, Seq<char>>(
            key + " must be valid unicode"@,
        ),
{
    text::law_trim_removes_what_is_around(before, number, behind);
}

} // verus!
