//! Terminal control sequences, and the text that is left without them.

use vstd::prelude::*;
use regex::Regex;

verus! {

/// The pattern of a terminal control sequence, in the regex engine's syntax:
/// the escape character and an opening bracket, then any number of digits
/// and semicolons, then one letter, `a` to `z`, matched without regard to
/// case.
pub const CONTROL_SEQUENCE: &'static str = "(?i)\x1b\\[[\\d;]*[a-z]";

/// `regex::Error`: the engine's account of a pattern that it does not
/// accept. It is carried, never looked into.
#[verifier::external_type_specification]
#[verifier::external_body]
pub struct ExRegexError(regex::Error);

/// What is left of `text` once every non-overlapping match of `pattern`,
/// found from left to right, has been replaced with `rep`, as the regex
/// engine does it; `None` where it does not accept `pattern`.
pub uninterp spec fn replaced(pattern: Seq<char>, text: Seq<char>, rep: Seq<char>) -> Option<
    Seq<char>,
>;

/// Compiles `pattern` with `regex::Regex::new` and, where that succeeds,
/// applies `Regex::replace_all` to `text` with the replacement `rep`. The
/// outcome is a function of the three strings alone, and is what `replaced`
/// names; the engine's error comes back where the pattern does not compile.
#[verifier::external_body]
fn replace_all(pattern: &str, text: &str, rep: &str) -> (r: Result<String, regex::Error>)
    ensures
        match r {
            Ok(out) => replaced(pattern@, text@, rep@) == Some(out@),
            Err(_) => replaced(pattern@, text@, rep@) is None,
        },
{
    match Regex::new(pattern) {
        Ok(re) => Ok(re.replace_all(text, rep).into_owned()),
        Err(e) => Err(e),
    }
}

/// Takes every match of `pattern` out of `text`. `None` where the engine
/// does not accept the pattern.
pub fn erase(pattern: &str, text: &str) -> (r: Option<String>)
    ensures
        match r {
            Some(rest) => replaced(pattern@, text@, Seq::<char>::empty()) == Some(rest@),
            None => replaced(pattern@, text@, Seq::<char>::empty()) is None,
        },
{
    let nothing = String::new();
    match replace_all(pattern, text, nothing.as_str()) {
        Ok(rest) => Some(rest),
        Err(_) => None,
    }
}

/// The visible part of `rendered`: what is left once every control sequence
/// has been taken out. `None` where the engine refuses the pattern.
pub open spec fn visible(rendered: Seq<char>) -> Option<Seq<char>> {
    replaced(CONTROL_SEQUENCE@, rendered, Seq::<char>::empty())
}

/// Removes every control sequence from `rendered`.
pub fn strip(rendered: &str) -> (r: Option<String>)
    ensures
        match r {
            Some(plain) => visible(rendered@) == Some(plain@),
            None => visible(rendered@) is None,
        },
{
    erase(CONTROL_SEQUENCE, rendered)
}

} // verus!
