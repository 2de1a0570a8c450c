//! Typing the transcript at the cursor with `xdotool`.
use vstd::prelude::*;
use crate::text::views;

verus! {

/// The program that types the text.
pub const TYPING_PROGRAM: &'static str = "xdotool";

/// The arguments that make `xdotool` type `text` with no delay between keys.
pub open spec fn typing_args_for(text: Seq<char>) -> Seq<Seq<char>> {
    seq!["type"@, "--delay"@, "0"@, "--"@, text]
}

/// The arguments for typing `text`: none when there is nothing to type
/// (nothing is run then), else `typing_args_for(text)`.
pub fn typing_args(text: &str) -> (r: Option<Vec<String>>)
    ensures
        text@.len() == 0 ==> r is None,
        text@.len() != 0 ==> (r matches Some(args) && views(args@) == typing_args_for(text@)),
{
    if text.unicode_len() == 0 {
        return None;
    }
    let mut args: Vec<String> = Vec::new();
    args.push(String::from_str("type"));
    args.push(String::from_str("--delay"));
    args.push(String::from_str("0"));
    args.push(String::from_str("--"));
    args.push(String::from_str(text));
    assert(views(args@) =~= typing_args_for(text@));
    Some(args)
}

} // verus!
