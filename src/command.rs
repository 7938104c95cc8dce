//! Translation of a `color` chat command into the packed value to send.
use vstd::prelude::*;
use crate::color::{lookup, lower_of, lowercase, pack, packed, ColorTable, Rgb};

verus! {

/// Why a `color` command was refused.
#[derive(Clone, Copy, Debug, PartialEq, Eq, Structural)]
pub enum CommandError {
    /// The command did not have exactly one argument.
    ArgumentCount,
    /// The argument is not a recognized color name.
    UnknownColor,
}

/// The reply that tells the user why a command was refused.
pub open spec fn reply_of(e: CommandError) -> Seq<char> {
    match e {
        CommandError::ArgumentCount => "Invalid command format, color COLOR_NAME"@,
        CommandError::UnknownColor => "Invalid color"@,
    }
}

impl CommandError {
    /// The reply text for this refusal.
    pub fn reply_text(&self) -> (r: String)
        ensures
            r@ == reply_of(*self),
    {
        match self {
            CommandError::ArgumentCount => String::from_str("Invalid command format, color COLOR_NAME"),
            CommandError::UnknownColor => String::from_str("Invalid color"),
        }
    }
}

/// The result of a command whose argument resolved to `found`.
pub open spec fn color_outcome(found: Option<Rgb>) -> Result<u32, CommandError> {
    match found {
        Some(c) => Ok(packed(c) as u32),
        None => Err(CommandError::UnknownColor),
    }
}

/// The result of a command with the single argument `name`, already lowercase.
pub fn translate_canonical_name(table: &ColorTable, name: &str) -> (r: Result<u32, CommandError>)
    ensures
        r == color_outcome(lookup(table@, name@)),
{
    match table.resolve_canonical(name) {
        Some(c) => Ok(pack(c)),
        None => Err(CommandError::UnknownColor),
    }
}

/// Translates the arguments of a `color` command into the packed color value:
/// exactly one argument is expected, and it is resolved case-insensitively.
pub fn translate_color_command(table: &ColorTable, args: &[String]) -> (r: Result<
    u32,
    CommandError,
>)
    ensures
        args@.len() != 1 ==> r == Err::<u32, CommandError>(CommandError::ArgumentCount),
        args@.len() == 1 ==> r == color_outcome(lookup(table@, lower_of(args@[0]@))),
{
    if args.len() != 1 {
        return Err(CommandError::ArgumentCount);
    }
    let lowered = lowercase(args[0].as_str());
    translate_canonical_name(table, lowered.as_str())
}

} // verus!
