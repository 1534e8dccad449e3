//! The map's server commands: reading a command typed as
//! "command # comment", and the actions that add or remove one.
use vstd::prelude::*;

use crate::tune::{copy_range, find_first, first_from, trim_chars, trim_spec, CharClass};
use crate::tune_zones::{copy_command, CommandValue};

verus! {

/// A server command as typed: split at the first `#` into the command and
/// the comment, each trimmed; without `#`, the whole text trimmed and no
/// comment.
pub open spec fn parse_command_spec(s: Seq<char>) -> (Seq<char>, Option<Seq<char>>) {
    match first_from(s, 0, CharClass::Hash) {
        Some(i) => (trim_spec(s.take(i)), Some(trim_spec(s.skip(i + 1)))),
        None => (trim_spec(s), None),
    }
}

/// Reads a server command as typed (see [`parse_command_spec`]).
pub fn parse_server_command(s: &Vec<char>) -> (r: (Vec<char>, Option<Vec<char>>))
    ensures
        r.0@ == parse_command_spec(s@).0,
        match parse_command_spec(s@).1 {
            None => r.1 is None,
            Some(c) => r.1 matches Some(rc) && rc@ == c,
        },
{
    match find_first(s, 0, CharClass::Hash) {
        Some(i) => {
            let n = s.len();
            let before = copy_range(s, 0, i);
            let after = copy_range(s, i + 1, n);
            proof {
                assert(before@ == s@.take(i as int));
                assert(after@ == s@.skip(i as int + 1));
            }
            (trim_chars(&before), Some(trim_chars(&after)))
        },
        None => (trim_chars(s), None),
    }
}

/// The server's commands changed from `old_commands` to `new_commands`.
#[derive(Debug)]
pub struct SetCommands {
    pub old_commands: Vec<CommandValue>,
    pub new_commands: Vec<CommandValue>,
}

fn copy_commands(c: &Vec<CommandValue>) -> (r: Vec<CommandValue>)
    ensures
        r@ == c@,
{
    let mut r: Vec<CommandValue> = Vec::new();
    let mut i: usize = 0;
    while i < c.len()
        invariant
            i <= c@.len(),
            r@ == c@.subrange(0, i as int),
        decreases c@.len() - i,
    {
        r.push(copy_command(&c[i]));
        i = i + 1;
    }
    r
}

/// The action of adding a typed server command after the others.
pub fn add_command_action(commands: &Vec<CommandValue>, value: String, comment: Option<String>) -> (r: SetCommands)
    ensures
        r.old_commands@ == commands@,
        r.new_commands@ == commands@.push(CommandValue { value, comment }),
{
    let old_commands = copy_commands(commands);
    let mut new_commands = copy_commands(commands);
    new_commands.push(CommandValue { value, comment });
    SetCommands { old_commands, new_commands }
}

/// The action of removing server command `i`.
pub fn remove_command_action(commands: &Vec<CommandValue>, i: usize) -> (r: SetCommands)
    requires
        i < commands@.len(),
    ensures
        r.old_commands@ == commands@,
        r.new_commands@ == commands@.remove(i as int),
{
    let old_commands = copy_commands(commands);
    let mut new_commands = copy_commands(commands);
    new_commands.remove(i);
    SetCommands { old_commands, new_commands }
}

} // verus!
