//! The runner of shell commands, as far as it decides: it remembers the
//! command that was run last, so that it can be run again.

use vstd::prelude::*;

verus! {

/// What was run last, to be run again.
pub struct Process {
    pub last_cmd: String,
}

impl Process {
    /// Nothing was run yet.
    pub fn new() -> (p: Self)
        ensures
            p.last_cmd@.len() == 0,
    {
        Self { last_cmd: String::new() }
    }

    /// Takes note of the command that is about to run.
    pub fn remember(&mut self, args: &str)
        ensures
            final(self).last_cmd@ == args@,
    {
        self.last_cmd = crate::chars::str_to_string(args);
    }

    /// The command to run again; none where none was run yet.
    pub fn last_command(&self) -> (cmd: Option<String>)
        ensures
            self.last_cmd@.len() == 0 ==> cmd is None,
            self.last_cmd@.len() > 0 ==> cmd is Some && cmd->0@ == self.last_cmd@,
    {
        if self.last_cmd.as_str().is_empty() {
            return None;
        }
        Some(self.last_cmd.clone())
    }
}

} // verus!
