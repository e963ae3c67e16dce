//! Telling the border process which window to follow.
//!
//! The target is written to a file as one line, and the process, whose id
//! another file holds, is signalled.

use vstd::prelude::*;
use vstd::string::StringExecFns;

use crate::common::text::{append_decimal, decimal, i32_value, parse_trimmed_i32, trimmed};
use crate::ids::{pid_t, WindowServerId};

verus! {

/// The line that names a window: its number and a line end.
pub fn border_target_line(window: WindowServerId) -> (line: String)
    ensures
        line@ == decimal(window.raw as nat).push('\n'),
{
    proof {
        reveal_strlit("\n");
    }
    let mut line = String::new();
    append_decimal(&mut line, window.as_u32());
    line.append("\n");
    assert(line@ =~= decimal(window.raw as nat).push('\n'));
    line
}

/// The process to signal, from the contents of its file. `None` where they are
/// no process id.
pub fn border_process(contents: &str) -> (pid: Option<pid_t>)
    ensures
        pid == i32_value(trimmed(contents@)),
{
    parse_trimmed_i32(contents)
}

} // verus!
