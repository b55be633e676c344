//! The line-accumulating buffer behind the built-in text editor.
//!
//! The editor itself is input/output: it reads lines until end-of-input and
//! then writes the buffer to a file the user names. What the library owns is
//! the buffer discipline: every accepted line is appended verbatim, followed
//! by exactly one newline.

use vstd::prelude::*;

verus! {

/// Append one accepted line to the editor buffer, newline-terminated.
pub fn append_line(buffer: &mut String, line: &str)
    ensures
        final(buffer)@ == old(buffer)@ + line@ + "\n"@,
{
    buffer.append(line);
    buffer.append("\n");
}

} // verus!
