//! The shell's output buffer: the lines the shell will draw, collected by
//! the commands as they run.

use vstd::prelude::*;

verus! {

/// The lines the shell shows, oldest first.
pub struct OutputLines {
    /// The collected lines.
    pub lines: Vec<String>,
}

/// Start an output buffer from an initial set of lines.
pub fn init_output_lines(buffer: Vec<String>) -> (r: OutputLines)
    ensures
        r.lines@ == buffer@,
{
    OutputLines { lines: buffer }
}

/// Append one line to the output.
pub fn print_deemak(out: &mut OutputLines, line: String)
    ensures
        final(out).lines@ == old(out).lines@.push(line),
{
    out.lines.push(line);
}

/// Append a batch of lines to the output, in order.
pub fn print_deemak_extend(out: &mut OutputLines, batch: Vec<String>)
    ensures
        final(out).lines@ == old(out).lines@ + batch@,
{
    let mut batch = batch;
    out.lines.append(&mut batch);
}

/// Drop every collected line.
pub fn deemak_clear(out: &mut OutputLines)
    ensures
        final(out).lines@.len() == 0,
{
    out.lines.clear();
}

} // verus!
