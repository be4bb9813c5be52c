//! Per-repo output buffers.

use vstd::prelude::*;
use crate::runner::Stream;
use crate::text::push_char;

verus! {

#[derive(Debug, Clone, Copy, PartialEq, Eq, Structural)]
pub enum LineKind {
    /// Echo of the executed command (`$ <command>`).
    Command,
    Stdout,
    Stderr,
}

#[derive(Debug, Clone)]
pub struct OutputLine {
    pub kind: LineKind,
    pub text: String,
}

/// Output for a single repo. Rebuilt on every run (previous output is discarded).
#[derive(Debug, Clone)]
pub struct RepoOutput {
    pub lines: Vec<OutputLine>,
    pub code: Option<i32>,
    pub finished: bool,
}

impl Default for RepoOutput {
    fn default() -> (o: RepoOutput)
        ensures
            o.lines@ == Seq::<OutputLine>::empty(),
            o.code == None::<i32>,
            !o.finished,
    {
        RepoOutput { lines: Vec::new(), code: None, finished: false }
    }
}

/// The line kind that a stream's lines are shown with.
pub open spec fn stream_kind(stream: Stream) -> LineKind {
    match stream {
        Stream::Stdout => LineKind::Stdout,
        Stream::Stderr => LineKind::Stderr,
    }
}

impl RepoOutput {
    /// Appends the echo of an executed command: `$ <command>`.
    pub fn push_command(&mut self, command: &str)
        ensures
            final(self).code == old(self).code,
            final(self).finished == old(self).finished,
            final(self).lines@.len() == old(self).lines@.len() + 1,
            final(self).lines@.take(old(self).lines@.len() as int) == old(self).lines@,
            final(self).lines@.last().kind == LineKind::Command,
            final(self).lines@.last().text@ == seq!['$', ' '] + command@,
    {
        let mut text = String::new();
        push_char(&mut text, '$');
        push_char(&mut text, ' ');
        text.append(command);
        self.lines.push(OutputLine { kind: LineKind::Command, text });
        assert(final(self).lines@.take(old(self).lines@.len() as int) == old(self).lines@);
    }

    /// Appends one line of a command's output, kept with the stream it came from.
    pub fn push_stream(&mut self, stream: Stream, text: String)
        ensures
            final(self).code == old(self).code,
            final(self).finished == old(self).finished,
            final(self).lines@ == old(self).lines@.push(OutputLine { kind: stream_kind(stream), text }),
    {
        let kind = match stream {
            Stream::Stdout => LineKind::Stdout,
            Stream::Stderr => LineKind::Stderr,
        };
        self.lines.push(OutputLine { kind, text });
    }
}

} // verus!
