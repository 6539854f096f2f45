//! Where a statement is sent.

use vstd::prelude::*;
use vstd::string::*;

verus! {

/// A destination for text: a console, a file, a buffer in memory.
pub trait OutputSink {
    /// Appends `text` to the destination. Returns `false` when the
    /// destination rejects the write; what it took before stays written.
    fn write_text(&mut self, text: &str) -> bool;
}

/// One write that went to a sink: the text, and the answer of the sink.
pub struct Sent {
    pub text: Seq<char>,
    pub accepted: bool,
}

/// A sink together with the record of the writes that went to it through
/// this handle, the oldest first. The record exists in proofs only; a
/// running program holds the sink and nothing else.
pub struct Recorded<S: OutputSink> {
    sink: S,
    log: Ghost<Seq<Sent>>,
}

impl<S: OutputSink> Recorded<S> {
    /// The writes that went to the sink, the oldest first.
    pub closed spec fn log(&self) -> Seq<Sent> {
        self.log@
    }

    /// The sink itself.
    pub closed spec fn inner(&self) -> S {
        self.sink
    }

    /// Takes `sink` with an empty record.
    pub fn new(sink: S) -> (recorded: Self)
        ensures
            recorded.inner() == sink,
            recorded.log() == Seq::<Sent>::empty(),
    {
        Recorded { sink, log: Ghost(Seq::empty()) }
    }

    /// Hands `text` to the sink in one write and returns the answer of the
    /// sink: `false` when it rejects the write. The write joins the record
    /// with that answer.
    pub fn write_text(&mut self, text: &str) -> (accepted: bool)
        ensures
            final(self).log() == old(self).log().push(Sent { text: text@, accepted }),
    {
        let accepted = self.sink.write_text(text);
        proof {
            self.log@ = self.log@.push(Sent { text: text@, accepted });
        }
        accepted
    }

    /// The sink, to look at what it holds.
    pub fn sink(&self) -> (sink: &S)
        ensures
            *sink == self.inner(),
    {
        &self.sink
    }

    /// Gives the sink back and drops the record.
    pub fn into_sink(self) -> (sink: S)
        ensures
            sink == self.inner(),
    {
        self.sink
    }
}

/// A string captures everything that is written to it, and rejects nothing.
impl OutputSink for String {
    fn write_text(&mut self, text: &str) -> (accepted: bool)
        ensures
            accepted,
            final(self)@ == old(self)@ + text@,
    {
        self.append(text);
        true
    }
}

} // verus!
