//! The output sink the machine writes to: any collaborator that accepts
//! characters one at a time and may reject a write. `BufferSink` is the
//! in-memory implementation used by callers that want to collect the output.

use vstd::prelude::*;

verus! {

/// A destination for the machine's output instructions. `sunk` is the
/// sequence of characters accepted so far; a rejected write leaves it
/// unchanged.
pub trait Sink {
    /// The characters this sink has accepted so far.
    spec fn sunk(&self) -> Seq<char>;

    /// Offer one character; `true` means the sink accepted it.
    fn write_char(&mut self, c: char) -> (accepted: bool)
        ensures
            accepted ==> final(self).sunk() == old(self).sunk().push(c),
            !accepted ==> final(self).sunk() == old(self).sunk(),
    ;
}

/// A sink that stores every character in memory and never rejects a write.
pub struct BufferSink {
    chars: Vec<char>,
}

impl BufferSink {
    /// An empty buffer.
    pub fn new() -> (r: BufferSink)
        ensures
            r.sunk() == Seq::<char>::empty(),
    {
        BufferSink { chars: Vec::new() }
    }

    /// The characters collected so far.
    pub fn chars(&self) -> (r: &Vec<char>)
        ensures
            r@ == self.sunk(),
    {
        &self.chars
    }
}

impl Sink for BufferSink {
    closed spec fn sunk(&self) -> Seq<char> {
        self.chars@
    }

    fn write_char(&mut self, c: char) -> (accepted: bool) {
        self.chars.push(c);
        true
    }
}

/// A sink with a fixed capacity: it stores characters in memory and rejects
/// every write once it is full.
pub struct BoundedSink {
    chars: Vec<char>,
    cap: usize,
}

impl BoundedSink {
    /// An empty sink that accepts at most `cap` characters.
    pub fn new(cap: usize) -> (r: BoundedSink)
        ensures
            r.sunk() == Seq::<char>::empty(),
    {
        BoundedSink { chars: Vec::new(), cap }
    }

    /// The characters accepted so far.
    pub fn chars(&self) -> (r: &Vec<char>)
        ensures
            r@ == self.sunk(),
    {
        &self.chars
    }
}

impl Sink for BoundedSink {
    closed spec fn sunk(&self) -> Seq<char> {
        self.chars@
    }

    fn write_char(&mut self, c: char) -> (accepted: bool) {
        if self.chars.len() < self.cap {
            self.chars.push(c);
            true
        } else {
            false
        }
    }
}

} // verus!
