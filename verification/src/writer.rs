use vstd::prelude::*;

verus! {

/// An abstract, sequential, append-only destination for one resource's
/// serialized output. `written` is the text appended so far; every `write`
/// extends it and changes nothing else.
pub trait Writer {
    spec fn written(&self) -> Seq<char>;

    fn write(&mut self, chunk: &str)
        ensures
            final(self).written() == old(self).written() + chunk@,
    ;
}

/// An in-memory sink: the whole output is kept in one `String`.
pub struct BufferWriter {
    pub out: String,
}

impl BufferWriter {
    pub fn new() -> (w: BufferWriter)
        ensures
            w.written() == Seq::<char>::empty(),
    {
        BufferWriter { out: String::new() }
    }
}

impl Writer for BufferWriter {
    open spec fn written(&self) -> Seq<char> {
        self.out@
    }

    fn write(&mut self, chunk: &str) {
        self.out.append(chunk);
    }
}

} // verus!
