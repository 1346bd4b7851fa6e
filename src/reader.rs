use vstd::prelude::*;

use crate::scan::{scan_frame, scan_spec, FrameScan};

verus! {

/// The text read from the scale so far in one session: every line, each followed by `\n`.
pub struct LineReader {
    buffer: String,
}

/// What the session does after a line has been taken in.
#[derive(PartialEq, Eq, Structural, Clone, Copy, Debug)]
pub enum ReadStep {
    /// No complete frame yet: read another line.
    More,
    /// A frame is complete: the session ends with this weight.
    Done(u32),
    /// The first frame states a weight that does not fit: the session fails.
    Fail,
}

/// The step that follows from scanning the buffer.
pub open spec fn step_for(scan: FrameScan) -> ReadStep {
    match scan {
        FrameScan::NotFound => ReadStep::More,
        FrameScan::Weight(w) => ReadStep::Done(w),
        FrameScan::Overflow => ReadStep::Fail,
    }
}

impl View for LineReader {
    type V = Seq<char>;

    closed spec fn view(&self) -> Seq<char> {
        self.buffer@
    }
}

impl LineReader {
    /// A session that has read nothing yet.
    pub fn new() -> (r: LineReader)
        ensures
            r@ == Seq::<char>::empty(),
    {
        LineReader { buffer: String::new() }
    }

    /// The text taken in so far.
    pub fn buffer(&self) -> (r: &str)
        ensures
            r@ == self@,
    {
        self.buffer.as_str()
    }

    /// Appends `line` and a line break to the buffer, then scans the whole buffer for a frame.
    pub fn push_line(&mut self, line: &str) -> (r: ReadStep)
        ensures
            final(self)@ == old(self)@ + line@ + seq!['\n'],
            r == step_for(scan_spec(final(self)@)),
    {
        self.buffer.append(line);
        self.buffer.append("\n");
        proof {
            reveal_strlit("\n");
        }
        match scan_frame(self.buffer.as_str()) {
            FrameScan::NotFound => ReadStep::More,
            FrameScan::Weight(w) => ReadStep::Done(w),
            FrameScan::Overflow => ReadStep::Fail,
        }
    }
}

/// The message of the error that ends a session on `device` without a weight.
pub fn read_failure_message(device: &str) -> (r: String)
    ensures
        r@ == "Unable to read from device "@ + device@,
{
    let mut msg = String::from_str("Unable to read from device ");
    msg.append(device);
    msg
}

} // verus!
