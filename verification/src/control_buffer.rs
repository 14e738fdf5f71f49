//! Accumulates serial bytes into one command line.
//!
//! Bytes arrive one at a time from the UART; a line is complete when the
//! `;` terminator (0x3B) arrives.  Once complete, the buffer refuses
//! further bytes until it is replaced by a fresh one.  Overlong lines do
//! not overrun: every byte past the capacity overwrites the last cell.

use vstd::prelude::*;

verus! {

/// Capacity of one command line, in bytes.
pub const LINE_CAPACITY: usize = 256;

/// Byte that terminates a command line: `;`.
pub const EOL_BYTE: u8 = 59;

/// Appending to a buffer whose line is already complete.
#[derive(Clone, Copy, PartialEq, Eq, Structural, Debug)]
pub struct EOLReachedError {}

/// A fixed-capacity accumulator for one serial command line.
pub struct ControlBuffer {
    pub buf: Vec<u8>,
    pub current_buf_idx: usize,
    pub is_eol: bool,
}

impl ControlBuffer {
    /// The buffer's invariant: full backing capacity, cursor inside it.
    pub open spec fn wf(self) -> bool {
        &&& self.buf@.len() == LINE_CAPACITY
        &&& self.current_buf_idx < LINE_CAPACITY
    }

    /// An empty, zeroed line buffer.
    pub fn new() -> (r: ControlBuffer)
        ensures
            r.wf(),
            r.buf@ == Seq::new(LINE_CAPACITY as nat, |i: int| 0u8),
            r.current_buf_idx == 0,
            !r.is_eol,
    {
        let mut buf: Vec<u8> = Vec::new();
        while buf.len() < LINE_CAPACITY
            invariant
                buf@.len() <= LINE_CAPACITY,
                forall|i: int| 0 <= i < buf@.len() ==> #[trigger] buf@[i] == 0u8,
            decreases LINE_CAPACITY - buf@.len(),
        {
            buf.push(0u8);
        }
        proof {
            assert(buf@ =~= Seq::new(LINE_CAPACITY as nat, |i: int| 0u8));
        }
        ControlBuffer { buf, current_buf_idx: 0, is_eol: false }
    }

    /// Append one received byte.
    ///
    /// Refused once the line is complete.  The terminator byte completes
    /// the line without being stored and yields the line's length; any
    /// other byte is stored at the cursor, which advances until it rests
    /// on the last cell, and yields the index it was stored at.
    pub fn add_char_buf(&mut self, char_buf: &[u8; 1]) -> (r: Result<usize, EOLReachedError>)
        requires
            old(self).wf(),
        ensures
            final(self).wf(),
            old(self).is_eol ==> r is Err && *final(self) == *old(self),
            (!old(self).is_eol && char_buf@[0] == EOL_BYTE) ==> (final(self).is_eol
                && final(self).buf == old(self).buf
                && final(self).current_buf_idx == old(self).current_buf_idx
                && r == Ok::<usize, EOLReachedError>(old(self).current_buf_idx)),
            (!old(self).is_eol && char_buf@[0] != EOL_BYTE) ==> (!final(self).is_eol
                && final(self).buf@ == old(self).buf@.update(
                old(self).current_buf_idx as int,
                char_buf@[0],
            ) && final(self).current_buf_idx == (
            if old(self).current_buf_idx + 1 < LINE_CAPACITY {
                old(self).current_buf_idx + 1
            } else {
                (LINE_CAPACITY - 1) as int
            }) && r == Ok::<usize, EOLReachedError>(old(self).current_buf_idx)),
    {
        if self.is_eol {
            return Err(EOLReachedError {  });
        }
        let current_byte: u8 = char_buf[0];
        if current_byte == EOL_BYTE {
            self.is_eol = true;
            return Ok(self.current_buf_idx);
        }
        let last_buf_idx: usize = self.current_buf_idx;
        self.buf.set(last_buf_idx, current_byte);
        if self.current_buf_idx + 1 < LINE_CAPACITY {
            self.current_buf_idx = self.current_buf_idx + 1;
        }
        Ok(last_buf_idx)
    }

    /// Whether the line terminator has arrived.
    pub fn is_complete(&self) -> (r: bool)
        ensures
            r == self.is_eol,
    {
        self.is_eol
    }

    /// The bytes of the accumulated line, up to the cursor.
    pub fn line(&self) -> (r: &[u8])
        requires
            self.wf(),
        ensures
            r@ == self.buf@.subrange(0, self.current_buf_idx as int),
    {
        vstd::slice::slice_subrange(self.buf.as_slice(), 0, self.current_buf_idx)
    }

    /// The whole backing buffer as text.  An all-ASCII buffer — the only
    /// kind the wire protocol produces — always decodes.
    pub fn to_str(&self) -> (r: Result<&str, core::str::Utf8Error>)
        requires
            self.wf(),
        ensures
            crate::text::ascii_only(self.buf@) ==> r is Ok && r->Ok_0@ == self.buf@.map_values(
                |b: u8| b as char,
            ),
    {
        crate::text::bytes_to_str(self.buf.as_slice())
    }
}

} // verus!
