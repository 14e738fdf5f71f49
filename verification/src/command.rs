//! A compact command accumulator.
//!
//! Works like [`crate::control_buffer::ControlBuffer`] but with a small
//! 32-byte line, terminated by a newline.  On completion a space is
//! stored at the cursor so that splitting the buffer on spaces yields
//! the final token cleanly, separated from the trailing zero padding.

use vstd::prelude::*;

verus! {

/// Capacity of one command, in bytes.
pub const COMMAND_CAPACITY: usize = 32;

/// Byte that terminates a command: newline.
pub const COMMAND_EOL_BYTE: u8 = 10;

/// Byte stored at the cursor when the command completes: a space.
pub const COMMAND_PAD_BYTE: u8 = 32;

/// Appending to a command that is already complete.
#[derive(Clone, Copy, PartialEq, Eq, Structural, Debug)]
pub struct EOLReachedError {}

/// A fixed-capacity accumulator for one short command.
pub struct Command {
    pub buf: Vec<u8>,
    pub current_buf_idx: usize,
    pub is_eol: bool,
}

impl Command {
    /// The accumulator's invariant: full backing capacity, cursor inside
    /// it.
    pub open spec fn wf(self) -> bool {
        &&& self.buf@.len() == COMMAND_CAPACITY
        &&& self.current_buf_idx < COMMAND_CAPACITY
    }

    /// An empty, zeroed command.
    pub fn new() -> (r: Command)
        ensures
            r.wf(),
            r.buf@ == Seq::new(COMMAND_CAPACITY as nat, |i: int| 0u8),
            r.current_buf_idx == 0,
            !r.is_eol,
    {
        let mut buf: Vec<u8> = Vec::new();
        while buf.len() < COMMAND_CAPACITY
            invariant
                buf@.len() <= COMMAND_CAPACITY,
                forall|i: int| 0 <= i < buf@.len() ==> #[trigger] buf@[i] == 0u8,
            decreases COMMAND_CAPACITY - buf@.len(),
        {
            buf.push(0u8);
        }
        proof {
            assert(buf@ =~= Seq::new(COMMAND_CAPACITY as nat, |i: int| 0u8));
        }
        Command { buf, current_buf_idx: 0, is_eol: false }
    }

    /// Append one received byte.
    ///
    /// Refused once the command is complete.  A newline completes the
    /// command, storing a trailing space at the cursor; any other byte
    /// is stored at the cursor, which advances until it rests on the
    /// last cell.
    pub fn add_char_buf(&mut self, char_buf: &[u8; 1]) -> (r: Result<(), EOLReachedError>)
        requires
            old(self).wf(),
        ensures
            final(self).wf(),
            old(self).is_eol ==> r is Err && *final(self) == *old(self),
            (!old(self).is_eol && char_buf@[0] == COMMAND_EOL_BYTE) ==> (final(self).is_eol
                && final(self).buf@ == old(self).buf@.update(
                old(self).current_buf_idx as int,
                COMMAND_PAD_BYTE,
            ) && final(self).current_buf_idx == old(self).current_buf_idx && r is Ok),
            (!old(self).is_eol && char_buf@[0] != COMMAND_EOL_BYTE) ==> (!final(self).is_eol
                && final(self).buf@ == old(self).buf@.update(
                old(self).current_buf_idx as int,
                char_buf@[0],
            ) && final(self).current_buf_idx == (
            if old(self).current_buf_idx + 1 < COMMAND_CAPACITY {
                old(self).current_buf_idx + 1
            } else {
                (COMMAND_CAPACITY - 1) as int
            }) && r is Ok),
    {
        if self.is_eol {
            return Err(EOLReachedError {  });
        }
        let current_byte: u8 = char_buf[0];
        if current_byte == COMMAND_EOL_BYTE {
            // splitting on spaces treats the last token specially; the
            // extra space keeps it separated from the zero padding
            self.buf.set(self.current_buf_idx, COMMAND_PAD_BYTE);
            self.is_eol = true;
            return Ok(());
        }
        self.buf.set(self.current_buf_idx, current_byte);
        if self.current_buf_idx + 1 < COMMAND_CAPACITY {
            self.current_buf_idx = self.current_buf_idx + 1;
        }
        Ok(())
    }

    /// Whether the terminator has arrived.
    pub fn is_complete(&self) -> (r: bool)
        ensures
            r == self.is_eol,
    {
        self.is_eol
    }

    /// The whole backing buffer as text.  An all-ASCII buffer — the only
    /// kind the wire protocol produces — always decodes.
    pub fn to_str(&self) -> (r: Result<&str, core::str::Utf8Error>)
        requires
            self.wf(),
        ensures
            crate::text::ascii_only(self.buf@) ==> r is Ok && r->Ok_0@ == self.buf@.map_values(
                |b: u8| b as char,
            ),
    {
        crate::text::bytes_to_str(self.buf.as_slice())
    }
}

} // verus!
