//! The position of the next instruction within the code of a method.
use vstd::prelude::*;

verus! {

/// Why the program counter could not move.
#[derive(Debug, Clone, Copy, PartialEq, Eq, Structural)]
pub enum ProgramCounterError {
    /// The requested position lies at or after the end of the code.
    OutOfBoundsError { actual_len: usize, requested_pos: usize },
    /// A backward move would go before the first instruction.
    BeforeStartError { position: usize, offset: usize },
}

/// The index of the current instruction in code of a fixed, nonzero length.
pub struct ProgramCounter {
    current_op_code: usize,
    op_code_count: usize,
}

impl ProgramCounter {
    /// The index of the current instruction.
    pub closed spec fn position(&self) -> nat {
        self.current_op_code as nat
    }

    /// The number of instructions of the code.
    pub closed spec fn length(&self) -> nat {
        self.op_code_count as nat
    }

    /// The current instruction always exists.
    pub closed spec fn wf(&self) -> bool {
        self.current_op_code < self.op_code_count
    }

    /// A counter at the first of `op_code_count` instructions.
    pub fn new(op_code_count: usize) -> (r: ProgramCounter)
        requires
            op_code_count > 0,
        ensures
            r.wf(),
            r.position() == 0,
            r.length() == op_code_count,
    {
        ProgramCounter { current_op_code: 0, op_code_count }
    }

    /// Moves `offset` instructions forward; fails, without moving, past the last one.
    pub fn next(&mut self, offset: usize) -> (r: Result<(), ProgramCounterError>)
        requires
            old(self).wf(),
        ensures
            final(self).wf(),
            final(self).length() == old(self).length(),
            r is Ok <==> old(self).position() + offset < old(self).length(),
            r is Ok ==> final(self).position() == old(self).position() + offset,
            r is Err ==> final(self).position() == old(self).position(),
            r is Err ==> r == Err::<(), ProgramCounterError>(
                ProgramCounterError::OutOfBoundsError {
                    actual_len: old(self).length() as usize,
                    requested_pos: if old(self).position() + offset <= usize::MAX {
                        (old(self).position() + offset) as usize
                    } else {
                        usize::MAX
                    },
                },
            ),
    {
        if offset >= self.op_code_count - self.current_op_code {
            let requested_pos = if offset <= usize::MAX - self.current_op_code {
                self.current_op_code + offset
            } else {
                usize::MAX
            };
            return Err(
                ProgramCounterError::OutOfBoundsError {
                    actual_len: self.op_code_count,
                    requested_pos,
                },
            );
        }
        self.current_op_code = self.current_op_code + offset;
        Ok(())
    }

    /// Moves `offset` instructions backward; fails, without moving, before the first one.
    pub fn previous(&mut self, offset: usize) -> (r: Result<(), ProgramCounterError>)
        requires
            old(self).wf(),
        ensures
            final(self).wf(),
            final(self).length() == old(self).length(),
            r is Ok <==> offset <= old(self).position(),
            r is Ok ==> final(self).position() == old(self).position() - offset,
            r is Err ==> final(self).position() == old(self).position(),
            r is Err ==> r == Err::<(), ProgramCounterError>(
                ProgramCounterError::BeforeStartError {
                    position: old(self).position() as usize,
                    offset,
                },
            ),
    {
        if offset > self.current_op_code {
            return Err(
                ProgramCounterError::BeforeStartError {
                    position: self.current_op_code,
                    offset,
                },
            );
        }
        self.current_op_code = self.current_op_code - offset;
        Ok(())
    }

    /// Moves to the absolute `position`; fails, without moving, past the last instruction.
    pub fn set(&mut self, position: usize) -> (r: Result<(), ProgramCounterError>)
        requires
            old(self).wf(),
        ensures
            final(self).wf(),
            final(self).length() == old(self).length(),
            r is Ok <==> position < old(self).length(),
            r is Ok ==> final(self).position() == position,
            r is Err ==> final(self).position() == old(self).position(),
            r is Err ==> r == Err::<(), ProgramCounterError>(
                ProgramCounterError::OutOfBoundsError {
                    actual_len: old(self).length() as usize,
                    requested_pos: position,
                },
            ),
    {
        if self.op_code_count <= position {
            return Err(
                ProgramCounterError::OutOfBoundsError {
                    actual_len: self.op_code_count,
                    requested_pos: position,
                },
            );
        }
        self.current_op_code = position;
        Ok(())
    }

    /// Whether the current instruction exists.
    pub fn is_within_code(&self) -> (r: bool)
        ensures
            r == self.wf(),
    {
        self.current_op_code < self.op_code_count
    }

    /// The number of instructions of the code.
    pub fn code_length(&self) -> (r: usize)
        ensures
            r == self.length(),
    {
        self.op_code_count
    }

    /// The index of the current instruction.
    pub fn current(&self) -> (r: usize)
        ensures
            r == self.position(),
    {
        self.current_op_code
    }
}

} // verus!
