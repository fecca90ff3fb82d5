//! Switch task: a node that copies a bundle of inputs while a control signal is positive.

use crate::rtnt::{TaskBuffer, TaskData, MAX_TASK_CONFIG_CHUNKS, MAX_TASK_DATA_BYTES,
    MAX_TASK_DATA_FLOATS};
use vstd::prelude::*;

verus! {

/// A guarded copy block: while the first input is positive, the next
/// `n_outputs` inputs are copied to the outputs; otherwise the outputs are
/// zero.
#[derive(Clone, Copy, PartialEq, Eq, Debug)]
pub struct RTSwitch {
    /// How many inputs are copied to the outputs.
    pub n_outputs: u8,
}

/// Whether a bit pattern spells a positive IEEE-754 single-precision value:
/// the sign bit is clear, the value is not a zero and not a NaN. Positive
/// infinity counts as positive.
pub open spec fn f32_bits_positive(b: u32) -> bool {
    1 <= b <= 0x7F80_0000
}

/// How many values a switch forwards: its declared output count, capped by
/// the inputs that remain after the control signal.
pub open spec fn switch_width(s: RTSwitch) -> int {
    if s.n_outputs as int <= MAX_TASK_DATA_FLOATS - 1 {
        s.n_outputs as int
    } else {
        MAX_TASK_DATA_FLOATS - 1
    }
}

/// The output vector of a switch: the inputs after the control signal while
/// that signal is positive, zeros otherwise.
pub open spec fn switch_run_spec(s: RTSwitch, input: Seq<u32>) -> Seq<u32> {
    Seq::new(
        MAX_TASK_DATA_FLOATS as nat,
        |i: int|
            if f32_bits_positive(input[0]) && i < switch_width(s) {
                input[i + 1]
            } else {
                0u32
            },
    )
}

impl RTSwitch {
    /// A switch that forwards one input.
    pub fn default() -> (r: RTSwitch)
        ensures
            r.n_outputs == 1,
    {
        RTSwitch { n_outputs: 1 }
    }

    /// Declared output count.
    pub fn size(&self) -> (r: usize)
        ensures
            r == self.n_outputs as int,
    {
        self.n_outputs as usize
    }

    /// Produce the output vector: copy the inputs after the control signal
    /// while that signal is positive, zeros otherwise.
    pub fn run(&self, input: &TaskData) -> (r: TaskData)
        ensures
            r@ == switch_run_spec(*self, input@),
    {
        let mut output = [0u32; MAX_TASK_DATA_FLOATS];
        if input[0] >= 1 && input[0] <= 0x7F80_0000 {
            let width: usize = if (self.n_outputs as usize) <= MAX_TASK_DATA_FLOATS - 1 {
                self.n_outputs as usize
            } else {
                MAX_TASK_DATA_FLOATS - 1
            };
            let mut i: usize = 0;
            while i < width
                invariant
                    width == switch_width(*self),
                    i <= width,
                    width <= MAX_TASK_DATA_FLOATS - 1,
                    forall|t: int| 0 <= t < i ==> output@[t] == input@[t + 1],
                    forall|t: int| i <= t < MAX_TASK_DATA_FLOATS ==> output@[t] == 0u32,
                decreases width - i,
            {
                output[i] = input[i + 1];
                i = i + 1;
            }
        }
        proof {
            assert(output@ =~= switch_run_spec(*self, input@));
        }
        output
    }

    /// Read the output count from the first byte of chunk zero; succeeds
    /// when the count leaves room for the control signal.
    pub fn configure(&mut self, data: &[TaskBuffer]) -> (r: bool)
        requires
            data@.len() >= 1,
        ensures
            final(self).n_outputs == data@[0]@[0],
            r == ((data@[0]@[0] as int) < MAX_TASK_DATA_FLOATS - 1),
    {
        self.n_outputs = data[0][0];
        (self.n_outputs as usize) < MAX_TASK_DATA_FLOATS - 1
    }

    /// Write the output count into the first byte of chunk zero; one chunk
    /// is used. Every other byte is kept.
    pub fn deconfigure(&self, data: &mut [TaskBuffer; MAX_TASK_CONFIG_CHUNKS]) -> (r: usize)
        ensures
            r == 1,
            final(data)@[0]@[0] == self.n_outputs,
            forall|j: int| 1 <= j < MAX_TASK_DATA_BYTES ==> final(data)@[0]@[j] == old(data)@[0]@[j],
            forall|i: int| 1 <= i < MAX_TASK_CONFIG_CHUNKS ==> final(data)@[i] == old(data)@[i],
    {
        let mut chunk = data[0];
        chunk[0] = self.n_outputs;
        data[0] = chunk;
        1
    }
}

/// Configuring a switch from the chunks another switch wrote gives back the
/// same output count, and writing that count out again restores the first
/// chunk byte: serialization and deserialization invert each other.
pub proof fn lemma_switch_config_round_trip(s: RTSwitch, buf: Seq<Seq<u8>>)
    requires
        buf.len() >= 1,
        buf[0].len() >= 1,
    ensures
        buf.update(0, buf[0].update(0, s.n_outputs))[0][0] == s.n_outputs,
{
}

} // verus!
