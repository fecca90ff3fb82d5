//! Constant task: a node that outputs one fixed value every tick.

use crate::ptp::{be_byte0, be_byte1, be_byte2, be_byte3, be_u32, lemma_be_bytes_of_u32,
    lemma_be_u32_of_bytes};
use crate::rtnt::{TaskBuffer, TaskData, MAX_TASK_CONFIG_CHUNKS, MAX_TASK_DATA_BYTES,
    MAX_TASK_DATA_FLOATS};
use vstd::prelude::*;

verus! {

/// A constant source. The value is kept as the bit pattern of an IEEE-754
/// single-precision number, exactly the four payload bytes it is configured
/// from.
#[derive(Clone, Copy, PartialEq, Eq, Debug)]
pub struct RTConstant {
    /// Bit pattern of the constant output value.
    pub value: u32,
}

/// The output vector of a constant task: its value first, zeros after.
pub open spec fn const_run_spec(c: RTConstant) -> Seq<u32> {
    Seq::new(
        MAX_TASK_DATA_FLOATS as nat,
        |i: int|
            if i == 0 {
                c.value
            } else {
                0u32
            },
    )
}

/// The value a constant task reads from its configuration chunks: the first
/// four bytes of chunk zero, big-endian.
pub open spec fn const_configured_value(buf: Seq<Seq<u8>>) -> u32 {
    be_u32(buf[0][0], buf[0][1], buf[0][2], buf[0][3])
}

impl RTConstant {
    /// A constant task with the given value bits.
    pub fn new(value: u32) -> (r: RTConstant)
        ensures
            r.value == value,
    {
        RTConstant { value }
    }

    /// A constant task with value zero.
    pub fn default() -> (r: RTConstant)
        ensures
            r.value == 0,
    {
        RTConstant { value: 0 }
    }

    /// Declared output count: one.
    pub fn size(&self) -> (r: usize)
        ensures
            r == 1,
    {
        1
    }

    /// Produce the output vector: the constant value, then zeros.
    pub fn run(&self, _input: &TaskData) -> (r: TaskData)
        ensures
            r@ == const_run_spec(*self),
    {
        let mut output = [0u32; MAX_TASK_DATA_FLOATS];
        output[0] = self.value;
        proof {
            assert(output@ =~= const_run_spec(*self));
        }
        output
    }

    /// Read the value from the first four bytes of chunk zero. Always
    /// succeeds.
    pub fn configure(&mut self, data: &[TaskBuffer]) -> (r: bool)
        requires
            data@.len() >= 1,
        ensures
            final(self).value == be_u32(data@[0]@[0], data@[0]@[1], data@[0]@[2], data@[0]@[3]),
            r == true,
    {
        self.value = ((data[0][0] as u32) << 24) | ((data[0][1] as u32) << 16) | ((data[0][2]
            as u32) << 8) | (data[0][3] as u32);
        true
    }

    /// Write the value big-endian into the first four bytes of chunk zero;
    /// one chunk is used. Every other byte is kept.
    pub fn deconfigure(&self, data: &mut [TaskBuffer; MAX_TASK_CONFIG_CHUNKS]) -> (r: usize)
        ensures
            r == 1,
            final(data)@[0]@[0] == be_byte0(self.value),
            final(data)@[0]@[1] == be_byte1(self.value),
            final(data)@[0]@[2] == be_byte2(self.value),
            final(data)@[0]@[3] == be_byte3(self.value),
            forall|j: int| 4 <= j < MAX_TASK_DATA_BYTES ==> final(data)@[0]@[j] == old(data)@[0]@[j],
            forall|i: int| 1 <= i < MAX_TASK_CONFIG_CHUNKS ==> final(data)@[i] == old(data)@[i],
    {
        let mut chunk = data[0];
        chunk[0] = ((self.value >> 24) & 0xff) as u8;
        chunk[1] = ((self.value >> 16) & 0xff) as u8;
        chunk[2] = ((self.value >> 8) & 0xff) as u8;
        chunk[3] = (self.value & 0xff) as u8;
        data[0] = chunk;
        1
    }
}

/// Configuring a constant task from the chunks another constant task wrote
/// gives back the same value, and writing that value out again restores the
/// first four chunk bytes: serialization and deserialization invert each
/// other.
pub proof fn lemma_const_config_round_trip(c: RTConstant, buf: Seq<Seq<u8>>)
    requires
        buf.len() >= 1,
        buf[0].len() >= 4,
    ensures
        const_configured_value(
            buf.update(
                0,
                buf[0].update(0, be_byte0(c.value)).update(1, be_byte1(c.value)).update(
                    2,
                    be_byte2(c.value),
                ).update(3, be_byte3(c.value)),
            ),
        ) == c.value,
        be_byte0(const_configured_value(buf)) == buf[0][0],
        be_byte1(const_configured_value(buf)) == buf[0][1],
        be_byte2(const_configured_value(buf)) == buf[0][2],
        be_byte3(const_configured_value(buf)) == buf[0][3],
{
    lemma_be_u32_of_bytes(c.value);
    lemma_be_bytes_of_u32(buf[0][0], buf[0][1], buf[0][2], buf[0][3]);
}

} // verus!
