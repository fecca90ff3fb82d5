//! Task drivers and the executable dispatch: the closed set of task kinds a
//! node can run, and the sum type that holds one of them.

use crate::rtnt::constant::{const_run_spec, RTConstant};
use crate::rtnt::switch::{switch_run_spec, RTSwitch};
use crate::rtnt::{fresh_missing, TaskBuffer, TaskConfig, TaskData, MAX_TASK_CONFIG_CHUNKS,
    MAX_TASK_DATA_BYTES, MAX_TASK_DATA_FLOATS};
use crate::ptp::be_u32;
use vstd::prelude::*;

verus! {

/// The kind of executable a node runs.
#[derive(Clone, Copy, PartialEq, Eq, Structural, Debug)]
pub enum TaskDriver {
    /// A guarded copy block with up to eight outputs.
    Switch,
    /// A constant value with one output.
    Constant,
}

/// The driver a wire byte decodes to; an unknown byte falls back to the safe
/// constant driver rather than being refused, so the two endpoints cannot
/// drift apart on an unknown id.
pub open spec fn driver_of(id: u8) -> TaskDriver {
    if id == 1 {
        TaskDriver::Switch
    } else {
        TaskDriver::Constant
    }
}

/// The wire byte of a driver.
pub open spec fn driver_u8(d: TaskDriver) -> u8 {
    match d {
        TaskDriver::Switch => 1u8,
        TaskDriver::Constant => 2u8,
    }
}

impl TaskDriver {
    /// Decode a driver from its wire byte.
    pub fn new(id: u8) -> (r: TaskDriver)
        ensures
            r == driver_of(id),
    {
        match id {
            1 => TaskDriver::Switch,
            _ => TaskDriver::Constant,
        }
    }

    /// Encode a driver as its wire byte.
    pub fn as_u8(&self) -> (r: u8)
        ensures
            r == driver_u8(*self),
    {
        match self {
            TaskDriver::Switch => 1,
            TaskDriver::Constant => 2,
        }
    }

    /// Decode a driver from a configuration name; any unknown name falls
    /// back to the constant driver.
    pub fn from_string(s: &str) -> (r: TaskDriver)
        ensures
            r == (if s@ == "switch"@ || s@ == "Switch"@ {
                TaskDriver::Switch
            } else {
                TaskDriver::Constant
            }),
    {
        proof {
            reveal_strlit("switch");
            reveal_strlit("Switch");
        }
        if s.unicode_len() != 6 {
            return TaskDriver::Constant;
        }
        let c0 = s.get_char(0);
        let c1 = s.get_char(1);
        let c2 = s.get_char(2);
        let c3 = s.get_char(3);
        let c4 = s.get_char(4);
        let c5 = s.get_char(5);
        if (c0 == 's' || c0 == 'S') && c1 == 'w' && c2 == 'i' && c3 == 't' && c4 == 'c' && c5
            == 'h' {
            proof {
                if c0 == 's' {
                    assert(s@ =~= "switch"@);
                } else {
                    assert(s@ =~= "Switch"@);
                }
            }
            TaskDriver::Switch
        } else {
            TaskDriver::Constant
        }
    }

    /// The configuration name of a driver.
    pub fn to_string(&self) -> (r: String)
        ensures
            r@ == (match self {
                TaskDriver::Switch => "Switch"@,
                TaskDriver::Constant => "Constant"@,
            }),
    {
        match self {
            TaskDriver::Switch => String::from_str("Switch"),
            TaskDriver::Constant => String::from_str("Constant"),
        }
    }
}

/// One concrete executable, dispatched by driver kind.
#[derive(Clone, Copy, PartialEq, Eq, Debug)]
pub enum TaskExecutable {
    /// A guarded copy block.
    Switch(RTSwitch),
    /// A constant value.
    Constant(RTConstant),
}

/// The executable a driver generates, in its neutral state.
pub open spec fn exe_generate_spec(d: TaskDriver) -> TaskExecutable {
    match d {
        TaskDriver::Switch => TaskExecutable::Switch(RTSwitch { n_outputs: 1u8 }),
        TaskDriver::Constant => TaskExecutable::Constant(RTConstant { value: 0u32 }),
    }
}

/// The declared output count of an executable.
pub open spec fn exe_size_spec(e: TaskExecutable) -> int {
    match e {
        TaskExecutable::Switch(s) => s.n_outputs as int,
        TaskExecutable::Constant(_) => 1,
    }
}

/// The output vector an executable computes from an input vector.
pub open spec fn exe_run_spec(e: TaskExecutable, input: Seq<u32>) -> Seq<u32> {
    match e {
        TaskExecutable::Switch(s) => switch_run_spec(s, input),
        TaskExecutable::Constant(c) => const_run_spec(c),
    }
}

/// The executable and the verdict that configuring from chunk bytes yields.
pub open spec fn exe_configure_spec(e: TaskExecutable, buf: Seq<Seq<u8>>) -> (
    TaskExecutable,
    bool,
) {
    match e {
        TaskExecutable::Switch(_) => (
            TaskExecutable::Switch(RTSwitch { n_outputs: buf[0][0] }),
            (buf[0][0] as int) < MAX_TASK_DATA_FLOATS - 1,
        ),
        TaskExecutable::Constant(_) => (
            TaskExecutable::Constant(
                RTConstant { value: be_u32(buf[0][0], buf[0][1], buf[0][2], buf[0][3]) },
            ),
            true,
        ),
    }
}

impl TaskExecutable {
    /// Generate the neutral executable of a driver.
    pub fn generate(driver: &TaskDriver) -> (r: TaskExecutable)
        ensures
            r == exe_generate_spec(*driver),
    {
        match driver {
            TaskDriver::Switch => TaskExecutable::Switch(RTSwitch::default()),
            TaskDriver::Constant => TaskExecutable::Constant(RTConstant::default()),
        }
    }

    /// The declared output count.
    pub fn size(&self) -> (r: usize)
        ensures
            r == exe_size_spec(*self),
    {
        match self {
            TaskExecutable::Switch(task) => task.size(),
            TaskExecutable::Constant(task) => task.size(),
        }
    }

    /// Compute the output vector from an input vector.
    pub fn run(&self, input: &TaskData) -> (r: TaskData)
        ensures
            r@ == exe_run_spec(*self, input@),
    {
        match self {
            TaskExecutable::Switch(task) => task.run(input),
            TaskExecutable::Constant(task) => task.run(input),
        }
    }

    /// Configure the executable's private state from reassembled chunks;
    /// the verdict says whether the state validated.
    pub fn configure(&mut self, data: &[TaskBuffer; MAX_TASK_CONFIG_CHUNKS]) -> (r: bool)
        ensures
            *final(self) == exe_configure_spec(
                *old(self),
                Seq::new(MAX_TASK_CONFIG_CHUNKS as nat, |i: int| data@[i]@),
            ).0,
            r == exe_configure_spec(
                *old(self),
                Seq::new(MAX_TASK_CONFIG_CHUNKS as nat, |i: int| data@[i]@),
            ).1,
    {
        match self {
            TaskExecutable::Switch(task) => task.configure(data.as_slice()),
            TaskExecutable::Constant(task) => task.configure(data.as_slice()),
        }
    }

    /// Serialize the executable's private state into a fresh configuration
    /// cache holding as many chunks as the state needs; every serialized
    /// chunk is marked missing, so a receiver mirroring the cache owes them
    /// all.
    pub fn deconfigure(&self) -> (r: TaskConfig)
        ensures
            r@.id == 0u8,
            r@.total_chunks == 1,
            r@.missing =~= fresh_missing(1),
            exe_configure_spec(*self, r@.buffer).0 == *self,
            exe_configure_spec(*self, r@.buffer).1 == (match self {
                TaskExecutable::Switch(s) => (s.n_outputs as int) < MAX_TASK_DATA_FLOATS - 1,
                TaskExecutable::Constant(_) => true,
            }),
    {
        let mut buffer = [[0u8; MAX_TASK_DATA_BYTES]; MAX_TASK_CONFIG_CHUNKS];

        match self {
            TaskExecutable::Switch(task) => {
                let total_chunks = task.deconfigure(&mut buffer);
                let r = TaskConfig::new(total_chunks, buffer);
                r
            },
            TaskExecutable::Constant(task) => {
                let total_chunks = task.deconfigure(&mut buffer);
                proof {
                    crate::ptp::lemma_be_u32_of_bytes(task.value);
                }
                let r = TaskConfig::new(total_chunks, buffer);
                r
            },
        }
    }
}

/// Serialization then deserialization is the identity on an executable's
/// private state: configuring any executable of the same driver from the
/// chunks [`TaskExecutable::deconfigure`] wrote yields the executable the
/// chunks came from, and the verdict is positive on every valid state.
pub proof fn lemma_exe_config_round_trip(e: TaskExecutable, cfg: TaskConfig)
    requires
        cfg@.id == 0u8,
        cfg@.total_chunks == 1,
        exe_configure_spec(e, cfg@.buffer).0 == e,
    ensures
        forall|e0: TaskExecutable|
            #[trigger] exe_same_driver(e0, e) ==> exe_configure_spec(e0, cfg@.buffer).0 == e,
{
    assert forall|e0: TaskExecutable| #[trigger] exe_same_driver(e0, e) implies exe_configure_spec(
        e0,
        cfg@.buffer,
    ).0 == e by {
        match (e0, e) {
            (TaskExecutable::Switch(_), TaskExecutable::Switch(_)) => {},
            (TaskExecutable::Constant(_), TaskExecutable::Constant(_)) => {},
            _ => {},
        }
    }
}

/// Whether two executables run the same driver kind.
pub open spec fn exe_same_driver(a: TaskExecutable, b: TaskExecutable) -> bool {
    match (a, b) {
        (TaskExecutable::Switch(_), TaskExecutable::Switch(_)) => true,
        (TaskExecutable::Constant(_), TaskExecutable::Constant(_)) => true,
        _ => false,
    }
}

} // verus!
