//! Task nodes and the task manager: the per-node state machine, the packet
//! collector shared by both endpoints, and the two spin loops.

use crate::ptp::{be_u16, be_u32_at, be_byte0, be_byte1, be_byte2, be_byte3, u16_hi, u16_lo};
use crate::rtnt::task_generator::{driver_of, driver_u8, exe_configure_spec, exe_generate_spec,
    exe_run_spec, TaskDriver, TaskExecutable};
use crate::rtnt::{cache_new_output_spec, cache_new_output_with_header_spec, cache_wf,
    cfg_collect_chunk_spec, cfg_collect_status_spec, cfg_emit_chunk_spec, cfg_emit_status_spec,
    cfg_reset_spec, cfg_wf, fresh_missing, missing_count, packet_type_of, packet_type_u8,
    publish_spec, zero_chunk, zero_packet, CacheView, CfgView, PacketType, TaskBuffer,
    TaskConfig, TaskData, TaskDataCache, TaskHeader, TaskStatus, InputIDBuffer, MAX_TASKS,
    MAX_TASK_CONFIG_CHUNKS, MAX_TASK_DATA_BYTES, MAX_TASK_DATA_FLOATS, MAX_TASK_INPUTS,
    RTNT_DATA_INDEX, RTNT_HDR_LENGTH};
use vstd::prelude::*;

verus! {

/// The smaller of two integers.
pub open spec fn min_int(a: int, b: int) -> int {
    if a <= b {
        a
    } else {
        b
    }
}

/// One task slot: scheduling shape, input wiring, latest outputs, lifecycle
/// state, configuration cache, and the bound driver and executable.
#[derive(Clone, Copy, PartialEq, Eq, Debug)]
pub struct TaskNode {
    /// Execution rate of the task.
    pub rate: u16,
    /// Publish outputs every tick when nonzero.
    pub stream: u8,
    /// Number of input wires.
    pub n_inputs: u8,
    /// Number of output values.
    pub n_outputs: u8,
    /// Input wires: source node id and source output index per wire.
    pub inputs: InputIDBuffer,
    /// Latest computed outputs, as IEEE-754 bit patterns.
    pub data: TaskData,
    /// Lifecycle state.
    pub status: TaskStatus,
    /// Sharded configuration cache.
    pub config_cache: TaskConfig,
    /// The driver bound to this node.
    pub driver: Option<TaskDriver>,
    /// The executable bound to the driver.
    pub task: Option<TaskExecutable>,
}

/// Mathematical image of a [`TaskNode`].
#[verifier::ext_equal]
pub struct NodeView {
    /// Execution rate of the task.
    pub rate: u16,
    /// Publish outputs every tick when nonzero.
    pub stream: u8,
    /// Number of input wires.
    pub n_inputs: u8,
    /// Number of output values.
    pub n_outputs: u8,
    /// Input wires: source node id and source output index per wire.
    pub inputs: Seq<(u8, u8)>,
    /// Latest computed outputs.
    pub data: Seq<u32>,
    /// Lifecycle state.
    pub status: TaskStatus,
    /// Configuration cache.
    pub cfg: CfgView,
    /// The driver bound to this node.
    pub driver: Option<TaskDriver>,
    /// The executable bound to the driver.
    pub task: Option<TaskExecutable>,
}

impl View for TaskNode {
    type V = NodeView;

    open spec fn view(&self) -> NodeView {
        NodeView {
            rate: self.rate,
            stream: self.stream,
            n_inputs: self.n_inputs,
            n_outputs: self.n_outputs,
            inputs: Seq::new(
                MAX_TASK_INPUTS as nat,
                |i: int| (self.inputs@[i]@[0], self.inputs@[i]@[1]),
            ),
            data: self.data@,
            status: self.status,
            cfg: self.config_cache@,
            driver: self.driver,
            task: self.task,
        }
    }
}

/// A node fresh out of construction: standby, nothing bound, all zero.
pub open spec fn node_empty_spec() -> NodeView {
    NodeView {
        rate: 250u16,
        stream: 0u8,
        n_inputs: 0u8,
        n_outputs: 0u8,
        inputs: Seq::new(MAX_TASK_INPUTS as nat, |i: int| (0u8, 0u8)),
        data: Seq::new(MAX_TASK_DATA_FLOATS as nat, |i: int| 0u32),
        status: TaskStatus::Standby,
        cfg: CfgView {
            id: 255u8,
            total_chunks: 0int,
            missing: fresh_missing(0),
            buffer: Seq::new(MAX_TASK_CONFIG_CHUNKS as nat, |i: int| zero_chunk()),
        },
        driver: None,
        task: None,
    }
}

/// A node after a kill: standby, nothing bound, configuration cache freed.
/// A node in standby after a kill holds no driver and no executable.
pub open spec fn node_kill_spec(n: NodeView) -> NodeView {
    NodeView {
        task: None,
        driver: None,
        cfg: cfg_reset_spec(CfgView { total_chunks: 0int, ..n.cfg }),
        status: TaskStatus::Standby,
        ..n
    }
}

/// A node after it absorbs an init header: shape and wiring taken from the
/// packet, configuration cache opened, an executable generated whenever the
/// driver is new, state moved to configuration.
pub open spec fn node_init_spec(n: NodeView, header: Seq<u8>, data: Seq<u8>) -> NodeView {
    let driver = driver_of(header[5]);
    let n_inputs = header[6];
    let base = NodeView {
        stream: header[2],
        rate: be_u16(header[3], header[4]),
        n_inputs: n_inputs,
        n_outputs: header[7],
        inputs: Seq::new(
            MAX_TASK_INPUTS as nat,
            |i: int|
                if i < min_int(n_inputs as int, MAX_TASK_INPUTS as int) {
                    (data[2 * i], data[2 * i + 1])
                } else {
                    n.inputs[i]
                },
        ),
        cfg: cfg_reset_spec(CfgView { total_chunks: 1int, ..n.cfg }),
        status: TaskStatus::Configuration,
        ..n
    };
    match n.driver {
        None => NodeView { task: Some(exe_generate_spec(driver)), driver: Some(driver), ..base },
        Some(current) => {
            if current != driver {
                NodeView {
                    task: Some(exe_generate_spec(driver)),
                    driver: Some(driver),
                    cfg: cfg_reset_spec(CfgView { total_chunks: 1int, ..base.cfg }),
                    ..base
                }
            } else {
                base
            }
        },
    }
}

/// A node after a configuration step: once nothing is missing, the bound
/// executable validates the chunks — active on success, panicking on
/// failure, or back to standby when no executable was ever bound.
pub open spec fn node_configure_spec(n: NodeView) -> NodeView {
    if missing_count(n.cfg.missing, n.cfg.total_chunks) == 0 {
        match n.task {
            None => node_kill_spec(n),
            Some(t) => {
                let verdict = exe_configure_spec(t, n.cfg.buffer);
                NodeView {
                    task: Some(verdict.0),
                    status: if verdict.1 {
                        TaskStatus::Active
                    } else {
                        TaskStatus::Panic
                    },
                    ..n
                }
            },
        }
    } else {
        NodeView { status: TaskStatus::Configuration, ..n }
    }
}

/// A node after a chunk packet: the chunk lands only while the node is
/// configuring.
pub open spec fn node_collect_chunk_spec(n: NodeView, header: Seq<u8>, data: Seq<u8>) -> NodeView {
    if n.status == TaskStatus::Configuration {
        NodeView { cfg: cfg_collect_chunk_spec(n.cfg, header, data), ..n }
    } else {
        n
    }
}

/// The header and payload of the init packet a host emits for a node.
pub open spec fn node_header_spec(n: NodeView) -> (Seq<u8>, Seq<u8>) {
    (
        Seq::new(
            RTNT_HDR_LENGTH as nat,
            |i: int|
                if i == 2 {
                    n.stream
                } else if i == 3 {
                    u16_hi(n.rate)
                } else if i == 4 {
                    u16_lo(n.rate)
                } else if i == 5 {
                    match n.driver {
                        Some(d) => driver_u8(d),
                        None => 0u8,
                    }
                } else if i == 6 {
                    n.n_inputs
                } else if i == 7 {
                    n.n_outputs
                } else {
                    0u8
                },
        ),
        Seq::new(
            MAX_TASK_DATA_BYTES as nat,
            |j: int|
                if j < 2 * min_int(n.n_inputs as int, MAX_TASK_INPUTS as int) {
                    if j % 2 == 0 {
                        n.inputs[j / 2].0
                    } else {
                        n.inputs[j / 2].1
                    }
                } else {
                    0u8
                },
        ),
    )
}

/// A driver is bound exactly when an executable is: every constructor and
/// transition binds or releases the two together.
pub open spec fn node_coupled(n: NodeView) -> bool {
    n.driver is Some <==> n.task is Some
}

impl TaskNode {
    /// A fresh standby node with nothing bound.
    pub fn empty() -> (r: TaskNode)
        ensures
            r@ == node_empty_spec(),
            node_coupled(r@),
    {
        let r = TaskNode {
            rate: 250,
            stream: 0,
            n_inputs: 0,
            n_outputs: 0,
            inputs: [[0u8; 2]; MAX_TASK_INPUTS],
            data: [0u32; MAX_TASK_DATA_FLOATS],
            status: TaskStatus::Standby,
            config_cache: TaskConfig::default(),
            driver: None,
            task: None,
        };
        proof {
            assert(r@ =~~= node_empty_spec());
        }
        r
    }

    /// A host-side node built around a prepared executable: standby with the
    /// driver and executable bound and the executable's serialized state in
    /// the configuration cache.
    pub fn new(
        stream: u8,
        rate: u16,
        inputs: u8,
        outputs: u8,
        driver: TaskDriver,
        task: TaskExecutable,
    ) -> (r: TaskNode)
        ensures
            r@.stream == stream,
            r@.rate == rate,
            r@.n_inputs == inputs,
            r@.n_outputs == outputs,
            r@.inputs =~= Seq::new(MAX_TASK_INPUTS as nat, |i: int| (0u8, 0u8)),
            r@.data =~= Seq::new(MAX_TASK_DATA_FLOATS as nat, |i: int| 0u32),
            r@.status == TaskStatus::Standby,
            r@.driver == Some(driver),
            r@.task == Some(task),
            r@.cfg.id == 0u8,
            r@.cfg.total_chunks == 1,
            r@.cfg.missing =~= fresh_missing(1),
            exe_configure_spec(task, r@.cfg.buffer).0 == task,
            node_coupled(r@),
            cfg_wf(r@.cfg),
    {
        let cache = task.deconfigure();
        TaskNode {
            rate,
            stream,
            n_inputs: inputs,
            n_outputs: outputs,
            inputs: [[0u8; 2]; MAX_TASK_INPUTS],
            data: [0u32; MAX_TASK_DATA_FLOATS],
            status: TaskStatus::Standby,
            config_cache: cache,
            driver: Some(driver),
            task: Some(task),
        }
    }

    /// Rebuild this node in place around a prepared executable, exactly as
    /// [`TaskNode::new`] constructs one.
    pub fn modify(
        &mut self,
        stream: u8,
        rate: u16,
        inputs: u8,
        outputs: u8,
        driver: TaskDriver,
        task: TaskExecutable,
    )
        ensures
            final(self)@.stream == stream,
            final(self)@.rate == rate,
            final(self)@.n_inputs == inputs,
            final(self)@.n_outputs == outputs,
            final(self)@.inputs =~= Seq::new(MAX_TASK_INPUTS as nat, |i: int| (0u8, 0u8)),
            final(self)@.data =~= Seq::new(MAX_TASK_DATA_FLOATS as nat, |i: int| 0u32),
            final(self)@.status == TaskStatus::Standby,
            final(self)@.driver == Some(driver),
            final(self)@.task == Some(task),
            final(self)@.cfg.id == 0u8,
            final(self)@.cfg.total_chunks == 1,
            final(self)@.cfg.missing =~= fresh_missing(1),
            exe_configure_spec(task, final(self)@.cfg.buffer).0 == task,
            node_coupled(final(self)@),
            cfg_wf(final(self)@.cfg),
    {
        let cache = task.deconfigure();
        self.rate = rate;
        self.stream = stream;
        self.n_inputs = inputs;
        self.n_outputs = outputs;
        self.inputs = [[0u8; 2]; MAX_TASK_INPUTS];
        self.data = [0u32; MAX_TASK_DATA_FLOATS];
        self.status = TaskStatus::Standby;
        self.config_cache = cache;
        self.driver = Some(driver);
        self.task = Some(task);
        proof {
            assert(self@.inputs =~= Seq::new(MAX_TASK_INPUTS as nat, |i: int| (0u8, 0u8)));
            assert(self@.data =~= Seq::new(MAX_TASK_DATA_FLOATS as nat, |i: int| 0u32));
        }
    }

    /// Set the input wiring.
    pub fn link(&mut self, link: InputIDBuffer)
        ensures
            final(self)@ == (NodeView {
                inputs: Seq::new(
                    MAX_TASK_INPUTS as nat,
                    |i: int| (link@[i]@[0], link@[i]@[1]),
                ),
                ..old(self)@
            }),
    {
        self.inputs = link;
        proof {
            assert(self@ =~~= (NodeView {
                inputs: Seq::new(
                    MAX_TASK_INPUTS as nat,
                    |i: int| (link@[i]@[0], link@[i]@[1]),
                ),
                ..old(self)@
            }));
        }
    }

    /// Absorb an init header: take the shape and wiring, open the
    /// configuration cache, bind an executable whenever the driver is new,
    /// and move to the configuration state. Only clients receive init
    /// packets.
    #[verifier::loop_isolation(false)]
    pub fn init(&mut self, header: &[u8], data: &[u8])
        requires
            header@.len() == RTNT_HDR_LENGTH,
            data@.len() >= MAX_TASK_DATA_BYTES,
        ensures
            final(self)@ == node_init_spec(old(self)@, header@, data@),
            final(self)@.driver is Some && final(self)@.task is Some || final(self)@.task == old(
                self,
            )@.task && final(self)@.driver == old(self)@.driver,
            node_coupled(old(self)@) ==> node_coupled(final(self)@),
            cfg_wf(final(self)@.cfg),
    {
        let driver = TaskDriver::new(header[5]);

        self.stream = header[2];
        self.rate = ((header[3] as u16) << 8) | (header[4] as u16);
        self.n_inputs = header[6];
        self.n_outputs = header[7];

        let count: usize = if (self.n_inputs as usize) <= MAX_TASK_INPUTS {
            self.n_inputs as usize
        } else {
            MAX_TASK_INPUTS
        };
        let ghost pre_inputs = self.inputs@;
        let mut i: usize = 0;
        while i < count
            invariant
                i <= count,
                count == min_int(self.n_inputs as int, MAX_TASK_INPUTS as int),
                count <= MAX_TASK_INPUTS,
                data@.len() >= MAX_TASK_DATA_BYTES,
                self.stream == header@[2],
                self.rate == be_u16(header@[3], header@[4]),
                self.n_inputs == header@[6],
                self.n_outputs == header@[7],
                self.data == old(self).data,
                self.status == old(self).status,
                self.config_cache == old(self).config_cache,
                self.driver == old(self).driver,
                self.task == old(self).task,
                forall|j: int|
                    0 <= j < i ==> self.inputs@[j]@ =~= seq![data@[2 * j], data@[2 * j + 1]],
                forall|j: int| i <= j < MAX_TASK_INPUTS ==> self.inputs@[j] == pre_inputs[j],
            decreases count - i,
        {
            self.inputs[i] = [data[2 * i], data[2 * i + 1]];
            i = i + 1;
        }

        self.config_cache.init();

        match &self.driver {
            None => {
                self.task = Some(TaskExecutable::generate(&driver));
                self.driver = Some(driver);
            },
            Some(current_driver) => {
                if *current_driver != driver {
                    self.task = Some(TaskExecutable::generate(&driver));
                    self.config_cache.init();
                    self.driver = Some(driver);
                }
            },
        }

        self.status = TaskStatus::Configuration;
        proof {
            assert(self@ =~~= node_init_spec(old(self)@, header@, data@));
        }
    }

    /// Emit this node's header and wiring for an init packet. Only hosts
    /// send init packets.
    #[verifier::loop_isolation(false)]
    pub fn header(&self) -> (r: (TaskHeader, TaskBuffer))
        ensures
            r.0@ == node_header_spec(self@).0,
            r.1@ == node_header_spec(self@).1,
    {
        let mut header = [0u8; RTNT_HDR_LENGTH];
        let mut data = [0u8; MAX_TASK_DATA_BYTES];

        header[2] = self.stream;
        header[3] = ((self.rate >> 8) & 0xff) as u8;
        header[4] = (self.rate & 0xff) as u8;
        header[5] = match &self.driver {
            Some(driver) => driver.as_u8(),
            None => 0,
        };
        header[6] = self.n_inputs;
        header[7] = self.n_outputs;

        let count: usize = if (self.n_inputs as usize) <= MAX_TASK_INPUTS {
            self.n_inputs as usize
        } else {
            MAX_TASK_INPUTS
        };
        let mut i: usize = 0;
        while i < count
            invariant
                i <= count,
                count == min_int(self@.n_inputs as int, MAX_TASK_INPUTS as int),
                count <= MAX_TASK_INPUTS,
                forall|j: int| 0 <= j < 2 * i ==> data@[j] == node_header_spec(self@).1[j],
                forall|j: int| 2 * i <= j < MAX_TASK_DATA_BYTES ==> data@[j] == 0u8,
            decreases count - i,
        {
            data[2 * i] = self.inputs[i][0];
            data[2 * i + 1] = self.inputs[i][1];
            i = i + 1;
        }
        proof {
            assert(header@ =~= node_header_spec(self@).0);
            assert(data@ =~= node_header_spec(self@).1);
        }
        (header, data)
    }

    /// Collect a chunk packet; the chunk lands only while this node is
    /// configuring.
    pub fn collect_chunk(&mut self, header: &[u8], data: &[u8])
        requires
            cfg_wf(old(self)@.cfg),
            header@.len() == RTNT_HDR_LENGTH,
            data@.len() >= MAX_TASK_DATA_BYTES,
        ensures
            final(self)@ == node_collect_chunk_spec(old(self)@, header@, data@),
            cfg_wf(final(self)@.cfg),
    {
        match self.status {
            TaskStatus::Configuration => {
                self.config_cache.collect_chunk(header, data);
                proof {
                    assert(self@ =~~= node_collect_chunk_spec(old(self)@, header@, data@));
                }
            },
            _ => {
                proof {
                    assert(self@ =~~= node_collect_chunk_spec(old(self)@, header@, data@));
                }
            },
        }
    }

    /// Release everything and return to standby. After a kill the node holds
    /// no driver and no executable.
    pub fn kill(&mut self)
        ensures
            final(self)@ == node_kill_spec(old(self)@),
            final(self)@.status == TaskStatus::Standby,
            final(self)@.driver is None,
            final(self)@.task is None,
            node_coupled(final(self)@),
            cfg_wf(final(self)@.cfg),
    {
        self.task = None;
        self.driver = None;
        self.config_cache.clear_chunks();
        self.status = TaskStatus::Standby;
        proof {
            assert(self@ =~~= node_kill_spec(old(self)@));
        }
    }

    /// Try to configure: once no chunk is missing, the bound executable
    /// validates the reassembled chunks — active on success, panicking on
    /// failure, and back to standby when no executable was ever bound.
    ///
    /// An active node is always fully configured: when this step reports
    /// the active state, an executable is bound and no chunk is missing.
    pub fn configure(&mut self)
        requires
            cfg_wf(old(self)@.cfg),
        ensures
            final(self)@ == node_configure_spec(old(self)@),
            cfg_wf(final(self)@.cfg),
            node_coupled(old(self)@) ==> node_coupled(final(self)@),
            final(self)@.status == TaskStatus::Active ==> final(self)@.task is Some
                && missing_count(final(self)@.cfg.missing, final(self)@.cfg.total_chunks) == 0,
    {
        if self.config_cache.missing_chunks() == 0 {
            let has_task = self.task.is_some();
            if !has_task {
                self.kill();
                self.status = TaskStatus::Standby;
                proof {
                    assert(self@ =~~= node_configure_spec(old(self)@));
                }
            } else {
                let ok = match &mut self.task {
                    None => false,
                    Some(task) => task.configure(&self.config_cache.buffer),
                };
                self.status = if ok {
                    TaskStatus::Active
                } else {
                    TaskStatus::Panic
                };
                proof {
                    assert(self@ =~~= node_configure_spec(old(self)@));
                }
            }
        } else {
            self.status = TaskStatus::Configuration;
            proof {
                assert(self@ =~~= node_configure_spec(old(self)@));
            }
        }
    }
}

/// An active node is configured: whenever a configuration step reports the
/// active state, the node holds a driver and an executable and its
/// configuration cache misses nothing. The coupling premise holds of every
/// node the library constructs: constructors and transitions bind or release
/// driver and executable together.
pub proof fn lemma_active_node_configured(n: NodeView)
    requires
        node_coupled(n),
    ensures
        node_configure_spec(n).status == TaskStatus::Active ==> {
            &&& node_configure_spec(n).driver is Some
            &&& node_configure_spec(n).task is Some
            &&& missing_count(node_configure_spec(n).cfg.missing, node_configure_spec(n).cfg.total_chunks) == 0
        },
{
}

/// A node in standby right after a kill holds no driver and no executable.
pub proof fn lemma_standby_after_kill(n: NodeView)
    ensures
        node_kill_spec(n).status == TaskStatus::Standby,
        node_kill_spec(n).driver is None,
        node_kill_spec(n).task is None,
{
}

/// Stores and manages all task nodes and their outbound data.
pub struct TaskManager {
    /// Number of live nodes: the highest in-use slot plus one.
    pub n_nodes: usize,
    /// The node slots.
    pub nodes: [TaskNode; MAX_TASKS],
    /// The outbound packet cache.
    pub data_cache: TaskDataCache,
}

/// Mathematical image of a [`TaskManager`].
#[verifier::ext_equal]
pub struct ManagerView {
    /// Number of live nodes.
    pub n_nodes: int,
    /// The node slots.
    pub nodes: Seq<NodeView>,
    /// The outbound packet cache.
    pub cache: CacheView,
}

impl View for TaskManager {
    type V = ManagerView;

    open spec fn view(&self) -> ManagerView {
        ManagerView {
            n_nodes: self.n_nodes as int,
            nodes: Seq::new(MAX_TASKS as nat, |i: int| self.nodes@[i]@),
            cache: self.data_cache@,
        }
    }
}

/// The manager's structural invariant: the live count fits, the cache cursor
/// points at a real slot, and no node declares more chunks than fit.
pub open spec fn mgr_wf(m: ManagerView) -> bool {
    &&& 0 <= m.n_nodes <= MAX_TASKS
    &&& m.nodes.len() == MAX_TASKS
    &&& cache_wf(m.cache)
    &&& forall|i: int| 0 <= i < MAX_TASKS ==> cfg_wf(#[trigger] m.nodes[i].cfg)
}

/// The manager after it collects one packet, and whether the packet was
/// streamed data worth forwarding.
///
/// A packet whose selector is zero is not addressed to a node; one whose
/// selector points past the node table is an invalid-input error and a
/// no-op. Otherwise the packet type decides: an init header opens the node's
/// configuration; a chunk lands in its cache; a status echo refreshes the
/// missing mask and moves the node to active once nothing is missing; data
/// marks the node active and decodes its outputs; a kill panics every live
/// node.
pub open spec fn collect_spec(m: ManagerView, pkt: Seq<u8>) -> (ManagerView, bool) {
    let sel = pkt[crate::RID_TASK_INDEX as int];
    if sel == 0 {
        (m, false)
    } else {
        let node = sel as int - 1;
        if node >= MAX_TASKS {
            (m, false)
        } else {
            let hdr = pkt.subrange(crate::rtnt::RTNT_HDR_INDEX as int, RTNT_DATA_INDEX as int);
            let payload = pkt.subrange(
                RTNT_DATA_INDEX as int,
                RTNT_DATA_INDEX as int + MAX_TASK_DATA_BYTES as int,
            );
            let n = m.nodes[node];
            match packet_type_of(pkt[crate::RID_MODE_INDEX as int]) {
                PacketType::Init => (
                    ManagerView { nodes: m.nodes.update(node, node_init_spec(n, hdr, payload)), ..m },
                    false,
                ),
                PacketType::Chunk => (
                    ManagerView {
                        nodes: m.nodes.update(node, node_collect_chunk_spec(n, hdr, payload)),
                        ..m
                    },
                    false,
                ),
                PacketType::Status => {
                    let cfg2 = cfg_collect_status_spec(n.cfg, payload);
                    let st = if missing_count(cfg2.missing, cfg2.total_chunks) > 0 {
                        TaskStatus::Configuration
                    } else {
                        TaskStatus::Active
                    };
                    (
                        ManagerView {
                            nodes: m.nodes.update(
                                node,
                                NodeView { cfg: cfg2, status: st, ..n },
                            ),
                            ..m
                        },
                        false,
                    )
                },
                PacketType::Data => {
                    let k = min_int(n.n_outputs as int, MAX_TASK_DATA_FLOATS as int);
                    let data2 = Seq::new(
                        MAX_TASK_DATA_FLOATS as nat,
                        |j: int|
                            if j < k {
                                be_u32_at(payload, 4 * j)
                            } else {
                                n.data[j]
                            },
                    );
                    (
                        ManagerView {
                            nodes: m.nodes.update(
                                node,
                                NodeView { status: TaskStatus::Active, data: data2, ..n },
                            ),
                            ..m
                        },
                        n.stream > 0,
                    )
                },
                PacketType::Kill => (
                    ManagerView {
                        nodes: Seq::new(
                            MAX_TASKS as nat,
                            |j: int|
                                if j < m.n_nodes {
                                    NodeView { status: TaskStatus::Panic, ..m.nodes[j] }
                                } else {
                                    m.nodes[j]
                                },
                        ),
                        ..m
                    },
                    false,
                ),
            }
        }
    }
}

/// The manager after it collects a whole packet sequence, oldest first.
pub open spec fn collect_seq_spec(m: ManagerView, pkts: Seq<Seq<u8>>) -> ManagerView
    decreases pkts.len(),
{
    if pkts.len() == 0 {
        m
    } else {
        collect_seq_spec(collect_spec(m, pkts[0]).0, pkts.drop_first())
    }
}

/// Two endpoints running the identical collector from equal states absorb
/// the same packet sequence into equal states: the collector is a function
/// of the state and the packet alone, so the final node statuses, caches
/// and outputs on host and client agree.
pub proof fn lemma_same_packets_same_state(a: ManagerView, b: ManagerView, pkts: Seq<Seq<u8>>)
    requires
        a == b,
    ensures
        collect_seq_spec(a, pkts) == collect_seq_spec(b, pkts),
        forall|i: int|
            0 <= i < MAX_TASKS ==> #[trigger] collect_seq_spec(a, pkts).nodes[i].status
                == collect_seq_spec(b, pkts).nodes[i].status && collect_seq_spec(
                a,
                pkts,
            ).nodes[i].cfg == collect_seq_spec(b, pkts).nodes[i].cfg,
{
}

impl TaskManager {
    /// A manager with no live nodes and an empty cache.
    pub fn default() -> (r: TaskManager)
        ensures
            r@.n_nodes == 0,
            r@.nodes =~~= Seq::new(MAX_TASKS as nat, |i: int| node_empty_spec()),
            r@.cache.context == 0,
            r@.cache.buffer =~~= Seq::new(MAX_TASKS as nat, |i: int| zero_packet()),
            mgr_wf(r@),
            forall|i: int| 0 <= i < MAX_TASKS ==> node_coupled(#[trigger] r@.nodes[i]),
    {
        let r = TaskManager {
            n_nodes: 0,
            nodes: [TaskNode::empty(); MAX_TASKS],
            data_cache: TaskDataCache::default(),
        };
        proof {
            assert(r@.nodes =~~= Seq::new(MAX_TASKS as nat, |i: int| node_empty_spec()));
            assert(r@.cache.buffer =~~= Seq::new(MAX_TASKS as nat, |i: int| zero_packet()));
        }
        r
    }

    /// Install a node in the next free slot; with every slot in use the node
    /// is dropped.
    pub fn init_node(&mut self, node: TaskNode)
        ensures
            old(self).n_nodes < MAX_TASKS ==> final(self)@ == (ManagerView {
                n_nodes: old(self)@.n_nodes + 1,
                nodes: old(self)@.nodes.update(old(self)@.n_nodes, node@),
                ..old(self)@
            }),
            old(self).n_nodes >= MAX_TASKS ==> final(self)@ == old(self)@,
    {
        if self.n_nodes < MAX_TASKS {
            self.nodes[self.n_nodes] = node;
            self.n_nodes = self.n_nodes + 1;
            proof {
                assert(self@ =~~= (ManagerView {
                    n_nodes: old(self)@.n_nodes + 1,
                    nodes: old(self)@.nodes.update(old(self)@.n_nodes, node@),
                    ..old(self)@
                }));
            }
        }
    }

    /// Panic every live node; the next spin will kill them all and, on a
    /// host, emit a kill packet to the client.
    pub fn panic_all(&mut self)
        requires
            old(self).n_nodes <= MAX_TASKS,
        ensures
            final(self)@ == (ManagerView {
                nodes: Seq::new(
                    MAX_TASKS as nat,
                    |j: int|
                        if j < old(self)@.n_nodes {
                            NodeView { status: TaskStatus::Panic, ..old(self)@.nodes[j] }
                        } else {
                            old(self)@.nodes[j]
                        },
                ),
                ..old(self)@
            }),
    {
        let mut i: usize = 0;
        while i < self.n_nodes
            invariant
                i <= self.n_nodes,
                self.n_nodes == old(self).n_nodes,
                self.n_nodes <= MAX_TASKS,
                self.data_cache == old(self).data_cache,
                forall|j: int|
                    0 <= j < i ==> self.nodes@[j] == (TaskNode {
                        status: TaskStatus::Panic,
                        ..old(self).nodes@[j]
                    }),
                forall|j: int| i <= j < MAX_TASKS ==> self.nodes@[j] == old(self).nodes@[j],
            decreases self.n_nodes - i,
        {
            let mut node = self.nodes[i];
            node.status = TaskStatus::Panic;
            self.nodes[i] = node;
            i = i + 1;
        }
        proof {
            assert(self@ =~~= (ManagerView {
                nodes: Seq::new(
                    MAX_TASKS as nat,
                    |j: int|
                        if j < old(self)@.n_nodes {
                            NodeView { status: TaskStatus::Panic, ..old(self)@.nodes[j] }
                        } else {
                            old(self)@.nodes[j]
                        },
                ),
                ..old(self)@
            }));
        }
    }

    /// Collect one packet: the shared interface of host and client to their
    /// remote counterpart. Returns whether the packet was streamed data the
    /// caller may forward.
    #[verifier::loop_isolation(false)]
    pub fn collect(&mut self, buffer: &crate::RIDReport) -> (r: bool)
        requires
            mgr_wf(old(self)@),
        ensures
            final(self)@ == collect_spec(old(self)@, buffer@).0,
            r == collect_spec(old(self)@, buffer@).1,
            mgr_wf(final(self)@),
    {
        let node_select = buffer[crate::RID_TASK_INDEX] as usize;
        if node_select == 0 {
            return false;
        }
        let node_select = node_select - 1;
        if node_select >= MAX_TASKS {
            return false;
        }
        let header = vstd::slice::slice_subrange(
            buffer.as_slice(),
            crate::rtnt::RTNT_HDR_INDEX,
            RTNT_DATA_INDEX,
        );
        let payload = vstd::slice::slice_subrange(
            buffer.as_slice(),
            RTNT_DATA_INDEX,
            RTNT_DATA_INDEX + MAX_TASK_DATA_BYTES,
        );
        match PacketType::new(buffer[crate::RID_MODE_INDEX]) {
            PacketType::Init => {
                let mut node = self.nodes[node_select];
                node.init(header, payload);
                self.nodes[node_select] = node;
                proof {
                    assert(self@ =~~= collect_spec(old(self)@, buffer@).0);
                }
                false
            },
            PacketType::Chunk => {
                let mut node = self.nodes[node_select];
                node.collect_chunk(header, payload);
                self.nodes[node_select] = node;
                proof {
                    assert(self@ =~~= collect_spec(old(self)@, buffer@).0);
                }
                false
            },
            PacketType::Status => {
                let mut node = self.nodes[node_select];
                let missing = node.config_cache.collect_status(payload);
                node.status = if missing > 0 {
                    TaskStatus::Configuration
                } else {
                    TaskStatus::Active
                };
                self.nodes[node_select] = node;
                proof {
                    assert(self@ =~~= collect_spec(old(self)@, buffer@).0);
                }
                false
            },
            PacketType::Data => {
                let mut node = self.nodes[node_select];
                node.status = TaskStatus::Active;
                let k: usize = if (node.n_outputs as usize) <= MAX_TASK_DATA_FLOATS {
                    node.n_outputs as usize
                } else {
                    MAX_TASK_DATA_FLOATS
                };
                let mut j: usize = 0;
                while j < k
                    invariant
                        j <= k,
                        k == min_int(node.n_outputs as int, MAX_TASK_DATA_FLOATS as int),
                        forall|t: int|
                            0 <= t < j ==> node.data@[t] == be_u32_at(
                                buffer@.subrange(
                                    RTNT_DATA_INDEX as int,
                                    RTNT_DATA_INDEX as int + MAX_TASK_DATA_BYTES as int,
                                ),
                                4 * t,
                            ),
                        forall|t: int|
                            j <= t < MAX_TASK_DATA_FLOATS ==> node.data@[t] == old(
                                self,
                            )@.nodes[node_select as int].data[t],
                        node == (TaskNode {
                            data: node.data,
                            status: TaskStatus::Active,
                            ..self.nodes@[node_select as int]
                        }),
                    decreases k - j,
                {
                    let base = RTNT_DATA_INDEX + 4 * j;
                    let value = ((buffer[base] as u32) << 24) | ((buffer[base + 1] as u32) << 16)
                        | ((buffer[base + 2] as u32) << 8) | (buffer[base + 3] as u32);
                    node.data[j] = value;
                    j = j + 1;
                }
                let streamed = node.stream > 0;
                self.nodes[node_select] = node;
                proof {
                    assert(self@.nodes[node_select as int].data =~= collect_spec(
                        old(self)@,
                        buffer@,
                    ).0.nodes[node_select as int].data);
                    assert(self@ =~~= collect_spec(old(self)@, buffer@).0);
                }
                streamed
            },
            PacketType::Kill => {
                let mut i: usize = 0;
                while i < self.n_nodes
                    invariant
                        i <= self.n_nodes,
                        forall|j: int|
                            0 <= j < i ==> self.nodes@[j] == (TaskNode {
                                status: TaskStatus::Panic,
                                ..old(self).nodes@[j]
                            }),
                        forall|j: int| i <= j < MAX_TASKS ==> self.nodes@[j] == old(self).nodes@[j],
                        self.n_nodes == old(self).n_nodes,
                        self.data_cache == old(self).data_cache,
                    decreases self.n_nodes - i,
                {
                    let mut node = self.nodes[i];
                    node.status = TaskStatus::Panic;
                    self.nodes[i] = node;
                    i = i + 1;
                }
                proof {
                    assert(self@ =~~= collect_spec(old(self)@, buffer@).0);
                }
                false
            },
        }
    }
}

/// The input vector gathered for node `i`: per wire, the referenced node's
/// referenced output, or zero where the wire is out of range; the vector is
/// as long as the node declares, capped at what one packet can carry.
/// Reading other nodes' previous-tick outputs resolves wiring cycles with a
/// one-tick delay.
pub open spec fn gather_spec(nodes: Seq<NodeView>, i: int) -> Seq<u32> {
    let n = nodes[i];
    Seq::new(
        MAX_TASK_DATA_FLOATS as nat,
        |j: int|
            if j < min_int(n.n_inputs as int, MAX_TASK_DATA_FLOATS as int) {
                let id = n.inputs[j].0;
                let idx = n.inputs[j].1;
                if (id as int) < MAX_TASKS && (idx as int) < MAX_TASK_DATA_FLOATS {
                    nodes[id as int].data[idx as int]
                } else {
                    0u32
                }
            } else {
                0u32
            },
    )
}

/// The payload of a data packet: the first `k` output values big-endian,
/// zeros after.
pub open spec fn data_payload_spec(data: Seq<u32>, k: int) -> Seq<u8> {
    Seq::new(
        MAX_TASK_DATA_BYTES as nat,
        |b: int|
            if b < 4 * k {
                let x = data[b / 4];
                if b % 4 == 0 {
                    be_byte0(x)
                } else if b % 4 == 1 {
                    be_byte1(x)
                } else if b % 4 == 2 {
                    be_byte2(x)
                } else {
                    be_byte3(x)
                }
            } else {
                0u8
            },
    )
}

/// One client spin iteration on slot `i`. A slot without declared chunks is
/// skipped. Otherwise the live count grows to cover the slot and the slot's
/// state decides: a panicking node kills every slot and zeroes the live
/// count; an active node, unless its slot still holds an unread status
/// packet, gathers its inputs, runs its executable, and caches a data packet
/// when it streams; a configuring node takes a configuration step, caches a
/// status packet and parks the publication cursor on itself; a standby node
/// does nothing.
pub open spec fn spin_step(m: ManagerView, i: int) -> ManagerView {
    let n = m.nodes[i];
    if n.cfg.total_chunks > 0 {
        let m1 = ManagerView { n_nodes: i + 1, ..m };
        match n.status {
            TaskStatus::Panic => ManagerView {
                n_nodes: 0,
                nodes: Seq::new(MAX_TASKS as nat, |j: int| node_kill_spec(m.nodes[j])),
                cache: m.cache,
            },
            TaskStatus::Active => {
                if !(m.cache.buffer[i][crate::RID_TASK_INDEX as int] != 0
                    && m.cache.buffer[i][crate::RID_MODE_INDEX as int] == packet_type_u8(
                    PacketType::Status,
                )) {
                    match n.task {
                        None => m1,
                        Some(t) => {
                            let out = exe_run_spec(t, gather_spec(m.nodes, i));
                            let m2 = ManagerView {
                                nodes: m.nodes.update(i, NodeView { data: out, ..n }),
                                ..m1
                            };
                            if n.stream > 0 {
                                ManagerView {
                                    cache: cache_new_output_spec(
                                        m2.cache,
                                        i,
                                        packet_type_u8(PacketType::Data),
                                        data_payload_spec(
                                            out,
                                            min_int(n.n_outputs as int, MAX_TASK_DATA_FLOATS as int),
                                        ),
                                    ),
                                    ..m2
                                }
                            } else {
                                m2
                            }
                        },
                    }
                } else {
                    m1
                }
            },
            TaskStatus::Standby => m1,
            TaskStatus::Configuration => {
                let n2 = node_configure_spec(n);
                let m2 = ManagerView { nodes: m.nodes.update(i, n2), ..m1 };
                let c2 = cache_new_output_spec(
                    m2.cache,
                    i,
                    packet_type_u8(PacketType::Status),
                    cfg_emit_status_spec(n2.cfg),
                );
                ManagerView { cache: CacheView { context: i, ..c2 }, ..m2 }
            },
        }
    } else {
        m
    }
}

/// The first `i` client spin iterations, slot order.
pub open spec fn spin_iter(m: ManagerView, i: int) -> ManagerView
    decreases i,
{
    if i <= 0 {
        m
    } else {
        spin_step(spin_iter(m, i - 1), i - 1)
    }
}

impl TaskManager {
    /// One client tick over every slot, then one publication: try to
    /// configure or execute each in-use node, cache its outbound packet, and
    /// hand out the next packet of the round-robin scan.
    ///
    /// This is the client-side output interface; its packets are meant for a
    /// host that pairs it with [`TaskManager::collect`].
    #[verifier::loop_isolation(false)]
    pub fn spin(&mut self) -> (r: Option<crate::RIDReport>)
        requires
            mgr_wf(old(self)@),
        ensures
            final(self)@ == (ManagerView {
                cache: publish_spec(
                    spin_iter(old(self)@, MAX_TASKS as int).cache,
                    spin_iter(old(self)@, MAX_TASKS as int).n_nodes,
                ).0,
                ..spin_iter(old(self)@, MAX_TASKS as int)
            }),
            match r {
                Some(p) => publish_spec(
                    spin_iter(old(self)@, MAX_TASKS as int).cache,
                    spin_iter(old(self)@, MAX_TASKS as int).n_nodes,
                ).1 == Some(p@),
                None => publish_spec(
                    spin_iter(old(self)@, MAX_TASKS as int).cache,
                    spin_iter(old(self)@, MAX_TASKS as int).n_nodes,
                ).1 is None,
            },
            mgr_wf(final(self)@),
    {
        let mut i: usize = 0;
        while i < MAX_TASKS
            invariant
                i <= MAX_TASKS,
                self@ == spin_iter(old(self)@, i as int),
                mgr_wf(self@),
                self.n_nodes <= MAX_TASKS,
            decreases MAX_TASKS - i,
        {
            let ghost m0 = self@;
            if self.nodes[i].config_cache.is_init() {
                self.n_nodes = i + 1;
                match self.nodes[i].status {
                    TaskStatus::Panic => {
                        proof {
                            assert forall|j: int| 0 <= j < MAX_TASKS implies cfg_wf(
                                #[trigger] self.nodes@[j]@.cfg,
                            ) by {
                                assert(cfg_wf(self@.nodes[j].cfg));
                            }
                        }
                        let mut t: usize = 0;
                        while t < MAX_TASKS
                            invariant
                                t <= MAX_TASKS,
                                self.n_nodes == i + 1,
                                self.data_cache@ == m0.cache,
                                forall|j: int|
                                    0 <= j < t ==> self.nodes@[j]@ == node_kill_spec(m0.nodes[j]),
                                forall|j: int|
                                    t <= j < MAX_TASKS ==> self.nodes@[j]@ == m0.nodes[j],
                                forall|j: int|
                                    0 <= j < MAX_TASKS ==> cfg_wf(#[trigger] self.nodes@[j]@.cfg),
                            decreases MAX_TASKS - t,
                        {
                            let mut node = self.nodes[t];
                            node.kill();
                            self.nodes[t] = node;
                            t = t + 1;
                        }
                        self.n_nodes = 0;
                        proof {
                            assert(self@ =~~= spin_step(m0, i as int));
                        }
                    },
                    TaskStatus::Active => {
                        if !self.data_cache.status_waiting(i) {
                            let mut inputs: TaskData = [0u32; MAX_TASK_DATA_FLOATS];
                            let n_in: usize = if (self.nodes[i].n_inputs as usize)
                                <= MAX_TASK_DATA_FLOATS {
                                self.nodes[i].n_inputs as usize
                            } else {
                                MAX_TASK_DATA_FLOATS
                            };
                            let mut j: usize = 0;
                            while j < n_in
                                invariant
                                    j <= n_in,
                                    self@ == (ManagerView { n_nodes: i as int + 1, ..m0 }),
                                    n_in == min_int(
                                        m0.nodes[i as int].n_inputs as int,
                                        MAX_TASK_DATA_FLOATS as int,
                                    ),
                                    forall|t: int|
                                        0 <= t < j ==> inputs@[t] == gather_spec(
                                            m0.nodes,
                                            i as int,
                                        )[t],
                                    forall|t: int|
                                        j <= t < MAX_TASK_DATA_FLOATS ==> inputs@[t] == 0u32,
                                decreases n_in - j,
                            {
                                let id = self.nodes[i].inputs[j][0] as usize;
                                let idx = self.nodes[i].inputs[j][1] as usize;
                                if id < MAX_TASKS && idx < MAX_TASK_DATA_FLOATS {
                                    inputs[j] = self.nodes[id].data[idx];
                                }
                                j = j + 1;
                            }
                            proof {
                                assert(inputs@ =~= gather_spec(m0.nodes, i as int));
                            }
                            let has_task = self.nodes[i].task.is_some();
                            if has_task {
                                let out = match &self.nodes[i].task {
                                    Some(task) => task.run(&inputs),
                                    None => [0u32; MAX_TASK_DATA_FLOATS],
                                };
                                let mut node = self.nodes[i];
                                node.data = out;
                                self.nodes[i] = node;
                                if node.stream > 0 {
                                    let k: usize = if (node.n_outputs as usize)
                                        <= MAX_TASK_DATA_FLOATS {
                                        node.n_outputs as usize
                                    } else {
                                        MAX_TASK_DATA_FLOATS
                                    };
                                    let mut payload = [0u8; MAX_TASK_DATA_BYTES];
                                    let mut b: usize = 0;
                                    while b < k
                                        invariant
                                            b <= k,
                                            k <= MAX_TASK_DATA_FLOATS,
                                            node.data@ == out@,
                                            forall|t: int|
                                                0 <= t < b ==> payload@[4 * t] == be_byte0(
                                                    out@[t],
                                                ) && payload@[4 * t + 1] == be_byte1(out@[t])
                                                    && payload@[4 * t + 2] == be_byte2(out@[t])
                                                    && payload@[4 * t + 3] == be_byte3(out@[t]),
                                            forall|u: int|
                                                4 * b <= u < MAX_TASK_DATA_BYTES ==> payload@[u]
                                                    == 0u8,
                                        decreases k - b,
                                    {
                                        let x = node.data[b];
                                        payload[4 * b] = ((x >> 24) & 0xff) as u8;
                                        payload[4 * b + 1] = ((x >> 16) & 0xff) as u8;
                                        payload[4 * b + 2] = ((x >> 8) & 0xff) as u8;
                                        payload[4 * b + 3] = (x & 0xff) as u8;
                                        b = b + 1;
                                    }
                                    proof {
                                        assert forall|u: int|
                                            0 <= u < MAX_TASK_DATA_BYTES implies payload@[u]
                                            == data_payload_spec(out@, k as int)[u] by {
                                            if u < 4 * k {
                                                vstd::arithmetic::div_mod::lemma_fundamental_div_mod(
                                                    u,
                                                    4,
                                                );
                                                vstd::arithmetic::div_mod::lemma_mod_bound(u, 4);
                                                let t = u / 4;
                                                assert(0 <= t < k);
                                                assert(u == 4 * t + u % 4);
                                            }
                                        }
                                        assert(payload@ =~= data_payload_spec(out@, k as int));
                                    }
                                    self.data_cache.new_output(i, PacketType::Data, payload);
                                }
                                proof {
                                    assert(self@ =~~= spin_step(m0, i as int));
                                }
                            } else {
                                proof {
                                    assert(self@ =~~= spin_step(m0, i as int));
                                }
                            }
                        } else {
                            proof {
                                assert(self@ =~~= spin_step(m0, i as int));
                            }
                        }
                    },
                    TaskStatus::Standby => {
                        proof {
                            assert(self@ =~~= spin_step(m0, i as int));
                        }
                    },
                    TaskStatus::Configuration => {
                        let mut node = self.nodes[i];
                        node.configure();
                        self.nodes[i] = node;
                        let status = node.config_cache.emit_status();
                        self.data_cache.new_output(i, PacketType::Status, status);
                        self.data_cache.context = i;
                        proof {
                            assert(self@ =~~= spin_step(m0, i as int));
                        }
                    },
                }
            } else {
                proof {
                    assert(self@ =~~= spin_step(m0, i as int));
                }
            }
            i = i + 1;
        }
        self.data_cache.publish(self.n_nodes)
    }
}

/// The first panicking node at or after `i`, looking below `n`.
pub open spec fn first_panic_from(nodes: Seq<NodeView>, i: int, n: int) -> Option<int>
    decreases n - i,
{
    if i >= n {
        None
    } else if nodes[i].status == TaskStatus::Panic {
        Some(i)
    } else {
        first_panic_from(nodes, i + 1, n)
    }
}

/// With no panicking node below `i`, the scan for one may as well start
/// at `i`.
pub proof fn lemma_first_panic_skip(nodes: Seq<NodeView>, i: int, n: int)
    requires
        0 <= i <= n,
        forall|j: int| 0 <= j < i ==> (#[trigger] nodes[j].status) != TaskStatus::Panic,
    ensures
        first_panic_from(nodes, 0, n) == first_panic_from(nodes, i, n),
    decreases i,
{
    if i > 0 {
        lemma_first_panic_skip(nodes, i - 1, n);
    }
}

/// What one host emission on slot `j` leaves in the cache: a standby node's
/// init packet, a configuring node's next chunk packet, nothing for an
/// active or panicking node.
pub open spec fn control_emit_step(m: ManagerView, cache: CacheView, j: int) -> CacheView {
    let n = m.nodes[j];
    match n.status {
        TaskStatus::Standby => cache_new_output_with_header_spec(
            cache,
            j,
            packet_type_u8(PacketType::Init),
            node_header_spec(n).0,
            node_header_spec(n).1,
        ),
        TaskStatus::Configuration => cache_new_output_with_header_spec(
            cache,
            j,
            packet_type_u8(PacketType::Chunk),
            cfg_emit_chunk_spec(n.cfg).0,
            cfg_emit_chunk_spec(n.cfg).1,
        ),
        _ => cache,
    }
}

/// The cache after host emissions on the first `i` slots.
pub open spec fn control_emit_iter(m: ManagerView, i: int) -> CacheView
    decreases i,
{
    if i <= 0 {
        m.cache
    } else {
        control_emit_step(m, control_emit_iter(m, i - 1), i - 1)
    }
}

/// One host control tick. Live slots emit in order — init packets for
/// standby nodes, chunk packets for configuring nodes — until the first
/// panicking node, if any: that node makes the host kill every live node,
/// cache a single kill packet in slot zero, park the cursor there, zero the
/// live count and publish the kill packet. With no panicking node, the tick
/// ends with one round-robin publication over the live slots.
pub open spec fn control_spin_spec(m: ManagerView) -> (ManagerView, Option<Seq<u8>>) {
    match first_panic_from(m.nodes, 0, m.n_nodes) {
        None => {
            let c1 = control_emit_iter(m, m.n_nodes);
            let pr = publish_spec(c1, m.n_nodes);
            (ManagerView { cache: pr.0, ..m }, pr.1)
        },
        Some(p) => {
            let c1 = control_emit_iter(m, p);
            let killed = Seq::new(
                MAX_TASKS as nat,
                |j: int|
                    if j < m.n_nodes {
                        node_kill_spec(m.nodes[j])
                    } else {
                        m.nodes[j]
                    },
            );
            let c2 = cache_new_output_spec(c1, 0, packet_type_u8(PacketType::Kill), zero_chunk());
            let c3 = CacheView { context: 0, ..c2 };
            let pr = publish_spec(c3, 1);
            (ManagerView { n_nodes: 0, nodes: killed, cache: pr.0 }, pr.1)
        },
    }
}

impl TaskManager {
    /// One host control tick: emit configuration packets for the live
    /// nodes, handle a panicking node by killing everything and publishing
    /// a kill packet, and otherwise publish the next cached packet
    /// round-robin.
    ///
    /// This is the host-side output interface; its packets are meant for a
    /// client that pairs it with [`TaskManager::collect`].
    #[verifier::loop_isolation(false)]
    pub fn control_spin(&mut self) -> (r: Option<crate::RIDReport>)
        requires
            mgr_wf(old(self)@),
        ensures
            final(self)@ == control_spin_spec(old(self)@).0,
            match r {
                Some(p) => control_spin_spec(old(self)@).1 == Some(p@),
                None => control_spin_spec(old(self)@).1 is None,
            },
            mgr_wf(final(self)@),
    {
        let ghost m_init = self@;
        let mut i: usize = 0;
        while i < self.n_nodes
            invariant
                i <= self.n_nodes,
                self.n_nodes == old(self).n_nodes,
                forall|j: int| 0 <= j < MAX_TASKS ==> self.nodes@[j] == old(self).nodes@[j],
                self.data_cache@ == control_emit_iter(m_init, i as int),
                cache_wf(self.data_cache@),
                forall|j: int|
                    0 <= j < i ==> (#[trigger] m_init.nodes[j].status) != TaskStatus::Panic,
            decreases self.n_nodes - i,
        {
            match self.nodes[i].status {
                TaskStatus::Panic => {
                    proof {
                        assert(m_init.nodes[i as int].status == TaskStatus::Panic);
                        lemma_first_panic_skip(m_init.nodes, i as int, m_init.n_nodes);
                        assert(first_panic_from(m_init.nodes, 0, m_init.n_nodes) == Some(
                            i as int,
                        ));
                        assert forall|j: int| 0 <= j < MAX_TASKS implies cfg_wf(
                            #[trigger] self.nodes@[j]@.cfg,
                        ) by {
                            assert(cfg_wf(m_init.nodes[j].cfg));
                        }
                    }
                    let n_live = self.n_nodes;
                    let mut t: usize = 0;
                    while t < n_live
                        invariant
                            t <= n_live,
                            n_live == old(self).n_nodes,
                            n_live <= MAX_TASKS,
                            self.n_nodes == n_live,
                            self.data_cache@ == control_emit_iter(m_init, i as int),
                            forall|j: int|
                                0 <= j < t ==> self.nodes@[j]@ == node_kill_spec(m_init.nodes[j]),
                            forall|j: int|
                                t <= j < MAX_TASKS ==> self.nodes@[j] == old(self).nodes@[j],
                            forall|j: int|
                                0 <= j < MAX_TASKS ==> cfg_wf(#[trigger] self.nodes@[j]@.cfg),
                        decreases n_live - t,
                    {
                        let mut node = self.nodes[t];
                        node.kill();
                        self.nodes[t] = node;
                        t = t + 1;
                    }
                    self.data_cache.new_output(0, PacketType::Kill, [0u8; MAX_TASK_DATA_BYTES]);
                    self.data_cache.context = 0;
                    self.n_nodes = 0;
                    proof {
                        assert(([0u8; MAX_TASK_DATA_BYTES])@ =~= zero_chunk());
                        assert(self.data_cache@ =~~= (CacheView {
                            context: 0int,
                            ..cache_new_output_spec(
                                control_emit_iter(m_init, i as int),
                                0,
                                packet_type_u8(PacketType::Kill),
                                zero_chunk(),
                            )
                        }));
                    }
                    let r = self.data_cache.publish(1);
                    proof {
                        assert(self@.nodes =~~= control_spin_spec(m_init).0.nodes);
                        assert(self@ =~~= control_spin_spec(m_init).0);
                    }
                    return r;
                },
                TaskStatus::Active => {
                    proof {
                        assert(self.data_cache@ =~~= control_emit_iter(m_init, i as int + 1));
                    }
                },
                TaskStatus::Standby => {
                    let (header, data) = self.nodes[i].header();
                    self.data_cache.new_output_with_header(i, PacketType::Init, header, data);
                    proof {
                        assert(self.data_cache@ =~~= control_emit_iter(m_init, i as int + 1));
                    }
                },
                TaskStatus::Configuration => {
                    proof {
                        assert(cfg_wf(m_init.nodes[i as int].cfg));
                    }
                    let (header, data) = self.nodes[i].config_cache.emit_chunk();
                    self.data_cache.new_output_with_header(i, PacketType::Chunk, header, data);
                    proof {
                        assert(self.data_cache@ =~~= control_emit_iter(m_init, i as int + 1));
                    }
                },
            }
            i = i + 1;
        }
        proof {
            lemma_first_panic_skip(m_init.nodes, m_init.n_nodes, m_init.n_nodes);
            assert(first_panic_from(m_init.nodes, 0, m_init.n_nodes) is None);
        }
        let r = self.data_cache.publish(self.n_nodes);
        proof {
            assert(self@ =~~= control_spin_spec(m_init).0);
        }
        r
    }
}

/// A header emitted by a host node decodes on the client into the same
/// shape: absorbing [`TaskNode::header`]'s output through
/// [`TaskNode::init`] reproduces the emitting node's stream flag, rate,
/// input and output counts, driver, and every wire the emitter declared.
pub proof fn lemma_init_header_round_trip(emitter: NodeView, receiver: NodeView)
    requires
        emitter.driver is Some,
        emitter.n_inputs as int <= MAX_TASK_INPUTS,
    ensures
        ({
            let decoded = node_init_spec(
                receiver,
                node_header_spec(emitter).0,
                node_header_spec(emitter).1,
            );
            &&& decoded.stream == emitter.stream
            &&& decoded.rate == emitter.rate
            &&& decoded.n_inputs == emitter.n_inputs
            &&& decoded.n_outputs == emitter.n_outputs
            &&& decoded.driver == emitter.driver
            &&& decoded.status == TaskStatus::Configuration
            &&& forall|i: int|
                0 <= i < emitter.n_inputs as int ==> #[trigger] decoded.inputs[i]
                    == emitter.inputs[i]
        }),
{
    let header = node_header_spec(emitter).0;
    let data = node_header_spec(emitter).1;
    let rate = emitter.rate;
    assert(be_u16(u16_hi(rate), u16_lo(rate)) == rate) by {
        assert(((((((rate >> 8) & 0xff) as u8) as u16) << 8) | (((rate & 0xff) as u8) as u16))
            as u16 == rate) by (bit_vector);
    }
    let d = emitter.driver.unwrap();
    assert(driver_of(driver_u8(d)) == d);
    let decoded = node_init_spec(receiver, header, data);
    assert forall|i: int| 0 <= i < emitter.n_inputs as int implies #[trigger] decoded.inputs[i]
        == emitter.inputs[i] by {
        assert(data[2 * i] == emitter.inputs[i].0);
        assert(data[2 * i + 1] == emitter.inputs[i].1);
    }
}

} // verus!
