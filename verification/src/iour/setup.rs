//! How the ring is set up.

use crate::config::ProactorBuilder;
use crate::error::Error;
use vstd::prelude::*;

verus! {

/// The setup of a ring.
#[derive(Clone, Copy, Debug, PartialEq, Eq)]
pub struct RingSetup {
    /// Submission entries.
    pub entries: u32,
    /// Idle time of the kernel's submission thread in milliseconds, where one
    /// is wanted.
    pub sqpoll: Option<u32>,
    /// The processor that thread is bound to.
    pub sqpoll_cpu: Option<u32>,
    pub single_issuer: bool,
    pub defer_taskrun: bool,
    pub coop_taskrun: bool,
    pub taskrun_flag: bool,
    /// Completion entries.
    pub cqsize: Option<u32>,
    /// The ring is not inherited by child processes.
    pub dontfork: bool,
    /// An event descriptor to register once the ring is there.
    pub eventfd: Option<i32>,
}

/// The setup that the settings ask for. A processor is chosen only for a kernel
/// submission thread, and work is deferred only where a single thread submits.
/// An idle time beyond 32 bits keeps its low ones.
pub open spec fn setup_of(builder: &ProactorBuilder) -> RingSetup {
    RingSetup {
        entries: builder.capacity,
        sqpoll: match builder.sqpoll_idle {
            Some(idle) => Some((idle.millis() % 0x1_0000_0000) as u32),
            None => None,
        },
        sqpoll_cpu: if builder.sqpoll_idle is Some {
            builder.sqpoll_cpu
        } else {
            None
        },
        single_issuer: builder.single_issuer,
        defer_taskrun: builder.single_issuer && builder.defer_taskrun,
        coop_taskrun: builder.coop_taskrun,
        taskrun_flag: builder.taskrun_flag,
        cqsize: builder.cqsize,
        dontfork: true,
        eventfd: builder.eventfd,
    }
}

/// The setup that the settings ask for.
pub fn ring_setup(builder: &ProactorBuilder) -> (setup: RingSetup)
    ensures
        setup == setup_of(builder),
{
    let mut setup = RingSetup {
        entries: builder.capacity,
        sqpoll: None,
        sqpoll_cpu: None,
        single_issuer: false,
        defer_taskrun: false,
        coop_taskrun: false,
        taskrun_flag: false,
        cqsize: builder.cqsize,
        dontfork: true,
        eventfd: builder.eventfd,
    };
    if let Some(idle) = builder.sqpoll_idle {
        let millis: u128 = idle.as_millis();
        assert(millis as u32 == millis % 0x1_0000_0000) by (bit_vector);
        #[verifier::truncate]
        let low: u32 = millis as u32;
        setup.sqpoll = Some(low);
        if let Some(cpu) = builder.sqpoll_cpu {
            setup.sqpoll_cpu = Some(cpu);
        }
    }
    if builder.single_issuer {
        setup.single_issuer = true;
        if builder.defer_taskrun {
            setup.defer_taskrun = true;
        }
    }
    if builder.coop_taskrun {
        setup.coop_taskrun = true;
    }
    if builder.taskrun_flag {
        setup.taskrun_flag = true;
    }
    setup
}

/// The operations that the ring supports, by code.
#[derive(Debug)]
pub struct Probe {
    pub supported: Vec<bool>,
}

impl Probe {
    /// The operation with this code is supported.
    pub open spec fn has(self, code: u8) -> bool {
        code < self.supported@.len() && self.supported@[code as int]
    }

    /// Whether the operation with this code is supported.
    pub fn is_op_supported(&self, code: u8) -> (supported: bool)
        ensures
            supported == self.has(code),
    {
        (code as usize) < self.supported.len() && self.supported[code as usize]
    }
}

/// Fails on the first operation that is asked for and that the ring does not
/// support.
pub fn check_codes(builder: &ProactorBuilder, probe: &Probe) -> (checked: Result<(), Error>)
    ensures
        checked is Ok <==> forall|i: int|
            0 <= i < builder.op_codes@.len() ==> probe.has(#[trigger] builder.op_codes@[i]),
        checked matches Err(e) ==> exists|i: int|
            0 <= i < builder.op_codes@.len() && !probe.has(#[trigger] builder.op_codes@[i]) && e
                == (Error::UnsupportedOpcode { opcode: builder.op_codes@[i] }) && forall|j: int|
                0 <= j < i ==> probe.has(#[trigger] builder.op_codes@[j]),
{
    let mut i: usize = 0;
    while i < builder.op_codes.len()
        invariant
            i <= builder.op_codes@.len(),
            forall|j: int| 0 <= j < i ==> probe.has(#[trigger] builder.op_codes@[j]),
        decreases builder.op_codes@.len() - i,
    {
        let opcode: u8 = builder.op_codes[i];
        if !probe.is_op_supported(opcode) {
            assert(!probe.has(builder.op_codes@[i as int]));
            return Err(Error::UnsupportedOpcode { opcode });
        }
        i = i + 1;
    }
    Ok(())
}

} // verus!
