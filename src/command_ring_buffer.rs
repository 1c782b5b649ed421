//! Command ring allocator: `FRAMES_IN_FLIGHT` command pools per recording
//! thread, each with a fixed block of primary and secondary command buffers
//! handed out in order and reclaimed by a per-frame reset.
use crate::device::{frame_signal_value, lemma_slot_reuse_safe, Device, DeviceQueue};
use crate::FRAMES_IN_FLIGHT;
use ash::vk;
use vstd::prelude::*;

verus! {

/// Buffers per pool are counted in a byte, so a pool holds at most this many
/// of each level.
pub const MAX_BUFFERS_PER_POOL: usize = 255;

/// Why the allocator refused a request.
#[derive(Clone, Copy, Debug, PartialEq, Eq, Structural)]
pub enum CommandRingError {
    /// More than `MAX_BUFFERS_PER_POOL` buffers of one level per pool.
    TooManyBuffers,
    /// The handle counts would not fit in memory.
    TooManyPools,
    /// The handles handed to `build` do not match the layout.
    HandleCountMismatch,
    /// The GPU may still be executing the work that last used this pool.
    PoolInFlight,
}

/// Configuration of the allocator, with its defaults set by `new`.
pub struct CommandRingBufferBuilder {
    /// Recording threads; each gets `FRAMES_IN_FLIGHT` pools.
    pub num_threads: usize,
    pub primary_buffers_per_pool: usize,
    pub secondary_buffers_per_pool: usize,
    /// The queue whose family the pools are created for.
    pub queue: DeviceQueue,
}

/// The pools and buffers to create for a valid configuration.
#[derive(Clone, Copy, Debug, PartialEq, Eq, Structural)]
pub struct RingLayout {
    pub num_pools: usize,
    pub primary_buffers_per_pool: usize,
    pub secondary_buffers_per_pool: usize,
    pub queue_family: u32,
}

/// The first rule a configuration breaks, if any. A configuration without
/// threads or without primary buffers is a programming error, which `layout`
/// and `build` do not accept at all.
pub open spec fn layout_error(b: CommandRingBufferBuilder) -> Option<CommandRingError> {
    let pools = b.num_threads * FRAMES_IN_FLIGHT;
    if b.primary_buffers_per_pool > MAX_BUFFERS_PER_POOL
        || b.secondary_buffers_per_pool > MAX_BUFFERS_PER_POOL {
        Some(CommandRingError::TooManyBuffers)
    } else if pools > usize::MAX || pools * b.primary_buffers_per_pool > usize::MAX || pools
        * b.secondary_buffers_per_pool > usize::MAX {
        Some(CommandRingError::TooManyPools)
    } else {
        None
    }
}

/// The pool that `thread` records into during frame `frame`.
pub open spec fn pool_index(thread: int, frame: int) -> int {
    thread * FRAMES_IN_FLIGHT + crate::slot_of(frame)
}

/// The abstract state of the allocator.
pub struct RingState {
    pub num_threads: nat,
    pub pools: Seq<vk::CommandPool>,
    /// Pool `p` owns `primary[p * primary_per_pool ..][.. primary_per_pool]`.
    pub primary: Seq<vk::CommandBuffer>,
    pub secondary: Seq<vk::CommandBuffer>,
    /// How many buffers each pool has handed out since its last reset.
    pub used_primary: Seq<nat>,
    pub used_secondary: Seq<nat>,
    pub primary_per_pool: nat,
    pub secondary_per_pool: nat,
}

impl RingState {
    /// Every pool owns a full block of each level, and no cursor runs past
    /// its block.
    pub open spec fn wf(self) -> bool {
        &&& self.num_threads >= 1
        &&& self.pools.len() == self.num_threads * FRAMES_IN_FLIGHT
        &&& 1 <= self.primary_per_pool <= MAX_BUFFERS_PER_POOL
        &&& self.secondary_per_pool <= MAX_BUFFERS_PER_POOL
        &&& self.primary.len() == self.pools.len() * self.primary_per_pool
        &&& self.secondary.len() == self.pools.len() * self.secondary_per_pool
        &&& self.used_primary.len() == self.pools.len()
        &&& self.used_secondary.len() == self.pools.len()
        &&& forall|p: int|
            0 <= p < self.pools.len() ==> #[trigger] self.used_primary[p] <= self.primary_per_pool
        &&& forall|p: int|
            0 <= p < self.pools.len() ==> #[trigger] self.used_secondary[p]
                <= self.secondary_per_pool
    }

    pub open spec fn reset(self, p: int) -> RingState {
        RingState {
            used_primary: self.used_primary.update(p, 0),
            used_secondary: self.used_secondary.update(p, 0),
            ..self
        }
    }

    pub open spec fn primary_available(self, p: int) -> bool {
        self.used_primary[p] < self.primary_per_pool
    }

    pub open spec fn next_primary(self, p: int) -> vk::CommandBuffer {
        self.primary[p * self.primary_per_pool + self.used_primary[p]]
    }

    pub open spec fn take_primary(self, p: int) -> RingState {
        RingState { used_primary: self.used_primary.update(p, self.used_primary[p] + 1), ..self }
    }

    pub open spec fn secondary_available(self, p: int) -> bool {
        self.used_secondary[p] < self.secondary_per_pool
    }

    pub open spec fn next_secondary(self, p: int) -> vk::CommandBuffer {
        self.secondary[p * self.secondary_per_pool + self.used_secondary[p]]
    }

    pub open spec fn take_secondary(self, p: int) -> RingState {
        RingState {
            used_secondary: self.used_secondary.update(p, self.used_secondary[p] + 1),
            ..self
        }
    }
}

/// The state after `n` primary requests on pool `p`; a request past the
/// quota is refused and changes nothing.
pub open spec fn primary_requests(s: RingState, p: int, n: nat) -> RingState
    decreases n,
{
    if n == 0 {
        s
    } else {
        let t = primary_requests(s, p, (n - 1) as nat);
        if t.primary_available(p) {
            t.take_primary(p)
        } else {
            t
        }
    }
}

/// Within one frame a pool hands out exactly its configured number of
/// primary buffers: from a freshly reset pool the `k`-th request is admitted
/// (`primary_available` holds for it) if and only if `k` is at most the
/// capacity, so the request after the last one is refused every time, and a
/// reset admits requests again.
pub proof fn lemma_primary_quota(s: RingState, p: int, k: nat)
    requires
        0 <= p < s.used_primary.len(),
        s.used_primary[p] == 0,
        s.primary_per_pool >= 1,
    ensures
        primary_requests(s, p, k).used_primary.len() == s.used_primary.len(),
        primary_requests(s, p, k).primary_per_pool == s.primary_per_pool,
        primary_requests(s, p, k).used_primary[p] == if k < s.primary_per_pool {
            k
        } else {
            s.primary_per_pool
        },
        k >= 1 ==> (primary_requests(s, p, (k - 1) as nat).primary_available(p) <==> k
            <= s.primary_per_pool),
        primary_requests(s, p, k).reset(p).primary_available(p),
    decreases k,
{
    if k > 0 {
        lemma_primary_quota(s, p, (k - 1) as nat);
    }
}

/// Per-thread, per-frame command pools with preallocated buffers.
pub struct CommandRingBuffer {
    num_threads: usize,
    command_pools: Vec<vk::CommandPool>,
    primary_buffers: Vec<vk::CommandBuffer>,
    secondary_buffers: Vec<vk::CommandBuffer>,
    used_primary_offset: Vec<u8>,
    used_secondary_offset: Vec<u8>,
    primary_buffers_per_pool: u8,
    secondary_buffers_per_pool: u8,
}

impl View for CommandRingBuffer {
    type V = RingState;

    closed spec fn view(&self) -> RingState {
        RingState {
            num_threads: self.num_threads as nat,
            pools: self.command_pools@,
            primary: self.primary_buffers@,
            secondary: self.secondary_buffers@,
            used_primary: self.used_primary_offset@.map_values(|u: u8| u as nat),
            used_secondary: self.used_secondary_offset@.map_values(|u: u8| u as nat),
            primary_per_pool: self.primary_buffers_per_pool as nat,
            secondary_per_pool: self.secondary_buffers_per_pool as nat,
        }
    }
}

proof fn lemma_block_in_range(p: int, per: int, used: int, pools: int)
    requires
        0 <= p < pools,
        0 <= used < per,
    ensures
        0 <= p * per + used < pools * per,
{
    assert(p * per + used < pools * per) by (nonlinear_arith)
        requires
            0 <= p < pools,
            0 <= used < per,
    ;
    assert(0 <= p * per) by (nonlinear_arith)
        requires
            0 <= p,
            0 <= used < per,
    ;
}

impl CommandRingBufferBuilder {
    /// One thread, one primary and no secondary buffer per pool, on the
    /// device's graphics queue.
    pub fn new(device: &Device) -> (r: CommandRingBufferBuilder)
        ensures
            r.num_threads == 1,
            r.primary_buffers_per_pool == 1,
            r.secondary_buffers_per_pool == 0,
            r.queue == device@.graphics_queue,
    {
        CommandRingBufferBuilder {
            num_threads: 1,
            primary_buffers_per_pool: 1,
            secondary_buffers_per_pool: 0,
            queue: device.graphics_queue(),
        }
    }

    pub fn queue(self, queue: DeviceQueue) -> (r: CommandRingBufferBuilder)
        ensures
            r == (CommandRingBufferBuilder { queue, ..self }),
    {
        CommandRingBufferBuilder { queue, ..self }
    }

    /// Sets the number of recording threads.
    pub fn num_pools(self, pool_count: usize) -> (r: CommandRingBufferBuilder)
        ensures
            r == (CommandRingBufferBuilder { num_threads: pool_count, ..self }),
    {
        CommandRingBufferBuilder { num_threads: pool_count, ..self }
    }

    pub fn primary_buffers_per_pool(self, buffer_count: usize) -> (r: CommandRingBufferBuilder)
        ensures
            r == (CommandRingBufferBuilder { primary_buffers_per_pool: buffer_count, ..self }),
    {
        CommandRingBufferBuilder { primary_buffers_per_pool: buffer_count, ..self }
    }

    pub fn secondary_buffers_per_pool(self, buffer_count: usize) -> (r: CommandRingBufferBuilder)
        ensures
            r == (CommandRingBufferBuilder { secondary_buffers_per_pool: buffer_count, ..self }),
    {
        CommandRingBufferBuilder { secondary_buffers_per_pool: buffer_count, ..self }
    }

    /// Validates the configuration and says what to create for it, before
    /// any native object exists.
    pub fn layout(&self) -> (r: Result<RingLayout, CommandRingError>)
        requires
            self.num_threads >= 1,
            self.primary_buffers_per_pool >= 1,
        ensures
            match layout_error(*self) {
                Some(e) => r == Err::<RingLayout, CommandRingError>(e),
                None => r == Ok::<RingLayout, CommandRingError>(
                    RingLayout {
                        num_pools: (self.num_threads * FRAMES_IN_FLIGHT) as usize,
                        primary_buffers_per_pool: self.primary_buffers_per_pool,
                        secondary_buffers_per_pool: self.secondary_buffers_per_pool,
                        queue_family: self.queue.family,
                    },
                ),
            },
    {
        if self.primary_buffers_per_pool > MAX_BUFFERS_PER_POOL
            || self.secondary_buffers_per_pool > MAX_BUFFERS_PER_POOL {
            return Err(CommandRingError::TooManyBuffers);
        }
        if self.num_threads > usize::MAX / FRAMES_IN_FLIGHT {
            return Err(CommandRingError::TooManyPools);
        }
        let num_pools = self.num_threads * FRAMES_IN_FLIGHT;
        let primary = self.primary_buffers_per_pool;
        let secondary = self.secondary_buffers_per_pool;
        if num_pools > usize::MAX / primary {
            proof {
                lemma_exceeds_max(num_pools as int, primary as int);
            }
            return Err(CommandRingError::TooManyPools);
        }
        if secondary > 0 && num_pools > usize::MAX / secondary {
            proof {
                lemma_exceeds_max(num_pools as int, secondary as int);
            }
            return Err(CommandRingError::TooManyPools);
        }
        proof {
            lemma_within_max(num_pools as int, primary as int);
            if secondary > 0 {
                lemma_within_max(num_pools as int, secondary as int);
            }
        }
        Ok(
            RingLayout {
                num_pools,
                primary_buffers_per_pool: primary,
                secondary_buffers_per_pool: secondary,
                queue_family: self.queue.family,
            },
        )
    }

    /// Takes the pools and buffers created for `layout()`, in pool order, and
    /// assembles the allocator with every pool's cursor at zero.
    pub fn build(
        self,
        command_pools: Vec<vk::CommandPool>,
        primary_buffers: Vec<vk::CommandBuffer>,
        secondary_buffers: Vec<vk::CommandBuffer>,
    ) -> (r: Result<CommandRingBuffer, CommandRingError>)
        requires
            self.num_threads >= 1,
            self.primary_buffers_per_pool >= 1,
        ensures
            layout_error(self) matches Some(e) ==> (r matches Err(f) && f == e),
            layout_error(self) is None ==> {
                let pools = self.num_threads * FRAMES_IN_FLIGHT;
                let matching = command_pools@.len() == pools && primary_buffers@.len() == pools
                    * self.primary_buffers_per_pool && secondary_buffers@.len() == pools
                    * self.secondary_buffers_per_pool;
                &&& !matching ==> (r matches Err(f) && f == CommandRingError::HandleCountMismatch)
                &&& matching ==> (r matches Ok(ring) && ring@.wf() && ring@ == (RingState {
                    num_threads: self.num_threads as nat,
                    pools: command_pools@,
                    primary: primary_buffers@,
                    secondary: secondary_buffers@,
                    used_primary: Seq::new(pools as nat, |i: int| 0nat),
                    used_secondary: Seq::new(pools as nat, |i: int| 0nat),
                    primary_per_pool: self.primary_buffers_per_pool as nat,
                    secondary_per_pool: self.secondary_buffers_per_pool as nat,
                }))
            },
    {
        let layout = match self.layout() {
            Ok(l) => l,
            Err(e) => return Err(e),
        };
        let num_pools = layout.num_pools;
        if command_pools.len() != num_pools || primary_buffers.len() != num_pools
            * layout.primary_buffers_per_pool || secondary_buffers.len() != num_pools
            * layout.secondary_buffers_per_pool {
            return Err(CommandRingError::HandleCountMismatch);
        }
        let used_primary_offset = zeroed(num_pools);
        let used_secondary_offset = zeroed(num_pools);
        let ring = CommandRingBuffer {
            num_threads: self.num_threads,
            command_pools,
            primary_buffers,
            secondary_buffers,
            used_primary_offset,
            used_secondary_offset,
            primary_buffers_per_pool: layout.primary_buffers_per_pool as u8,
            secondary_buffers_per_pool: layout.secondary_buffers_per_pool as u8,
        };
        proof {
            assert(ring@.used_primary =~= Seq::new(num_pools as nat, |i: int| 0nat));
            assert(ring@.used_secondary =~= Seq::new(num_pools as nat, |i: int| 0nat));
        }
        Ok(ring)
    }
}

proof fn lemma_exceeds_max(n: int, k: int)
    requires
        k > 0,
        n > (usize::MAX as int) / k,
    ensures
        n * k > usize::MAX,
{
    assert(n * k > usize::MAX) by (nonlinear_arith)
        requires
            k > 0,
            n > (usize::MAX as int) / k,
    ;
}

proof fn lemma_within_max(n: int, k: int)
    requires
        k > 0,
        0 <= n <= (usize::MAX as int) / k,
    ensures
        n * k <= usize::MAX,
{
    assert(n * k <= usize::MAX) by (nonlinear_arith)
        requires
            k > 0,
            0 <= n <= (usize::MAX as int) / k,
    ;
}

fn zeroed(n: usize) -> (r: Vec<u8>)
    ensures
        r@ == Seq::new(n as nat, |i: int| 0u8),
{
    let mut r: Vec<u8> = Vec::new();
    let mut i: usize = 0;
    while i < n
        invariant
            i <= n,
            r@ == Seq::new(i as nat, |j: int| 0u8),
        decreases n - i,
    {
        r.push(0);
        i += 1;
        assert(r@ =~= Seq::new(i as nat, |j: int| 0u8));
    }
    r
}

impl CommandRingBuffer {
    pub fn builder(device: &Device) -> (r: CommandRingBufferBuilder)
        ensures
            r.num_threads == 1,
            r.primary_buffers_per_pool == 1,
            r.secondary_buffers_per_pool == 0,
            r.queue == device@.graphics_queue,
    {
        CommandRingBufferBuilder::new(device)
    }

    /// All pools, for destruction at shutdown.
    pub fn command_pools(&self) -> (r: &Vec<vk::CommandPool>)
        ensures
            r@ == self@.pools,
    {
        &self.command_pools
    }

    pub fn num_threads(&self) -> (r: usize)
        ensures
            r == self@.num_threads,
    {
        self.num_threads
    }

    fn pool_from_indices(&self, frame_index: usize, thread_index: usize) -> (r: usize)
        requires
            self@.wf(),
            thread_index < self@.num_threads,
        ensures
            r == pool_index(thread_index as int, frame_index as int),
            r < self@.pools.len(),
    {
        let pools = self.command_pools.len();
        assert(thread_index * FRAMES_IN_FLIGHT + FRAMES_IN_FLIGHT <= pools);
        thread_index * FRAMES_IN_FLIGHT + frame_index % FRAMES_IN_FLIGHT
    }

    /// Reclaims every buffer of the pool that `thread_index` uses in the
    /// device's current frame, and returns that pool for the GPU-side reset.
    /// Refused while the GPU may still run the frame that last used the pool.
    pub fn reset_pool(&mut self, device: &Device, thread_index: usize) -> (r: Result<
        vk::CommandPool,
        CommandRingError,
    >)
        requires
            old(self)@.wf(),
            thread_index < old(self)@.num_threads,
        ensures
            final(self)@.wf(),
            ({
                let p = pool_index(thread_index as int, device@.frame_index as int);
                if device@.slot_retired() {
                    &&& r == Ok::<vk::CommandPool, CommandRingError>(old(self)@.pools[p])
                    &&& final(self)@ == old(self)@.reset(p)
                } else {
                    &&& r == Err::<vk::CommandPool, CommandRingError>(
                        CommandRingError::PoolInFlight,
                    )
                    &&& final(self)@ == old(self)@
                }
            }),
            r is Ok ==> forall|g: int|
                0 <= g < device@.frame_index && crate::slot_of(g) == crate::slot_of(
                    device@.frame_index as int,
                ) ==> #[trigger] frame_signal_value(g) <= device@.completed_value,
    {
        if !device.pool_reuse_safe() {
            return Err(CommandRingError::PoolInFlight);
        }
        proof {
            if device@.frame_index >= FRAMES_IN_FLIGHT {
                lemma_slot_reuse_safe(device@.frame_index as int, device@.completed_value as int);
            }
        }
        let pool_index = self.pool_from_indices(device.absolute_frame_index(), thread_index);
        self.used_primary_offset.set(pool_index, 0);
        self.used_secondary_offset.set(pool_index, 0);
        proof {
            assert(self@.used_primary =~= old(self)@.reset(pool_index as int).used_primary);
            assert(self@.used_secondary =~= old(self)@.reset(pool_index as int).used_secondary);
        }
        Ok(self.command_pools[pool_index])
    }

    /// Whether the pool `thread_index` records into this frame still has an
    /// unused primary buffer.
    pub fn primary_available(&self, device: &Device, thread_index: usize) -> (r: bool)
        requires
            self@.wf(),
            thread_index < self@.num_threads,
        ensures
            r == self@.primary_available(pool_index(thread_index as int, device@.frame_index as int)),
    {
        let pool_index = self.pool_from_indices(device.absolute_frame_index(), thread_index);
        self.used_primary_offset[pool_index] < self.primary_buffers_per_pool
    }

    /// Whether the pool `thread_index` records into this frame still has an
    /// unused secondary buffer.
    pub fn secondary_available(&self, device: &Device, thread_index: usize) -> (r: bool)
        requires
            self@.wf(),
            thread_index < self@.num_threads,
        ensures
            r == self@.secondary_available(
                pool_index(thread_index as int, device@.frame_index as int),
            ),
    {
        let pool_index = self.pool_from_indices(device.absolute_frame_index(), thread_index);
        self.used_secondary_offset[pool_index] < self.secondary_buffers_per_pool
    }

    /// The next unused primary buffer of the current frame's pool for
    /// `thread_index`. Asking past the pool's quota within a frame is a
    /// programming error: the quota is fixed at construction.
    pub fn get_next_primary_buffer(&mut self, device: &Device, thread_index: usize) -> (r:
        vk::CommandBuffer)
        requires
            old(self)@.wf(),
            thread_index < old(self)@.num_threads,
            old(self)@.primary_available(
                pool_index(thread_index as int, device@.frame_index as int),
            ),
        ensures
            final(self)@.wf(),
            ({
                let p = pool_index(thread_index as int, device@.frame_index as int);
                &&& r == old(self)@.next_primary(p)
                &&& final(self)@ == old(self)@.take_primary(p)
            }),
    {
        let pool_index = self.pool_from_indices(device.absolute_frame_index(), thread_index);
        let used = self.used_primary_offset[pool_index];
        let per_pool = self.primary_buffers_per_pool as usize;
        let total = self.primary_buffers.len();
        proof {
            lemma_block_in_range(
                pool_index as int,
                per_pool as int,
                used as int,
                self.command_pools@.len() as int,
            );
        }
        assert(pool_index * per_pool + used < total);
        let cmd = self.primary_buffers[pool_index * per_pool + used as usize];
        self.used_primary_offset.set(pool_index, used + 1);
        proof {
            assert(self@.used_primary =~= old(self)@.take_primary(pool_index as int).used_primary);
        }
        cmd
    }

    /// The next unused secondary buffer of the current frame's pool for
    /// `thread_index`. Asking past the pool's quota within a frame is a
    /// programming error: the quota is fixed at construction.
    pub fn get_next_secondary_buffer(&mut self, device: &Device, thread_index: usize) -> (r:
        vk::CommandBuffer)
        requires
            old(self)@.wf(),
            thread_index < old(self)@.num_threads,
            old(self)@.secondary_available(
                pool_index(thread_index as int, device@.frame_index as int),
            ),
        ensures
            final(self)@.wf(),
            ({
                let p = pool_index(thread_index as int, device@.frame_index as int);
                &&& r == old(self)@.next_secondary(p)
                &&& final(self)@ == old(self)@.take_secondary(p)
            }),
    {
        let pool_index = self.pool_from_indices(device.absolute_frame_index(), thread_index);
        let used = self.used_secondary_offset[pool_index];
        let per_pool = self.secondary_buffers_per_pool as usize;
        let total = self.secondary_buffers.len();
        proof {
            lemma_block_in_range(
                pool_index as int,
                per_pool as int,
                used as int,
                self.command_pools@.len() as int,
            );
        }
        assert(pool_index * per_pool + used < total);
        let cmd = self.secondary_buffers[pool_index * per_pool + used as usize];
        self.used_secondary_offset.set(pool_index, used + 1);
        proof {
            assert(self@.used_secondary =~= old(self)@.take_secondary(
                pool_index as int,
            ).used_secondary);
        }
        cmd
    }
}

} // verus!
