//! The order of the steps of one displayed frame. Each step is mandatory and
//! the order is fixed: skipping the pacing wait makes the pool reset unsafe,
//! and advancing the frame counter before submission breaks the pacing
//! values.
use vstd::prelude::*;

verus! {

/// The steps of one displayed frame, in the order they must happen.
#[derive(Clone, Copy, Debug, PartialEq, Eq, Structural)]
pub enum FrameStep {
    /// Wait for the GPU to retire the frame that last used this slot.
    BeginFrame,
    /// Reset the slot's command pool and take a command buffer.
    ResetPool,
    /// Acquire the next presentable image.
    AcquireImage,
    /// Record the frame's commands, bracketed by the layout transitions.
    Record,
    /// Submit with the image's and the pacing semaphores.
    Submit,
    /// Request presentation of the image.
    Present,
    /// Advance the frame counter.
    FinishFrame,
}

pub const STEPS_PER_FRAME: usize = 7;

/// The position of a step within a frame.
pub open spec fn step_position(s: FrameStep) -> nat {
    match s {
        FrameStep::BeginFrame => 0,
        FrameStep::ResetPool => 1,
        FrameStep::AcquireImage => 2,
        FrameStep::Record => 3,
        FrameStep::Submit => 4,
        FrameStep::Present => 5,
        FrameStep::FinishFrame => 6,
    }
}

/// The step at a position within a frame.
pub open spec fn step_at(position: nat) -> FrameStep {
    if position == 0 {
        FrameStep::BeginFrame
    } else if position == 1 {
        FrameStep::ResetPool
    } else if position == 2 {
        FrameStep::AcquireImage
    } else if position == 3 {
        FrameStep::Record
    } else if position == 4 {
        FrameStep::Submit
    } else if position == 5 {
        FrameStep::Present
    } else {
        FrameStep::FinishFrame
    }
}

fn position_of(s: FrameStep) -> (r: usize)
    ensures
        r == step_position(s),
{
    match s {
        FrameStep::BeginFrame => 0,
        FrameStep::ResetPool => 1,
        FrameStep::AcquireImage => 2,
        FrameStep::Record => 3,
        FrameStep::Submit => 4,
        FrameStep::Present => 5,
        FrameStep::FinishFrame => 6,
    }
}

/// Tracks where the frame driver is within the current frame.
pub struct FrameProtocol {
    next: usize,
}

impl View for FrameProtocol {
    type V = nat;

    /// The position of the step that must come next.
    closed spec fn view(&self) -> nat {
        self.next as nat
    }
}

impl FrameProtocol {
    #[verifier::type_invariant]
    spec fn inv(self) -> bool {
        self.next < STEPS_PER_FRAME
    }

    /// At the start of a frame.
    pub fn new() -> (r: FrameProtocol)
        ensures
            r@ == 0,
    {
        FrameProtocol { next: 0 }
    }

    /// The step that must come next.
    pub fn expected(&self) -> (r: FrameStep)
        ensures
            r == step_at(self@),
            self@ < STEPS_PER_FRAME,
    {
        proof {
            use_type_invariant(self);
        }
        match self.next {
            0 => FrameStep::BeginFrame,
            1 => FrameStep::ResetPool,
            2 => FrameStep::AcquireImage,
            3 => FrameStep::Record,
            4 => FrameStep::Submit,
            5 => FrameStep::Present,
            _ => FrameStep::FinishFrame,
        }
    }

    /// Records that `step` happened. Accepted only when it is the expected
    /// step; then the next one is expected, and after the last step of a
    /// frame the first step of the next. A refused step changes nothing and
    /// returns the step that was expected.
    pub fn advance(&mut self, step: FrameStep) -> (r: Result<(), FrameStep>)
        ensures
            old(self)@ < STEPS_PER_FRAME,
            step_position(step) == old(self)@ ==> r is Ok && final(self)@ == (old(self)@ + 1)
                % (STEPS_PER_FRAME as nat),
            step_position(step) != old(self)@ ==> r == Err::<(), FrameStep>(step_at(old(self)@))
                && final(self)@ == old(self)@,
    {
        proof {
            use_type_invariant(&*self);
        }
        let expected = self.expected();
        if position_of(step) != self.next {
            return Err(expected);
        }
        self.next = (self.next + 1) % STEPS_PER_FRAME;
        Ok(())
    }

    /// Gives up the current frame before its work is submitted, for instance
    /// when the present chain turns out to be stale at acquire; the next step
    /// is then the start of a frame. Refused once the work is submitted: that
    /// frame's pacing value is queued, so it must be presented and finished.
    pub fn abandon(&mut self) -> (r: bool)
        ensures
            old(self)@ <= step_position(FrameStep::Submit) ==> r && final(self)@ == 0,
            old(self)@ > step_position(FrameStep::Submit) ==> !r && final(self)@ == old(self)@,
    {
        if self.next > position_of(FrameStep::Submit) {
            return false;
        }
        self.next = 0;
        true
    }
}

/// The protocol state after feeding `steps` to a protocol at position `start`,
/// or `None` once a step is refused.
pub open spec fn run_steps(start: nat, steps: Seq<FrameStep>) -> Option<nat>
    decreases steps.len(),
{
    if steps.len() == 0 {
        Some(start)
    } else {
        match run_steps(start, steps.drop_last()) {
            None => None,
            Some(p) => if step_position(steps.last()) == p {
                Some((p + 1) % (STEPS_PER_FRAME as nat))
            } else {
                None
            },
        }
    }
}

/// A sequence of steps that the protocol accepts from the start of a frame
/// is the frame cycle itself: the `k`-th step is the step at position
/// `k` modulo `STEPS_PER_FRAME`. So every finished frame went through each step once,
/// in order.
pub proof fn lemma_accepted_steps_follow_the_cycle(steps: Seq<FrameStep>)
    requires
        run_steps(0, steps) is Some,
    ensures
        run_steps(0, steps) == Some((steps.len() % (STEPS_PER_FRAME as nat)) as nat),
        forall|k: int|
            0 <= k < steps.len() ==> #[trigger] steps[k] == step_at(
                (k % (STEPS_PER_FRAME as int)) as nat,
            ),
    decreases steps.len(),
{
    if steps.len() > 0 {
        let prefix = steps.drop_last();
        assert(run_steps(0, prefix) is Some);
        lemma_accepted_steps_follow_the_cycle(prefix);
        let p = (prefix.len() % (STEPS_PER_FRAME as nat)) as nat;
        assert(step_position(steps.last()) == p);
        assert(steps.last() == step_at(p)) by {
            match steps.last() {
                FrameStep::BeginFrame => {},
                FrameStep::ResetPool => {},
                FrameStep::AcquireImage => {},
                FrameStep::Record => {},
                FrameStep::Submit => {},
                FrameStep::Present => {},
                FrameStep::FinishFrame => {},
            }
        }
        assert((p + 1) % (STEPS_PER_FRAME as nat) == steps.len() % (STEPS_PER_FRAME as nat));
        assert forall|k: int| 0 <= k < steps.len() implies #[trigger] steps[k] == step_at(
            (k % (STEPS_PER_FRAME as int)) as nat,
        ) by {
            if k < prefix.len() {
                assert(steps[k] == prefix[k]);
            }
        }
    }
}

} // verus!
