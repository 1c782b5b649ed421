use bonfire::frame::{FrameProtocol, FrameStep, STEPS_PER_FRAME};

const CYCLE: [FrameStep; 7] = [
    FrameStep::BeginFrame,
    FrameStep::ResetPool,
    FrameStep::AcquireImage,
    FrameStep::Record,
    FrameStep::Submit,
    FrameStep::Present,
    FrameStep::FinishFrame,
];

#[test]
fn steps_in_order_are_accepted_frame_after_frame() {
    let mut p = FrameProtocol::new();
    assert_eq!(STEPS_PER_FRAME, 7);
    for _ in 0..3 {
        for step in CYCLE {
            assert_eq!(p.expected(), step);
            assert_eq!(p.advance(step), Ok(()));
        }
    }
    assert_eq!(p.expected(), FrameStep::BeginFrame);
}

#[test]
fn out_of_order_steps_are_refused() {
    let mut p = FrameProtocol::new();
    assert_eq!(p.advance(FrameStep::ResetPool), Err(FrameStep::BeginFrame));
    assert_eq!(p.advance(FrameStep::BeginFrame), Ok(()));
    assert_eq!(p.advance(FrameStep::FinishFrame), Err(FrameStep::ResetPool));
    assert_eq!(p.advance(FrameStep::ResetPool), Ok(()));
    assert_eq!(p.advance(FrameStep::Submit), Err(FrameStep::AcquireImage));
    assert_eq!(p.expected(), FrameStep::AcquireImage);
}

#[test]
fn abandon_only_before_submission() {
    let mut p = FrameProtocol::new();
    p.advance(FrameStep::BeginFrame).unwrap();
    p.advance(FrameStep::ResetPool).unwrap();
    assert!(p.abandon());
    assert_eq!(p.expected(), FrameStep::BeginFrame);
    for step in &CYCLE[..5] {
        p.advance(*step).unwrap();
    }
    assert!(!p.abandon());
    assert_eq!(p.expected(), FrameStep::Present);
}
