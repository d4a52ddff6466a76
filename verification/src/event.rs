use vstd::prelude::*;

verus! {

/// The window events the game loop reacts to.
#[derive(Clone, Copy, PartialEq, Eq, Structural, Debug)]
pub enum WindowSignal {
    CloseRequested,
    Resized(u32, u32),
    MainEventsCleared,
    Other,
}

/// What the game loop does on an event.
#[derive(Clone, Copy, PartialEq, Eq, Structural, Debug)]
pub enum LoopAction {
    /// Leave the loop.
    Exit,
    /// Rebuild the swapchain and tell the game its new size.
    Resize(u32, u32),
    /// Update the game, draw a frame, and wait out the rest of the frame.
    RunFrame,
    /// Nothing to do.
    Nothing,
}

/// The length of a frame, in microseconds.
pub const FRAME_MICROS: u64 = 16000;

/// Decides what the game loop does on an event.
pub fn next_action(signal: WindowSignal) -> (r: LoopAction)
    ensures
        r == (match signal {
            WindowSignal::CloseRequested => LoopAction::Exit,
            WindowSignal::Resized(w, h) => LoopAction::Resize(w, h),
            WindowSignal::MainEventsCleared => LoopAction::RunFrame,
            WindowSignal::Other => LoopAction::Nothing,
        }),
{
    match signal {
        WindowSignal::CloseRequested => LoopAction::Exit,
        WindowSignal::Resized(w, h) => LoopAction::Resize(w, h),
        WindowSignal::MainEventsCleared => LoopAction::RunFrame,
        WindowSignal::Other => LoopAction::Nothing,
    }
}

/// How long to wait after a frame that took `elapsed` microseconds, so that
/// frames start every `FRAME_MICROS` microseconds; no wait after a frame
/// that took that long or longer.
pub fn frame_sleep_micros(elapsed: u64) -> (r: u64)
    ensures
        r == if elapsed < FRAME_MICROS {
            FRAME_MICROS - elapsed
        } else {
            0
        },
        elapsed + r == FRAME_MICROS || (r == 0 && elapsed >= FRAME_MICROS),
{
    if elapsed < FRAME_MICROS {
        FRAME_MICROS - elapsed
    } else {
        0
    }
}

} // verus!
