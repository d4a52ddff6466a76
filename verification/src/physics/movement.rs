use vstd::prelude::*;

verus! {

/// The movement commands a player entity takes.
#[derive(Clone, Copy, PartialEq, Eq, Structural, Debug)]
pub enum MovementInput {
    UpPress,
    UpRelease,
    Left,
    Right,
}

/// The movement flags of a player entity.
#[derive(Clone, Copy, PartialEq, Eq, Structural, Debug)]
pub struct MovementState {
    /// Standing on the ground.
    pub grounded: bool,
    /// The jump key was released since the last jump.
    pub jump_cleared: bool,
    /// A horizontal move was asked for.
    pub horizontal_move: bool,
    /// Facing right.
    pub direction: bool,
}

/// What an input does to the velocity of the entity.
#[derive(Clone, Copy, PartialEq, Eq, Structural, Debug)]
pub enum Impulse {
    /// Set the vertical velocity to the jump speed.
    Jump,
    /// Lower the horizontal velocity by one step.
    Left,
    /// Raise the horizontal velocity by one step.
    Right,
    /// Leave the velocity as it is.
    Stay,
}

/// Applies a movement input to the flags of an entity and says what it does
/// to its velocity. A jump needs the entity on the ground with the jump key
/// released since the last jump; it leaves the ground and needs a new
/// release. Moving left or right turns the entity that way.
pub fn take_input(state: &mut MovementState, input: MovementInput) -> (r: Impulse)
    ensures
        match input {
            MovementInput::UpPress => if old(state).jump_cleared && old(state).grounded {
                &&& r == Impulse::Jump
                &&& *final(state) == (MovementState {
                    grounded: false,
                    jump_cleared: false,
                    ..*old(state)
                })
            } else {
                r == Impulse::Stay && *final(state) == *old(state)
            },
            MovementInput::UpRelease => r == Impulse::Stay && *final(state) == (MovementState {
                jump_cleared: true,
                ..*old(state)
            }),
            MovementInput::Left => r == Impulse::Left && *final(state) == (MovementState {
                direction: false,
                horizontal_move: true,
                ..*old(state)
            }),
            MovementInput::Right => r == Impulse::Right && *final(state) == (MovementState {
                direction: true,
                horizontal_move: true,
                ..*old(state)
            }),
        },
{
    match input {
        MovementInput::UpPress => {
            if state.jump_cleared && state.grounded {
                state.grounded = false;
                state.jump_cleared = false;
                Impulse::Jump
            } else {
                Impulse::Stay
            }
        },
        MovementInput::UpRelease => {
            state.jump_cleared = true;
            Impulse::Stay
        },
        MovementInput::Left => {
            state.direction = false;
            state.horizontal_move = true;
            Impulse::Left
        },
        MovementInput::Right => {
            state.direction = true;
            state.horizontal_move = true;
            Impulse::Right
        },
    }
}

/// The texture corner shown at each corner of the sprite: mirrored when the
/// entity faces left.
pub fn facing_tex_coords(direction: bool) -> (r: [[u8; 2]; 4])
    ensures
        direction ==> r@ == seq![[0u8, 0u8], [0u8, 1u8], [1u8, 0u8], [1u8, 1u8]],
        !direction ==> r@ == seq![[1u8, 0u8], [1u8, 1u8], [0u8, 0u8], [0u8, 1u8]],
{
    if direction {
        [[0, 0], [0, 1], [1, 0], [1, 1]]
    } else {
        [[1, 0], [1, 1], [0, 0], [0, 1]]
    }
}

} // verus!
