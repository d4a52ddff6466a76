use vstd::prelude::*;

verus! {

/// The directional inputs an animation reacts to.
#[derive(Clone, Copy, PartialEq, Eq, Structural)]
pub enum PhysicalInput {
    W,
    A,
    S,
    D,
}

/// `k` is the first position of `s` that holds `x`.
pub open spec fn is_first<T>(s: Seq<T>, x: T, k: int) -> bool {
    &&& 0 <= k < s.len()
    &&& s[k] == x
    &&& forall|l: int| 0 <= l < k ==> s[l] != x
}

/// Chooses the transition of a state machine. States are known by their
/// ids; `rule_inputs[k]` lists, in order, the inputs of the rules of the
/// `k`-th state. The current state is the first state with `current_id`,
/// and the rule taken is its first rule whose input is `input`. Returns the
/// position of the current state and that of the rule taken, if any.
pub fn select_transition(
    state_ids: &Vec<u8>,
    current_id: u8,
    rule_inputs: &Vec<Vec<PhysicalInput>>,
    input: &PhysicalInput,
) -> (r: (usize, Option<usize>))
    requires
        exists|k: int| 0 <= k < state_ids.len() && state_ids[k] == current_id,
        forall|k: int| #[trigger] is_first(state_ids@, current_id, k) ==> k < rule_inputs.len(),
    ensures
        is_first(state_ids@, current_id, r.0 as int),
        r.1 matches Some(j) ==> is_first(rule_inputs[r.0 as int]@, *input, j as int),
        r.1 is None ==> forall|j: int|
            0 <= j < rule_inputs[r.0 as int].len() ==> rule_inputs[r.0 as int][j] != *input,
{
    let mut k: usize = 0;
    while state_ids[k] != current_id
        invariant
            k < state_ids.len(),
            exists|m: int| k <= m < state_ids.len() && state_ids[m] == current_id,
            forall|l: int| 0 <= l < k ==> state_ids[l] != current_id,
        decreases state_ids.len() - k,
    {
        k = k + 1;
    }
    assert(is_first(state_ids@, current_id, k as int));
    let rules = &rule_inputs[k];
    let mut j: usize = 0;
    while j < rules.len()
        invariant
            j <= rules.len(),
            k < rule_inputs.len(),
            *rules == rule_inputs[k as int],
            is_first(state_ids@, current_id, k as int),
            forall|l: int| 0 <= l < j ==> rules[l] != *input,
        decreases rules.len() - j,
    {
        if rules[j] == *input {
            return (k, Some(j));
        }
        j = j + 1;
    }
    (k, None)
}

/// The frame shown after `current_frame` in an animation of `frame_count`
/// frames: the next one, and the first again after the last.
pub fn advance_frame(current_frame: usize, frame_count: usize) -> (r: usize)
    requires
        frame_count >= 1,
    ensures
        r == if current_frame < frame_count - 1 {
            current_frame + 1
        } else {
            0
        },
        r < frame_count,
{
    if current_frame < frame_count - 1 {
        current_frame + 1
    } else {
        0
    }
}

} // verus!
