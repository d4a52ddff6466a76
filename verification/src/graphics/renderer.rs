use vstd::prelude::*;

verus! {

/// The kinds of devices that can render.
#[derive(Clone, Copy, PartialEq, Eq, Structural, Debug)]
pub enum DeviceType {
    DiscreteGpu,
    IntegratedGpu,
    VirtualGpu,
    Cpu,
    Other,
}

/// How much a device of kind `t` is preferred: lower is better.
pub open spec fn spec_device_rank(t: DeviceType) -> nat {
    match t {
        DeviceType::DiscreteGpu => 0,
        DeviceType::IntegratedGpu => 1,
        DeviceType::VirtualGpu => 2,
        DeviceType::Cpu => 3,
        DeviceType::Other => 4,
    }
}

/// Devices are preferred in this order: discrete GPUs, then integrated GPUs,
/// then virtual GPUs, then CPUs, then any other kind.
pub proof fn lemma_device_preference_order()
    ensures
        spec_device_rank(DeviceType::DiscreteGpu) < spec_device_rank(DeviceType::IntegratedGpu),
        spec_device_rank(DeviceType::IntegratedGpu) < spec_device_rank(DeviceType::VirtualGpu),
        spec_device_rank(DeviceType::VirtualGpu) < spec_device_rank(DeviceType::Cpu),
        spec_device_rank(DeviceType::Cpu) < spec_device_rank(DeviceType::Other),
{
}

/// The rank of a kind of device: its place in the order of preference,
/// counted from zero.
pub fn device_rank(t: DeviceType) -> (r: u32)
    ensures
        r == spec_device_rank(t),
        t == DeviceType::DiscreteGpu ==> r == 0,
        t == DeviceType::IntegratedGpu ==> r == 1,
        t == DeviceType::VirtualGpu ==> r == 2,
        t == DeviceType::Cpu ==> r == 3,
        t == DeviceType::Other ==> r == 4,
{
    match t {
        DeviceType::DiscreteGpu => 0,
        DeviceType::IntegratedGpu => 1,
        DeviceType::VirtualGpu => 2,
        DeviceType::Cpu => 3,
        DeviceType::Other => 4,
    }
}

/// Picks the device to render with among the suitable ones, given their
/// kinds: the first of the most preferred kind; `None` when there is none.
pub fn pick_device(types: &Vec<DeviceType>) -> (r: Option<usize>)
    ensures
        r is None <==> types.len() == 0,
        r matches Some(i) ==> i < types.len() && (forall|j: int|
            0 <= j < types.len() ==> spec_device_rank(types[i as int]) <= spec_device_rank(
                #[trigger] types[j],
            )) && (forall|j: int|
            0 <= j < i ==> spec_device_rank(types[i as int]) < spec_device_rank(
                #[trigger] types[j],
            )),
{
    if types.len() == 0 {
        return None;
    }
    let mut best: usize = 0;
    let mut best_rank = device_rank(types[0]);
    let mut k: usize = 1;
    while k < types.len()
        invariant
            1 <= k <= types.len(),
            best < k,
            best_rank == spec_device_rank(types[best as int]),
            forall|j: int| 0 <= j < k ==> best_rank <= spec_device_rank(#[trigger] types[j]),
            forall|j: int| 0 <= j < best ==> best_rank < spec_device_rank(#[trigger] types[j]),
        decreases types.len() - k,
    {
        let rank = device_rank(types[k]);
        if rank < best_rank {
            best = k;
            best_rank = rank;
        }
        k = k + 1;
    }
    Some(best)
}

} // verus!
