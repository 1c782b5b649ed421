//! Adapter selection by a static preference score.
use crate::device::DeviceError;
use vstd::prelude::*;

verus! {

/// The kind of a physical adapter.
#[derive(Clone, Copy, Debug, PartialEq, Eq, Structural)]
pub enum AdapterKind {
    DiscreteGpu,
    IntegratedGpu,
    Other,
}

/// Discrete adapters are preferred over integrated ones, and those over any
/// other kind.
pub open spec fn adapter_score(kind: AdapterKind) -> nat {
    match kind {
        AdapterKind::DiscreteGpu => 1000,
        AdapterKind::IntegratedGpu => 10,
        AdapterKind::Other => 0,
    }
}

pub fn score(kind: AdapterKind) -> (r: u32)
    ensures
        r == adapter_score(kind),
{
    match kind {
        AdapterKind::DiscreteGpu => 1000,
        AdapterKind::IntegratedGpu => 10,
        AdapterKind::Other => 0,
    }
}

/// `i` is the first adapter, in enumeration order, with the highest score.
pub open spec fn is_preferred_adapter(adapters: Seq<AdapterKind>, i: int) -> bool {
    &&& 0 <= i < adapters.len()
    &&& forall|j: int| 0 <= j < adapters.len() ==> adapter_score(#[trigger] adapters[j]) <= adapter_score(adapters[i])
    &&& forall|j: int| 0 <= j < i ==> adapter_score(#[trigger] adapters[j]) < adapter_score(adapters[i])
}

/// Chooses among the adapters the platform enumerates.
pub struct PhysicalDeviceSelector {
    /// The kind of each adapter, in enumeration order.
    pub adapters: Vec<AdapterKind>,
}

impl PhysicalDeviceSelector {
    pub fn with_adapters(adapters: Vec<AdapterKind>) -> (r: PhysicalDeviceSelector)
        ensures
            r.adapters == adapters,
    {
        PhysicalDeviceSelector { adapters }
    }

    /// The index of the preferred adapter; ties go to the one enumerated
    /// first. Fails when there is no adapter.
    pub fn select(&self) -> (r: Result<usize, DeviceError>)
        ensures
            self.adapters@.len() == 0 <==> r is Err,
            r is Err ==> r->Err_0 == DeviceError::NoSuitableAdapter,
            r matches Ok(i) ==> is_preferred_adapter(self.adapters@, i as int),
    {
        if self.adapters.len() == 0 {
            return Err(DeviceError::NoSuitableAdapter);
        }
        let mut best: usize = 0;
        let mut best_score = score(self.adapters[0]);
        let mut i: usize = 1;
        while i < self.adapters.len()
            invariant
                1 <= i <= self.adapters@.len(),
                best < i,
                best_score == adapter_score(self.adapters@[best as int]),
                forall|j: int| 0 <= j < i ==> adapter_score(#[trigger] self.adapters@[j]) <= best_score,
                forall|j: int| 0 <= j < best ==> adapter_score(#[trigger] self.adapters@[j]) < best_score,
            decreases self.adapters@.len() - i,
        {
            let s = score(self.adapters[i]);
            if s > best_score {
                best = i;
                best_score = s;
            }
            i += 1;
        }
        Ok(best)
    }
}

} // verus!
