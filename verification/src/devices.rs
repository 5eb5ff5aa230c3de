//! Choosing the network devices that are worth capturing on.

use vstd::prelude::*;

verus! {

/// Whether a device is connected to a network.
#[derive(Clone, Copy, Debug, PartialEq, Eq, Structural)]
pub enum ConnectionStatus {
    Unknown,
    Connected,
    Disconnected,
    NotApplicable,
}

/// A network device as the capture facility lists it.
#[derive(Debug)]
pub struct NetworkDevice {
    pub name: String,
    pub status: ConnectionStatus,
    pub addresses: Vec<String>,
    pub loopback: bool,
}

/// A device is worth capturing on when it is connected, has an address and
/// is not the loopback device.
pub open spec fn usable(device: NetworkDevice) -> bool {
    device.status == ConnectionStatus::Connected && device.addresses@.len() > 0 && !device.loopback
}

impl NetworkDevice {
    /// Tells whether this device is worth capturing on.
    pub fn is_usable(&self) -> (yes: bool)
        ensures
            yes == usable(*self),
    {
        match self.status {
            ConnectionStatus::Connected => self.addresses.len() > 0 && !self.loopback,
            _ => false,
        }
    }
}

/// `picked` holds the indices of the usable devices of `listed`, each once,
/// in rising order.
pub open spec fn picks_usable(listed: Seq<NetworkDevice>, picked: Seq<usize>) -> bool {
    &&& forall|k: int| 0 <= k < picked.len() ==> picked[k] < listed.len() && usable(listed[picked[k] as int])
    &&& forall|i: int| 0 <= i < listed.len() && usable(#[trigger] listed[i]) ==> picked.contains(i as usize)
    &&& forall|j: int, k: int| 0 <= j < k < picked.len() ==> picked[j] < picked[k]
}

/// The indices of the usable devices of `listed`, in rising order. The
/// result is empty where no device is usable.
pub fn usable_devices(listed: &Vec<NetworkDevice>) -> (picked: Vec<usize>)
    ensures
        picks_usable(listed@, picked@),
{
    let mut picked: Vec<usize> = Vec::new();
    let mut i: usize = 0;
    while i < listed.len()
        invariant
            i <= listed.len(),
            forall|k: int| 0 <= k < picked.len() ==> picked[k] < i && usable(listed[picked[k] as int]),
            forall|j: int| 0 <= j < i && usable(#[trigger] listed[j]) ==> picked@.contains(j as usize),
            forall|j: int, k: int| 0 <= j < k < picked.len() ==> picked[j] < picked[k],
        decreases listed.len() - i,
    {
        if listed[i].is_usable() {
            let ghost before = picked@;
            picked.push(i);
            proof {
                assert(picked@[before.len() as int] == i);
                assert forall|j: int| 0 <= j < i && usable(#[trigger] listed[j]) implies picked@.contains(
                    j as usize,
                ) by {
                    let k = choose|k: int| 0 <= k < before.len() && before[k] == j as usize;
                    assert(picked@[k] == j as usize);
                }
            }
        }
        i += 1;
    }
    picked
}

} // verus!
