use vstd::prelude::*;

verus! {

/// Why no device list could be formed.
#[derive(Clone, Copy, Debug, PartialEq, Eq, Structural)]
pub enum DeviceError {
    /// The host offered no input device.
    NoDevices,
}

/// The input devices offered by the host, from which the sources are taken
/// by index; taking a device hands it over and removes it from the list.
pub struct DeviceManager<D> {
    devices: Vec<D>,
}

impl<D> View for DeviceManager<D> {
    type V = Seq<D>;

    closed spec fn view(&self) -> Seq<D> {
        self.devices@
    }
}

impl<D> DeviceManager<D> {
    /// A manager of the devices found, in the order found; an empty list
    /// is refused.
    pub fn new(devices: Vec<D>) -> (r: Result<Self, DeviceError>)
        ensures
            devices@.len() == 0 ==> r == Err::<Self, DeviceError>(DeviceError::NoDevices),
            devices@.len() > 0 ==> r is Ok && r->Ok_0@ == devices@,
    {
        if devices.len() == 0 {
            Err(DeviceError::NoDevices)
        } else {
            Ok(DeviceManager { devices })
        }
    }

    /// Hands over the device at `index` and removes it from the list, or
    /// returns `None` when the index is out of range.
    pub fn take_device(&mut self, index: usize) -> (r: Option<D>)
        ensures
            index < old(self)@.len() ==> r == Some(old(self)@[index as int]) && final(self)@
                == old(self)@.remove(index as int),
            index >= old(self)@.len() ==> r is None && final(self)@ == old(self)@,
    {
        if index < self.devices.len() {
            Some(self.devices.remove(index))
        } else {
            None
        }
    }

    /// The device at `index`, or `None` when the index is out of range.
    pub fn get_device(&self, index: usize) -> (r: Option<&D>)
        ensures
            index < self@.len() ==> r is Some && *r->Some_0 == self@[index as int],
            index >= self@.len() ==> r is None,
    {
        if index < self.devices.len() {
            Some(&self.devices[index])
        } else {
            None
        }
    }

    /// The number of devices in the list.
    pub fn device_count(&self) -> (r: usize)
        ensures
            r == self@.len(),
    {
        self.devices.len()
    }
}

} // verus!
