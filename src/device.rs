//! A brightness-controllable device, as read from its class directory.

use vstd::prelude::*;

verus! {

/// One device: its entry name, its class, and its two brightness values.
pub struct Device {
    pub id: String,
    pub class: String,
    pub brightness: u32,
    pub max_brightness: u32,
}

/// What a `Device` holds, as plain values.
pub struct DeviceModel {
    pub id: Seq<char>,
    pub class: Seq<char>,
    pub brightness: u32,
    pub max_brightness: u32,
}

impl View for Device {
    type V = DeviceModel;

    open spec fn view(&self) -> DeviceModel {
        DeviceModel {
            id: self.id@,
            class: self.class@,
            brightness: self.brightness,
            max_brightness: self.max_brightness,
        }
    }
}

impl Device {
    pub fn new(id: String, class: String, brightness: u32, max_brightness: u32) -> (r: Device)
        ensures
            r.id == id,
            r.class == class,
            r.brightness == brightness,
            r.max_brightness == max_brightness,
    {
        Device { id, class, brightness, max_brightness }
    }

    /// An identical, independent copy.
    pub fn duplicate(&self) -> (r: Device)
        ensures
            r == *self,
    {
        Device {
            id: self.id.clone(),
            class: self.class.clone(),
            brightness: self.brightness,
            max_brightness: self.max_brightness,
        }
    }

    /// Records a brightness that was written to the device.
    pub fn set_brightness(&mut self, value: u32)
        ensures
            final(self).brightness == value,
            final(self).id == old(self).id,
            final(self).class == old(self).class,
            final(self).max_brightness == old(self).max_brightness,
    {
        self.brightness = value;
    }

    /// The current brightness as a whole percentage of the maximum,
    /// rounded down; a device whose maximum is zero reads as zero.
    pub fn percent_brightness(&self) -> (r: u64)
        ensures
            self.max_brightness == 0 ==> r == 0,
            self.max_brightness > 0 ==> r == self.brightness * 100 / self.max_brightness as int,
    {
        if self.max_brightness == 0 {
            0
        } else {
            (self.brightness as u64) * 100 / (self.max_brightness as u64)
        }
    }
}

} // verus!
