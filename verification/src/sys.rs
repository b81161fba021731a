//! Capture devices as the resolver sees them: a path and, per supported
//! pixel format, the resolutions the device can deliver. Enumerating the
//! real hardware is the caller's business; the resolver works on these plain
//! records.
use vstd::prelude::*;

verus! {

/// One resolution a device offers: either a fixed frame size or a stepwise
/// range, of which only the maximum matters for selection.
#[derive(Clone, Copy, Debug, PartialEq, Eq, Structural)]
pub enum FrameSize {
    /// A fixed width and height, in pixels.
    Discrete { width: u32, height: u32 },
    /// A continuous range; `max_width` and `max_height` are its upper ends.
    Stepwise { max_width: u32, max_height: u32 },
}

/// One pixel format of a device, with the frame sizes offered for it.
#[derive(Debug)]
pub struct Capabilties {
    /// The format's four-character code, such as `H264` or `YUYV`.
    pub format: String,
    pub resolution: Vec<FrameSize>,
}

/// Abstract value of one capability.
pub ghost struct CapModel {
    pub format: Seq<char>,
    pub resolution: Seq<FrameSize>,
}

impl View for Capabilties {
    type V = CapModel;

    open spec fn view(&self) -> CapModel {
        CapModel { format: self.format@, resolution: self.resolution@ }
    }
}

/// One enumerated capture device.
#[derive(Debug)]
pub struct Device {
    /// The device node's path.
    pub path: String,
    pub capabilities: Vec<Capabilties>,
}

/// Abstract value of one device.
pub ghost struct DeviceModel {
    pub path: Seq<char>,
    pub capabilities: Seq<CapModel>,
}

impl View for Device {
    type V = DeviceModel;

    open spec fn view(&self) -> DeviceModel {
        DeviceModel {
            path: self.path@,
            capabilities: self.capabilities@.map_values(|c: Capabilties| c@),
        }
    }
}

/// Abstract values of an enumeration snapshot.
pub open spec fn device_models(devices: Seq<Device>) -> Seq<DeviceModel> {
    devices.map_values(|d: Device| d@)
}

} // verus!
