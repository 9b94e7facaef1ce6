//! The address that a recording is sent to.
//!
//! The service writes the signature of one device into the recording. The
//! device is chosen by two numbers in the address: the product number of the
//! device and the number of its manufacturer.

use crate::text::{decimal, decimal_text};
use vstd::prelude::*;

verus! {

/// The product number that is used where none is given.
pub const DEFAULT_DEVICE_TYPE: u64 = 4341;

/// The manufacturer that is used where none is given.
pub const DEFAULT_MANUFACTURER: u64 = 1;

/// The device whose signature the service is asked to write.
#[derive(Debug, Clone, Copy, PartialEq, Eq)]
pub struct Target {
    /// The product number of the device.
    pub device_type: u64,
    /// The number of its manufacturer.
    pub manufacturer: u64,
}

/// The address for a device: the service's address with the two numbers in
/// base ten.
pub open spec fn request_uri_of(device_type: nat, manufacturer: nat) -> Seq<char> {
    "https://www.fitfiletools.com/tools/devicechanger?devicetype="@ + decimal(device_type)
        + "&mfgr="@ + decimal(manufacturer)
}

impl Default for Target {
    fn default() -> (target: Target)
        ensures
            target.device_type == DEFAULT_DEVICE_TYPE,
            target.manufacturer == DEFAULT_MANUFACTURER,
    {
        Target { device_type: DEFAULT_DEVICE_TYPE, manufacturer: DEFAULT_MANUFACTURER }
    }
}

impl Target {
    /// The address that a recording for this device is sent to.
    pub fn request_uri(&self) -> (uri: String)
        ensures
            uri@ == request_uri_of(self.device_type as nat, self.manufacturer as nat),
    {
        let mut uri = String::from_str(
            "https://www.fitfiletools.com/tools/devicechanger?devicetype=",
        );
        let device_type = decimal_text(self.device_type);
        uri.append(device_type.as_str());
        uri.append("&mfgr=");
        let manufacturer = decimal_text(self.manufacturer);
        uri.append(manufacturer.as_str());
        uri
    }
}

} // verus!
