//! Devices found on the local network: when a sighting goes stale, and the
//! update that announces a found device to every connected client.
use vstd::prelude::*;
use crate::signaling::message::WsMessage;
use crate::signaling::peers::DeviceInfo;

verus! {

/// How long a device found on the local network stays listed after it was
/// last seen, in seconds.
pub const NEARBY_DEVICE_TTL_SECS: u64 = 300;

/// Whether a device last seen at `last_seen` (Unix seconds) is still listed
/// at `now`: seen less than five minutes ago.
pub fn nearby_device_fresh(now: u64, last_seen: u64) -> (b: bool)
    requires
        last_seen <= now,
    ensures
        b == (now - last_seen < NEARBY_DEVICE_TTL_SECS),
{
    now - last_seen < NEARBY_DEVICE_TTL_SECS
}

/// The update that announces a device found on the local network: that
/// device alone, named by its name, online, with no platform (discovery
/// does not report one).
pub fn nearby_device_update(device_code: &str, device_name: &str) -> (m: WsMessage)
    ensures
        m matches WsMessage::NearbyUpdate { devices } && devices@.len() == 1 && devices@[0].code@ == device_code@
            && devices@[0].name@ == device_name@ && devices@[0].platform@ == Seq::<char>::empty() && devices@[0].online,
{
    let mut devices: Vec<DeviceInfo> = Vec::new();
    devices.push(
        DeviceInfo { code: device_code.to_string(), name: device_name.to_string(), platform: String::new(), online: true },
    );
    WsMessage::NearbyUpdate { devices }
}

} // verus!
