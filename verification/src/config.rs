//! The configuration model: a list of watched-device entries, each pairing a
//! unique device name with a device identity string and the commands to run
//! when the device is plugged in or unplugged.

use vstd::prelude::*;
use vstd::string::*;

verus! {

/// Mathematical view of a watched-device record: its three strings as
/// character sequences.
#[verifier::ext_equal]
pub struct WatchedDeviceView {
    pub product: Seq<char>,
    pub on_plugged: Seq<char>,
    pub on_unplugged: Seq<char>,
}

/// One monitored device definition: an identity string matched verbatim
/// against a device's reported `PRODUCT` property, and the command strings
/// run when the device appears or disappears.
#[derive(Debug, Clone, PartialEq, Eq)]
pub struct WatchedDevice {
    pub product: String,
    pub on_plugged: String,
    pub on_unplugged: String,
}

impl View for WatchedDevice {
    type V = WatchedDeviceView;

    open spec fn view(&self) -> WatchedDeviceView {
        WatchedDeviceView {
            product: self.product@,
            on_plugged: self.on_plugged@,
            on_unplugged: self.on_unplugged@,
        }
    }
}

/// The root configuration: watched devices keyed by a device name that is
/// unique within the configuration. Entry order carries no meaning.
#[derive(Debug, Clone, PartialEq, Eq)]
pub struct Config {
    pub devices: Vec<(String, WatchedDevice)>,
}

/// View of one configuration entry: the device name and the record.
pub open spec fn entry_view(e: (String, WatchedDevice)) -> (Seq<char>, WatchedDeviceView) {
    (e.0@, e.1@)
}

impl View for Config {
    type V = Seq<(Seq<char>, WatchedDeviceView)>;

    open spec fn view(&self) -> Seq<(Seq<char>, WatchedDeviceView)> {
        self.devices@.map_values(|e: (String, WatchedDevice)| entry_view(e))
    }
}

/// Device names are pairwise distinct.
pub open spec fn unique_names(entries: Seq<(Seq<char>, WatchedDeviceView)>) -> bool {
    forall|i: int, j: int| 0 <= i < j < entries.len() ==> entries[i].0 != entries[j].0
}

impl Config {
    /// A configuration is well formed when its device names are unique.
    pub open spec fn wf(&self) -> bool {
        unique_names(self@)
    }
}

impl Default for Config {
    /// The built-in configuration: exactly one entry, named "ergodox".
    fn default() -> (c: Config)
        ensures
            c@.len() == 1,
            c@[0].0 == "ergodox"@,
            c@[0].1.product == "3/feed/1307/111"@,
            c@[0].1.on_plugged == "setxkbmap us"@,
            c@[0].1.on_unplugged == "setxkbmap fr oss -option ctrl:nocaps"@,
            c.wf(),
    {
        let name = String::from_str("ergodox");
        let wd = WatchedDevice {
            product: String::from_str("3/feed/1307/111"),
            on_plugged: String::from_str("setxkbmap us"),
            on_unplugged: String::from_str("setxkbmap fr oss -option ctrl:nocaps"),
        };
        let mut devices: Vec<(String, WatchedDevice)> = Vec::new();
        devices.push((name, wd));
        Config { devices }
    }
}

} // verus!
