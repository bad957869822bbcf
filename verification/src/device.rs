//! The library's picture of a hardware device and of a hotplug event, and the
//! product matcher: the predicate that decides whether a device's reported
//! identity equals a configured identity string.

use vstd::prelude::*;
use vstd::string::*;

verus! {

/// A device as the library sees it: the name/value properties the device
/// subsystem reports for it. The binary fills this in from the live device
/// handle; only the `PRODUCT` property takes part in matching.
#[derive(Debug, Clone, PartialEq, Eq)]
pub struct Device {
    pub properties: Vec<(String, String)>,
}

/// View of a device: its properties as pairs of character sequences.
pub open spec fn property_view(p: (String, String)) -> (Seq<char>, Seq<char>) {
    (p.0@, p.1@)
}

impl View for Device {
    type V = Seq<(Seq<char>, Seq<char>)>;

    open spec fn view(&self) -> Seq<(Seq<char>, Seq<char>)> {
        self.properties@.map_values(|p: (String, String)| property_view(p))
    }
}

/// The kind of a hotplug event. Kinds other than a device appearing or
/// disappearing are grouped as `Other`: the dispatch rules treat them all
/// alike.
#[derive(Debug, Clone, Copy, PartialEq, Eq, Structural)]
pub enum EventKind {
    Add,
    Remove,
    Other,
}

/// A hotplug event: the device it concerns and what happened to it.
#[derive(Debug, Clone, PartialEq, Eq)]
pub struct Event {
    pub device: Device,
    pub kind: EventKind,
}

/// A device matches an identity string exactly when it reports a property
/// named `PRODUCT` whose value equals that string, byte for byte.
pub open spec fn spec_is_product(product: Seq<char>, dev: Seq<(Seq<char>, Seq<char>)>) -> bool {
    exists|i: int| 0 <= i < dev.len() && dev[i].0 == "PRODUCT"@ && dev[i].1 == product
}

/// True if and only if `device` exposes a property named `PRODUCT` whose
/// value is exactly `product`. No wildcard or partial matching.
pub fn is_product(product: &String, device: &Device) -> (r: bool)
    ensures
        r == spec_is_product(product@, device@),
{
    let key: String = String::from_str("PRODUCT");
    let n = device.properties.len();
    let mut i: usize = 0;
    while i < n
        invariant
            n == device.properties.len(),
            0 <= i <= n,
            key@ == "PRODUCT"@,
            forall|k: int| 0 <= k < i ==> !(device@[k].0 == "PRODUCT"@ && device@[k].1 == product@),
        decreases n - i,
    {
        let p = &device.properties[i];
        if p.0 == key && p.1 == *product {
            assert(device@[i as int].0 == "PRODUCT"@ && device@[i as int].1 == product@);
            return true;
        }
        i += 1;
    }
    false
}

} // verus!
