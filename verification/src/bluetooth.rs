//! The bluetooth applet's model of BlueZ: the adapter, the devices it knows,
//! the order they are listed in, and what clicking one does.
use vstd::prelude::*;
use crate::sort::{lemma_lex_irreflexive, lemma_lex_split, lemma_lex_transitive, stable_sort, stable_sorted, text_less, SortKey, SpecOrder};
use crate::text::text_eq;

verus! {

/// A device as the applet lists it.
#[derive(Clone, Debug)]
pub struct DeviceInfo {
    pub path: String,
    pub name: String,
    pub paired: bool,
    pub connected: bool,
}

/// What the bluetooth applet shows.
#[derive(Clone, Debug)]
pub struct BtSnapshot {
    pub powered: bool,
    pub discovering: bool,
    pub devices: Vec<DeviceInfo>,
}

impl Default for BtSnapshot {
    /// Nothing known: powered off, not scanning, no devices.
    fn default() -> (r: Self)
        ensures
            !r.powered,
            !r.discovering,
            r.devices@.len() == 0,
    {
        BtSnapshot { powered: false, discovering: false, devices: Vec::new() }
    }
}

/// The properties of an adapter (`org.bluez.Adapter1`) that the applet reads.
#[derive(Clone, Debug)]
pub struct AdapterProps {
    pub powered: Option<bool>,
    pub discovering: Option<bool>,
}

/// The properties of a device (`org.bluez.Device1`) that the applet reads.
#[derive(Clone, Debug)]
pub struct DeviceProps {
    pub adapter: Option<String>,
    pub alias: Option<String>,
    pub name: Option<String>,
    pub paired: Option<bool>,
    pub connected: Option<bool>,
}

/// One object that BlueZ manages, with the interfaces the applet reads.
#[derive(Clone, Debug)]
pub struct BtObject {
    pub path: String,
    pub adapter: Option<AdapterProps>,
    pub device: Option<DeviceProps>,
}

pub open spec fn or_false(b: Option<bool>) -> bool {
    match b {
        Some(v) => v,
        None => false,
    }
}

/// The first object that is an adapter.
pub open spec fn first_adapter(objects: Seq<BtObject>) -> Option<String>
    decreases objects.len(),
{
    if objects.len() == 0 {
        None
    } else if objects[0].adapter is Some {
        Some(objects[0].path)
    } else {
        first_adapter(objects.drop_first())
    }
}

/// The path of the first adapter among the objects BlueZ manages.
pub fn find_adapter(objects: &Vec<BtObject>) -> (r: Option<String>)
    ensures
        r == first_adapter(objects@),
{
    let mut k: usize = 0;
    proof {
        assert(objects@.skip(0) =~= objects@);
    }
    while k < objects.len()
        invariant
            k <= objects.len(),
            first_adapter(objects@) == first_adapter(objects@.skip(k as int)),
        decreases objects.len() - k,
    {
        proof {
            assert(objects@.skip(k as int)[0] == objects@[k as int]);
            assert(objects@.skip(k as int).drop_first() =~= objects@.skip(k + 1));
        }
        if objects[k].adapter.is_some() {
            return Some(objects[k].path.clone());
        }
        k = k + 1;
    }
    proof {
        assert(objects@.skip(k as int) =~= Seq::<BtObject>::empty());
    }
    None
}

/// The name a device is listed under: its alias when that is not empty,
/// else its name.
pub open spec fn chosen_name(d: DeviceProps) -> Option<String> {
    match d.alias {
        Some(a) => if a@.len() > 0 {
            Some(a)
        } else {
            d.name
        },
        None => d.name,
    }
}

/// The entry for an object, when it is a device of the adapter `adapter`
/// with a name that is not empty.
pub open spec fn listed_device(o: BtObject, adapter: Seq<char>) -> Option<DeviceInfo> {
    match o.device {
        Some(d) => match d.adapter {
            Some(a) => if a@ == adapter {
                match chosen_name(d) {
                    Some(n) => if n@.len() > 0 {
                        Some(
                            DeviceInfo {
                                path: o.path,
                                name: n,
                                paired: or_false(d.paired),
                                connected: or_false(d.connected),
                            },
                        )
                    } else {
                        None
                    },
                    None => None,
                }
            } else {
                None
            },
            None => None,
        },
        None => None,
    }
}

/// The listed devices, in the order the objects came in.
pub open spec fn listed_devices(objects: Seq<BtObject>, adapter: Seq<char>) -> Seq<DeviceInfo>
    decreases objects.len(),
{
    if objects.len() == 0 {
        seq![]
    } else {
        let rest = listed_devices(objects.drop_last(), adapter);
        match listed_device(objects.last(), adapter) {
            Some(d) => rest.push(d),
            None => rest,
        }
    }
}

/// The adapter's power and scanning state, from the last object at its path
/// that is an adapter; off when there is none.
pub open spec fn adapter_state(objects: Seq<BtObject>, adapter: Seq<char>) -> (bool, bool)
    decreases objects.len(),
{
    if objects.len() == 0 {
        (false, false)
    } else {
        let o = objects.last();
        match o.adapter {
            Some(a) => if o.path@ == adapter {
                (or_false(a.powered), or_false(a.discovering))
            } else {
                adapter_state(objects.drop_last(), adapter)
            },
            None => adapter_state(objects.drop_last(), adapter),
        }
    }
}

impl SpecOrder for DeviceInfo {
    /// Connected devices first, then paired ones, then by name.
    open spec fn spec_before(&self, other: &Self) -> bool {
        if self.connected != other.connected {
            self.connected
        } else if self.paired != other.paired {
            self.paired
        } else {
            text_less(self.name@, other.name@)
        }
    }

    proof fn lemma_irreflexive(a: Self) {
        lemma_lex_irreflexive(crate::sort::code_points(a.name@));
    }

    proof fn lemma_transitive(a: Self, b: Self, c: Self) {
        if a.connected == b.connected && b.connected == c.connected && a.paired == b.paired
            && b.paired == c.paired {
            lemma_lex_transitive(
                crate::sort::code_points(a.name@),
                crate::sort::code_points(b.name@),
                crate::sort::code_points(c.name@),
            );
        }
    }

    proof fn lemma_split(a: Self, b: Self, c: Self) {
        if a.connected == b.connected && b.connected == c.connected && a.paired == b.paired
            && b.paired == c.paired {
            lemma_lex_split(
                crate::sort::code_points(a.name@),
                crate::sort::code_points(b.name@),
                crate::sort::code_points(c.name@),
            );
        }
    }
}

impl SortKey for DeviceInfo {
    fn before(&self, other: &Self) -> (r: bool) {
        if self.connected != other.connected {
            self.connected
        } else if self.paired != other.paired {
            self.paired
        } else {
            crate::sort::text_less_str(self.name.as_str(), other.name.as_str())
        }
    }
}

fn opt_bool(b: &Option<bool>) -> (r: bool)
    ensures
        r == or_false(*b),
{
    match b {
        Some(v) => *v,
        None => false,
    }
}

fn device_entry(o: &BtObject, adapter: &str) -> (r: Option<DeviceInfo>)
    ensures
        r == listed_device(*o, adapter@),
{
    match &o.device {
        Some(d) => match &d.adapter {
            Some(a) => {
                if !text_eq(a.as_str(), adapter) {
                    return None;
                }
                let name: Option<String> = match &d.alias {
                    Some(al) => if al.unicode_len() > 0 {
                        Some(al.clone())
                    } else {
                        d.name.clone()
                    },
                    None => d.name.clone(),
                };
                match name {
                    Some(n) => if n.unicode_len() > 0 {
                        Some(
                            DeviceInfo {
                                path: o.path.clone(),
                                name: n,
                                paired: opt_bool(&d.paired),
                                connected: opt_bool(&d.connected),
                            },
                        )
                    } else {
                        None
                    },
                    None => None,
                }
            },
            None => None,
        },
        None => None,
    }
}

/// The snapshot the applet shows, from the objects BlueZ manages (in the
/// order they were read) and the adapter's path: the adapter's power and
/// scanning state, and its named devices, connected ones first, then paired
/// ones, then by name; devices that compare equal keep the order they came in.
pub fn snapshot_from_objects(objects: &Vec<BtObject>, adapter: &str) -> (r: BtSnapshot)
    ensures
        (r.powered, r.discovering) == adapter_state(objects@, adapter@),
        r.devices@ == stable_sorted(listed_devices(objects@, adapter@)),
{
    let mut powered: bool = false;
    let mut discovering: bool = false;
    let mut devices: Vec<DeviceInfo> = Vec::new();
    let mut k: usize = 0;
    while k < objects.len()
        invariant
            k <= objects.len(),
            (powered, discovering) == adapter_state(objects@.take(k as int), adapter@),
            devices@ == listed_devices(objects@.take(k as int), adapter@),
        decreases objects.len() - k,
    {
        proof {
            assert(objects@.take(k + 1).drop_last() =~= objects@.take(k as int));
            assert(objects@.take(k + 1).last() == objects@[k as int]);
        }
        let o: &BtObject = &objects[k];
        match &o.adapter {
            Some(a) => {
                if text_eq(o.path.as_str(), adapter) {
                    powered = opt_bool(&a.powered);
                    discovering = opt_bool(&a.discovering);
                }
            },
            None => {},
        }
        match device_entry(o, adapter) {
            Some(d) => {
                devices.push(d);
            },
            None => {},
        }
        k = k + 1;
    }
    proof {
        assert(objects@.take(objects.len() as int) =~= objects@);
    }
    let devices: Vec<DeviceInfo> = stable_sort(devices);
    BtSnapshot { powered, discovering, devices }
}

/// The snapshot's power and scanning flags are the `Powered` and
/// `Discovering` properties of the adapter object at the adapter's path (the
/// last such object where several are listed), each false where absent;
/// both are false where no adapter object is at that path.
pub proof fn law_adapter_flags_are_properties(objects: Seq<BtObject>, adapter: Seq<char>)
    ensures
        forall|i: int|
            0 <= i < objects.len() && #[trigger] objects[i].adapter is Some && objects[i].path@ == adapter
                && (forall|j: int|
                i < j < objects.len() ==> !(objects[j].adapter is Some && objects[j].path@ == adapter))
                ==> {
                &&& adapter_state(objects, adapter).0 == (objects[i].adapter->0.powered == Some(true))
                &&& adapter_state(objects, adapter).1 == (objects[i].adapter->0.discovering == Some(
                    true,
                ))
            },
        (forall|j: int|
            0 <= j < objects.len() ==> !(#[trigger] objects[j].adapter is Some && objects[j].path@
                == adapter)) ==> adapter_state(objects, adapter) == (false, false),
    decreases objects.len(),
{
    if objects.len() > 0 {
        let init = objects.drop_last();
        law_adapter_flags_are_properties(init, adapter);
        let l = objects.len() - 1;
        assert forall|i: int|
            0 <= i < objects.len() && #[trigger] objects[i].adapter is Some && objects[i].path@ == adapter
                && (forall|j: int|
                i < j < objects.len() ==> !(objects[j].adapter is Some && objects[j].path@ == adapter))
                implies {
                &&& adapter_state(objects, adapter).0 == (objects[i].adapter->0.powered == Some(true))
                &&& adapter_state(objects, adapter).1 == (objects[i].adapter->0.discovering == Some(
                    true,
                ))
            } by {
            if i < l {
                assert(!(objects[l].adapter is Some && objects[l].path@ == adapter));
                assert(init[i] == objects[i]);
                assert forall|j: int| i < j < init.len() implies !(init[j].adapter is Some
                    && init[j].path@ == adapter) by {
                    assert(init[j] == objects[j]);
                }
                assert(init[i].adapter is Some);
            }
        }
        if forall|j: int|
            0 <= j < objects.len() ==> !(#[trigger] objects[j].adapter is Some && objects[j].path@
                == adapter) {
            assert(!(objects[l].adapter is Some && objects[l].path@ == adapter));
            assert forall|j: int| 0 <= j < init.len() implies !(#[trigger] init[j].adapter is Some
                && init[j].path@ == adapter) by {
                assert(init[j] == objects[j]);
            }
        }
    }
}

/// Devices are listed connected first, then paired, then by name, and no
/// device is lost or added by the ordering.
pub proof fn law_devices_ordered(s: Seq<DeviceInfo>)
    ensures
        stable_sorted(s).len() == s.len(),
        forall|a: int, b: int|
            #![trigger stable_sorted(s)[a], stable_sorted(s)[b]]
            0 <= a < b < s.len() ==> !stable_sorted(s)[b].spec_before(&stable_sorted(s)[a]),
{
    crate::sort::lemma_stable_sorted(s);
}

/// The icon the bar shows for bluetooth.
pub fn icon_name_for(s: &BtSnapshot) -> (r: &'static str)
    ensures
        r@ == if !s.powered {
            "bluetooth-disabled-symbolic"@
        } else if exists|i: int| 0 <= i < s.devices@.len() && s.devices@[i].connected {
            "bluetooth-active-symbolic"@
        } else {
            "bluetooth-symbolic"@
        },
{
    if !s.powered {
        return "bluetooth-disabled-symbolic";
    }
    let mut k: usize = 0;
    while k < s.devices.len()
        invariant
            k <= s.devices@.len(),
            s.powered,
            forall|i: int| 0 <= i < k ==> !s.devices@[i].connected,
        decreases s.devices@.len() - k,
    {
        if s.devices[k].connected {
            assert(0 <= k < s.devices@.len() && s.devices@[k as int].connected);
            return "bluetooth-active-symbolic";
        }
        k = k + 1;
    }
    "bluetooth-symbolic"
}

/// What clicking a device does.
#[derive(Clone, Copy, Debug, PartialEq, Eq, Structural)]
pub enum DeviceAction {
    Disconnect,
    Connect,
    PairAndConnect,
}

/// Clicking a connected device disconnects it, a paired one connects it,
/// any other pairs with it and then connects.
pub fn device_action(d: &DeviceInfo) -> (r: DeviceAction)
    ensures
        r == if d.connected {
            DeviceAction::Disconnect
        } else if d.paired {
            DeviceAction::Connect
        } else {
            DeviceAction::PairAndConnect
        },
{
    if d.connected {
        DeviceAction::Disconnect
    } else if d.paired {
        DeviceAction::Connect
    } else {
        DeviceAction::PairAndConnect
    }
}

/// The status line under a device's name, if any.
pub fn device_status(d: &DeviceInfo) -> (r: Option<&'static str>)
    ensures
        match r {
            Some(t) => (d.connected && t@ == "Connected"@) || (!d.connected && d.paired && t@
                == "Paired"@),
            None => !d.connected && !d.paired,
        },
{
    if d.connected {
        Some("Connected")
    } else if d.paired {
        Some("Paired")
    } else {
        None
    }
}

/// The label of the scan button.
pub fn scan_label(discovering: bool) -> (r: &'static str)
    ensures
        r@ == if discovering { "Stop scanning"@ } else { "Scan for devices"@ },
{
    if discovering {
        "Stop scanning"
    } else {
        "Scan for devices"
    }
}

/// The text shown when there is no device.
pub fn empty_text(discovering: bool) -> (r: &'static str)
    ensures
        r@ == if discovering { "Searching..."@ } else { "No devices found"@ },
{
    if discovering {
        "Searching..."
    } else {
        "No devices found"
    }
}

/// The adapter method that starts or stops scanning.
pub fn discovery_method(enabled: bool) -> (r: &'static str)
    ensures
        r@ == if enabled { "StartDiscovery"@ } else { "StopDiscovery"@ },
{
    if enabled {
        "StartDiscovery"
    } else {
        "StopDiscovery"
    }
}

/// What the pairing agent answers a request with.
#[derive(Clone, Debug, PartialEq, Eq)]
pub enum AgentReply {
    /// A PIN code.
    Text(String),
    /// A passkey.
    Number(u32),
    /// No value.
    Empty,
}

/// The pairing agent's answer to a method call: PIN `0000` to
/// `RequestPinCode`, passkey 0 to `RequestPasskey`, nothing to the rest.
pub fn agent_reply(method: &str) -> (r: AgentReply)
    ensures
        method@ == "RequestPinCode"@ ==> (r matches AgentReply::Text(t) && t@ == "0000"@),
        method@ == "RequestPasskey"@ ==> r == AgentReply::Number(0),
        method@ != "RequestPinCode"@ && method@ != "RequestPasskey"@ ==> r == AgentReply::Empty,
{
    proof {
        reveal_strlit("RequestPinCode");
        reveal_strlit("RequestPasskey");
        assert("RequestPinCode"@[8] != "RequestPasskey"@[8]);
    }
    if text_eq(method, "RequestPinCode") {
        AgentReply::Text(crate::text::owned("0000"))
    } else if text_eq(method, "RequestPasskey") {
        AgentReply::Number(0)
    } else {
        AgentReply::Empty
    }
}

} // verus!
