//! The network applet's model of NetworkManager: devices, access points and
//! their security, VPNs, the snapshot the applet shows, and its icons.
use vstd::prelude::*;
use crate::text::{lossy_text, lossy_utf8};
use vstd::string::StrSliceExecFns;
use crate::sort::{lemma_sorted_views, lemma_stable_sorted, sort_views, stable_sort, stable_sorted, SortKey, SortView, SpecOrder};

verus! {

pub const DEVICE_TYPE_ETHERNET: u32 = 1;

pub const DEVICE_TYPE_WIFI: u32 = 2;

pub const DEVICE_TYPE_WIREGUARD: u32 = 29;

pub const DEVICE_STATE_ACTIVATED: u32 = 100;

pub const AP_FLAG_PRIVACY: u32 = 0x1;

pub const AP_SEC_KEY_MGMT_PSK: u32 = 0x100;

pub const AP_SEC_KEY_MGMT_SAE: u32 = 0x400;

/// An access point as the applet lists it.
#[derive(Clone, Debug)]
pub struct ApInfo {
    pub path: String,
    pub ssid: String,
    pub strength: u8,
    pub secured: bool,
    pub sae: bool,
}

/// An active VPN connection.
#[derive(Clone, Debug)]
pub struct VpnInfo {
    pub name: String,
    pub active_connection_path: String,
}

/// What the network applet shows.
#[derive(Clone, Debug)]
pub struct NmSnapshot {
    pub wifi_enabled: bool,
    pub airplane_mode: bool,
    pub connected_ap: Option<ApInfo>,
    pub access_points: Vec<ApInfo>,
    pub has_wired: bool,
    pub wired_connected: bool,
    pub vpn: Option<VpnInfo>,
}

/// The properties of an access point, as far as NetworkManager gave them
/// (`ssid` as its raw bytes).
#[derive(Clone, Debug)]
pub struct ApProps {
    pub path: String,
    pub ssid: Option<Vec<u8>>,
    pub strength: Option<u8>,
    pub flags: Option<u32>,
    pub wpa_flags: Option<u32>,
    pub rsn_flags: Option<u32>,
}

/// The wireless device's properties: its active access point and, when the
/// list could be read, its access points.
#[derive(Clone, Debug)]
pub struct WifiDeviceProps {
    pub active_access_point: Option<String>,
    pub access_points: Option<Vec<ApProps>>,
}

/// An active connection's properties.
#[derive(Clone, Debug)]
pub struct ActiveConnectionProps {
    pub path: String,
    pub vpn: Option<bool>,
    pub id: Option<String>,
}

/// The WireGuard device's properties, with the id of its active connection.
#[derive(Clone, Debug)]
pub struct WireguardProps {
    pub state: Option<u32>,
    pub active_connection: Option<String>,
    pub interface: Option<String>,
    pub active_connection_id: Option<String>,
}

/// Everything the snapshot is made from.
#[derive(Clone, Debug)]
pub struct NmProps {
    pub wireless_enabled: Option<bool>,
    pub wwan_enabled: Option<bool>,
    /// Present when there is a wireless device.
    pub wifi: Option<WifiDeviceProps>,
    /// Present when there is a wired device: its state, when known.
    pub wired_state: Option<Option<u32>>,
    pub active_connections: Vec<ActiveConnectionProps>,
    /// Present when there is a WireGuard device.
    pub wireguard: Option<WireguardProps>,
}

pub type ApView = (Seq<char>, Seq<char>, u8, bool, bool);

pub open spec fn ap_view(a: ApInfo) -> ApView {
    (a.path@, a.ssid@, a.strength, a.secured, a.sae)
}

pub open spec fn ap_views(s: Seq<ApInfo>) -> Seq<ApView> {
    s.map_values(|a: ApInfo| ap_view(a))
}

/// An SSID as text: its bytes decoded as `String::from_utf8_lossy` does;
/// empty when there is none.
pub open spec fn ssid_text(b: Option<Vec<u8>>) -> Seq<char> {
    match b {
        Some(bytes) => lossy_utf8(bytes@),
        None => seq![],
    }
}

fn ssid_to_string(b: &Option<Vec<u8>>) -> (r: String)
    ensures
        r@ == ssid_text(*b),
{
    match b {
        Some(bytes) => lossy_text(bytes),
        None => String::new(),
    }
}

pub open spec fn or_zero(x: Option<u32>) -> u32 {
    match x {
        Some(v) => v,
        None => 0,
    }
}

/// Whether an access point needs a password, and whether it uses SAE (WPA3).
pub open spec fn ap_security(flags: u32, wpa: u32, rsn: u32) -> (bool, bool) {
    let key_mgmt = wpa | rsn;
    let sae = key_mgmt & AP_SEC_KEY_MGMT_SAE != 0;
    let secured = flags & AP_FLAG_PRIVACY != 0 || key_mgmt & (AP_SEC_KEY_MGMT_PSK
        | AP_SEC_KEY_MGMT_SAE) != 0;
    (secured, sae)
}

/// The access point that a set of properties describes.
pub open spec fn spec_ap_info(p: ApProps) -> ApView {
    let sec = ap_security(or_zero(p.flags), or_zero(p.wpa_flags), or_zero(p.rsn_flags));
    (
        p.path@,
        ssid_text(p.ssid),
        match p.strength {
            Some(s) => s,
            None => 0,
        },
        sec.0,
        sec.1,
    )
}

/// The access point that a set of properties describes.
pub fn ap_info(p: &ApProps) -> (r: ApInfo)
    ensures
        ap_view(r) == spec_ap_info(*p),
{
    let strength: u8 = match p.strength {
        Some(s) => s,
        None => 0,
    };
    let flags: u32 = match p.flags {
        Some(v) => v,
        None => 0,
    };
    let wpa: u32 = match p.wpa_flags {
        Some(v) => v,
        None => 0,
    };
    let rsn: u32 = match p.rsn_flags {
        Some(v) => v,
        None => 0,
    };
    let key_mgmt: u32 = wpa | rsn;
    let sae: bool = key_mgmt & AP_SEC_KEY_MGMT_SAE != 0;
    let secured: bool = flags & AP_FLAG_PRIVACY != 0 || key_mgmt & (AP_SEC_KEY_MGMT_PSK
        | AP_SEC_KEY_MGMT_SAE) != 0;
    ApInfo { path: p.path.clone(), ssid: ssid_to_string(&p.ssid), strength, secured, sae }
}

impl SpecOrder for ApInfo {
    /// Stronger access points go first.
    open spec fn spec_before(&self, other: &Self) -> bool {
        self.strength > other.strength
    }

    proof fn lemma_irreflexive(a: Self) {
    }

    proof fn lemma_transitive(a: Self, b: Self, c: Self) {
    }

    proof fn lemma_split(a: Self, b: Self, c: Self) {
    }
}

impl SortKey for ApInfo {
    fn before(&self, other: &Self) -> (r: bool) {
        self.strength > other.strength
    }
}

impl SpecOrder for ApView {
    /// Stronger access points go first.
    open spec fn spec_before(&self, other: &Self) -> bool {
        self.2 > other.2
    }

    proof fn lemma_irreflexive(a: Self) {
    }

    proof fn lemma_transitive(a: Self, b: Self, c: Self) {
    }

    proof fn lemma_split(a: Self, b: Self, c: Self) {
    }
}

impl SortView for ApInfo {
    type V = ApView;

    open spec fn sort_view(&self) -> ApView {
        ap_view(*self)
    }

    proof fn lemma_view_before(a: Self, b: Self) {
    }
}

/// The listed access points, in NetworkManager's order: those with a name.
pub open spec fn named_aps(props: Seq<ApProps>) -> Seq<ApView>
    decreases props.len(),
{
    if props.len() == 0 {
        seq![]
    } else {
        let rest = named_aps(props.drop_last());
        if ssid_text(props.last().ssid).len() > 0 {
            rest.push(spec_ap_info(props.last()))
        } else {
            rest
        }
    }
}

/// The last access point with path `path`.
pub open spec fn last_with_path(aps: Seq<ApView>, path: Seq<char>) -> Option<ApView>
    decreases aps.len(),
{
    if aps.len() == 0 {
        None
    } else if aps.last().0 == path {
        Some(aps.last())
    } else {
        last_with_path(aps.drop_last(), path)
    }
}

/// A D-Bus object path, `"/"` standing for none.
pub open spec fn real_path(p: Option<String>) -> Option<Seq<char>> {
    match p {
        Some(s) => if s@ == "/"@ {
            None
        } else {
            Some(s@)
        },
        None => None,
    }
}

pub open spec fn text_or_empty(t: Option<String>) -> Seq<char> {
    match t {
        Some(s) => s@,
        None => seq![],
    }
}

/// The first active connection that is a VPN.
pub open spec fn first_vpn(cs: Seq<ActiveConnectionProps>) -> Option<(Seq<char>, Seq<char>)>
    decreases cs.len(),
{
    if cs.len() == 0 {
        None
    } else if cs[0].vpn == Some(true) {
        Some((text_or_empty(cs[0].id), cs[0].path@))
    } else {
        first_vpn(cs.drop_first())
    }
}

/// The VPN the applet shows: the first active VPN connection, else an
/// activated WireGuard device with an active connection.
pub open spec fn spec_vpn(p: NmProps) -> Option<(Seq<char>, Seq<char>)> {
    match first_vpn(p.active_connections@) {
        Some(v) => Some(v),
        None => match p.wireguard {
            Some(g) => if or_zero(g.state) == DEVICE_STATE_ACTIVATED {
                match real_path(g.active_connection) {
                    Some(path) => Some(
                        (
                            match g.active_connection_id {
                                Some(id) => id@,
                                None => text_or_empty(g.interface),
                            },
                            path,
                        ),
                    ),
                    None => None,
                }
            } else {
                None
            },
            None => None,
        },
    }
}

pub open spec fn listed_aps(p: NmProps) -> Seq<ApView> {
    match p.wifi {
        Some(w) => match w.access_points {
            Some(aps) => named_aps(aps@),
            None => seq![],
        },
        None => seq![],
    }
}

pub open spec fn spec_connected_ap(p: NmProps) -> Option<ApView> {
    match p.wifi {
        Some(w) => match real_path(w.active_access_point) {
            Some(path) => last_with_path(listed_aps(p), path),
            None => None,
        },
        None => None,
    }
}

pub open spec fn opt_ap_view(a: Option<ApInfo>) -> Option<ApView> {
    match a {
        Some(x) => Some(ap_view(x)),
        None => None,
    }
}

pub open spec fn opt_vpn_view(v: Option<VpnInfo>) -> Option<(Seq<char>, Seq<char>)> {
    match v {
        Some(x) => Some((x.name@, x.active_connection_path@)),
        None => None,
    }
}

fn real_path_exec(p: &Option<String>) -> (r: Option<String>)
    ensures
        match r {
            Some(s) => real_path(*p) == Some(s@),
            None => real_path(*p) is None,
        },
{
    match p {
        Some(s) => {
            if crate::text::text_eq(s.as_str(), "/") {
                None
            } else {
                Some(s.clone())
            }
        },
        None => None,
    }
}

fn copy_ap(a: &ApInfo) -> (r: ApInfo)
    ensures
        ap_view(r) == ap_view(*a),
{
    ApInfo {
        path: a.path.clone(),
        ssid: a.ssid.clone(),
        strength: a.strength,
        secured: a.secured,
        sae: a.sae,
    }
}

/// The snapshot the network applet shows, from NetworkManager's properties:
/// airplane mode when neither wireless nor mobile radio is enabled, the named
/// access points strongest first (equally strong ones in NetworkManager's
/// order), the one in use, the wired link, and the VPN.
pub fn build_snapshot(p: &NmProps) -> (r: NmSnapshot)
    ensures
        r.wifi_enabled == (p.wireless_enabled == Some(true)),
        r.airplane_mode == spec_airplane_mode(*p),
        ap_views(r.access_points@) == stable_sorted(listed_aps(*p)),
        opt_ap_view(r.connected_ap) == spec_connected_ap(*p),
        r.has_wired == (p.wired_state is Some),
        r.wired_connected == (p.wired_state matches Some(s) && or_zero(s) == DEVICE_STATE_ACTIVATED),
        opt_vpn_view(r.vpn) == spec_vpn(*p),
{
    let wifi_enabled: bool = match p.wireless_enabled {
        Some(b) => b,
        None => false,
    };
    let wwan_enabled: bool = match p.wwan_enabled {
        Some(b) => b,
        None => true,
    };
    let airplane_mode: bool = !wifi_enabled && !wwan_enabled;
    let mut connected_ap: Option<ApInfo> = None;
    let mut access_points: Vec<ApInfo> = Vec::new();
    match &p.wifi {
        Some(w) => {
            let active: Option<String> = real_path_exec(&w.active_access_point);
            match &w.access_points {
                Some(aps) => {
                    let mut k: usize = 0;
                    while k < aps.len()
                        invariant
                            k <= aps.len(),
                            p.wifi == Some(*w),
                            w.access_points == Some(*aps),
                            ap_views(access_points@) == named_aps(aps@.take(k as int)),
                            match active {
                                Some(path) => opt_ap_view(connected_ap) == last_with_path(
                                    named_aps(aps@.take(k as int)),
                                    path@,
                                ),
                                None => connected_ap is None,
                            },
                        decreases aps.len() - k,
                    {
                        proof {
                            assert(aps@.take(k + 1).drop_last() =~= aps@.take(k as int));
                            assert(aps@.take(k + 1).last() == aps@[k as int]);
                        }
                        let info: ApInfo = ap_info(&aps[k]);
                        if info.ssid.unicode_len() > 0 {
                            let ghost before = ap_views(access_points@);
                            proof {
                                let named = named_aps(aps@.take(k as int));
                                assert(named_aps(aps@.take(k + 1)) == named.push(ap_view(info)));
                                assert(named.push(ap_view(info)).drop_last() =~= named);
                            }
                            match &active {
                                Some(path) => {
                                    if crate::text::text_eq(info.path.as_str(), path.as_str()) {
                                        connected_ap = Some(copy_ap(&info));
                                    }
                                },
                                None => {},
                            }
                            access_points.push(info);
                            proof {
                                assert(ap_views(access_points@) =~= before.push(ap_view(info)));
                            }
                        }
                        k = k + 1;
                    }
                    proof {
                        assert(aps@.take(aps.len() as int) =~= aps@);
                    }
                },
                None => {
                    assert(ap_views(access_points@) =~= Seq::<ApView>::empty());
                },
            }
        },
        None => {
            assert(ap_views(access_points@) =~= Seq::<ApView>::empty());
        },
    }
    let ghost unsorted = access_points@;
    let access_points: Vec<ApInfo> = stable_sort(access_points);
    proof {
        lemma_sorted_views(unsorted);
        assert(ap_views(unsorted) =~= sort_views(unsorted));
        assert(ap_views(access_points@) =~= sort_views(access_points@));
    }
    let has_wired: bool = p.wired_state.is_some();
    let wired_connected: bool = match p.wired_state {
        Some(s) => (match s {
            Some(v) => v,
            None => 0,
        }) == DEVICE_STATE_ACTIVATED,
        None => false,
    };
    let vpn: Option<VpnInfo> = find_vpn(p);
    NmSnapshot {
        wifi_enabled,
        airplane_mode,
        connected_ap,
        access_points,
        has_wired,
        wired_connected,
        vpn,
    }
}

/// The applet lists access points strongest first.
pub proof fn law_access_points_strongest_first(s: Seq<ApInfo>)
    ensures
        forall|a: int, b: int|
            0 <= a < b < stable_sorted(s).len() ==> stable_sorted(s)[a].strength >= stable_sorted(
                s,
            )[b].strength,
        stable_sorted(s).len() == s.len(),
{
    lemma_stable_sorted(s);
    let r = stable_sorted(s);
    assert forall|a: int, b: int| 0 <= a < b < r.len() implies r[a].strength >= r[b].strength by {
        assert(!r[b].spec_before(&r[a]));
    }
}

fn find_vpn(p: &NmProps) -> (r: Option<VpnInfo>)
    ensures
        opt_vpn_view(r) == spec_vpn(*p),
{
    let cs: &Vec<ActiveConnectionProps> = &p.active_connections;
    let mut k: usize = 0;
    proof {
        assert(cs@.skip(0) =~= cs@);
    }
    while k < cs.len()
        invariant
            k <= cs.len(),
            cs@ == p.active_connections@,
            first_vpn(cs@) == first_vpn(cs@.skip(k as int)),
        decreases cs.len() - k,
    {
        proof {
            assert(cs@.skip(k as int)[0] == cs@[k as int]);
            assert(cs@.skip(k as int).drop_first() =~= cs@.skip(k + 1));
        }
        let is_vpn: bool = match cs[k].vpn {
            Some(v) => v,
            None => false,
        };
        if is_vpn {
            let name: String = match &cs[k].id {
                Some(id) => id.clone(),
                None => String::new(),
            };
            return Some(VpnInfo { name, active_connection_path: cs[k].path.clone() });
        }
        k = k + 1;
    }
    proof {
        assert(cs@.skip(k as int) =~= Seq::<ActiveConnectionProps>::empty());
    }
    match &p.wireguard {
        Some(g) => {
            let state: u32 = match g.state {
                Some(v) => v,
                None => 0,
            };
            if state == DEVICE_STATE_ACTIVATED {
                match real_path_exec(&g.active_connection) {
                    Some(path) => {
                        let name: String = match &g.active_connection_id {
                            Some(id) => id.clone(),
                            None => match &g.interface {
                                Some(i) => i.clone(),
                                None => String::new(),
                            },
                        };
                        Some(VpnInfo { name, active_connection_path: path })
                    },
                    None => None,
                }
            } else {
                None
            }
        },
        None => None,
    }
}

/// The devices NetworkManager reports that the applet uses: the first
/// wireless, the first wired and the first WireGuard device.
#[derive(Clone, Debug)]
pub struct DevicePaths {
    pub wifi: Option<String>,
    pub wired: Option<String>,
    pub wireguard: Option<String>,
}

/// The path of the first device of type `t`.
pub open spec fn first_of_type(devices: Seq<(String, Option<u32>)>, t: u32) -> Option<Seq<char>>
    decreases devices.len(),
{
    if devices.len() == 0 {
        None
    } else if devices[0].1 == Some(t) {
        Some(devices[0].0@)
    } else {
        first_of_type(devices.drop_first(), t)
    }
}

pub open spec fn opt_text(t: Option<String>) -> Option<Seq<char>> {
    match t {
        Some(s) => Some(s@),
        None => None,
    }
}

/// Picks the first device of each kind from the paths and device types
/// NetworkManager reports.
pub fn classify_devices(devices: &Vec<(String, Option<u32>)>) -> (r: DevicePaths)
    ensures
        opt_text(r.wifi) == first_of_type(devices@, DEVICE_TYPE_WIFI),
        opt_text(r.wired) == first_of_type(devices@, DEVICE_TYPE_ETHERNET),
        opt_text(r.wireguard) == first_of_type(devices@, DEVICE_TYPE_WIREGUARD),
{
    let mut wifi: Option<String> = None;
    let mut wired: Option<String> = None;
    let mut wireguard: Option<String> = None;
    let mut k: usize = devices.len();
    proof {
        assert(devices@.skip(k as int) =~= Seq::<(String, Option<u32>)>::empty());
    }
    while k > 0
        invariant
            k <= devices.len(),
            opt_text(wifi) == first_of_type(devices@.skip(k as int), DEVICE_TYPE_WIFI),
            opt_text(wired) == first_of_type(devices@.skip(k as int), DEVICE_TYPE_ETHERNET),
            opt_text(wireguard) == first_of_type(devices@.skip(k as int), DEVICE_TYPE_WIREGUARD),
        decreases k,
    {
        let j: usize = k - 1;
        proof {
            assert(devices@.skip(j as int)[0] == devices@[j as int]);
            assert(devices@.skip(j as int).drop_first() =~= devices@.skip(k as int));
        }
        let t: Option<u32> = devices[j].1;
        if t == Some(DEVICE_TYPE_WIFI) {
            wifi = Some(devices[j].0.clone());
        } else if t == Some(DEVICE_TYPE_ETHERNET) {
            wired = Some(devices[j].0.clone());
        } else if t == Some(DEVICE_TYPE_WIREGUARD) {
            wireguard = Some(devices[j].0.clone());
        }
        k = j;
    }
    proof {
        assert(devices@.skip(0) =~= devices@);
    }
    DevicePaths { wifi, wired, wireguard }
}

impl DevicePaths {
    /// The applet needs a wireless or a wired device.
    pub fn usable(&self) -> (r: bool)
        ensures
            r == (self.wifi is Some || self.wired is Some),
    {
        self.wifi.is_some() || self.wired.is_some()
    }
}

/// A saved connection profile: its path and the bytes of the SSID it is
/// for, if any.
#[derive(Clone, Debug)]
pub struct SavedConnection {
    pub path: String,
    pub ssid: Option<Vec<u8>>,
}

/// The first saved profile for `ssid`.
pub open spec fn first_saved(profiles: Seq<SavedConnection>, ssid: Seq<char>) -> Option<Seq<char>>
    decreases profiles.len(),
{
    if profiles.len() == 0 {
        None
    } else if profiles[0].ssid is Some && ssid_text(profiles[0].ssid) == ssid {
        Some(profiles[0].path@)
    } else {
        first_saved(profiles.drop_first(), ssid)
    }
}

/// The path of the first saved profile for the network `ssid`.
pub fn find_saved_connection(profiles: &Vec<SavedConnection>, ssid: &str) -> (r: Option<String>)
    ensures
        opt_text(r) == first_saved(profiles@, ssid@),
{
    let mut k: usize = 0;
    proof {
        assert(profiles@.skip(0) =~= profiles@);
    }
    while k < profiles.len()
        invariant
            k <= profiles.len(),
            first_saved(profiles@, ssid@) == first_saved(profiles@.skip(k as int), ssid@),
        decreases profiles.len() - k,
    {
        proof {
            assert(profiles@.skip(k as int)[0] == profiles@[k as int]);
            assert(profiles@.skip(k as int).drop_first() =~= profiles@.skip(k + 1));
        }
        match &profiles[k].ssid {
            Some(b) => {
                let s: String = lossy_text(b);
                if crate::text::text_eq(s.as_str(), ssid) {
                    return Some(profiles[k].path.clone());
                }
            },
            None => {},
        }
        k = k + 1;
    }
    proof {
        assert(profiles@.skip(k as int) =~= Seq::<SavedConnection>::empty());
    }
    None
}

/// The key management a password connection to `ap` uses.
pub fn key_mgmt(ap: &ApInfo) -> (r: &'static str)
    ensures
        r@ == if ap.sae { "sae"@ } else { "wpa-psk"@ },
{
    if ap.sae {
        "sae"
    } else {
        "wpa-psk"
    }
}

pub open spec fn spec_signal_icon(strength: u8) -> Seq<char> {
    if 80 <= strength && strength <= 100 {
        "network-wireless-signal-excellent-symbolic"@
    } else if 55 <= strength && strength <= 79 {
        "network-wireless-signal-good-symbolic"@
    } else if 30 <= strength && strength <= 54 {
        "network-wireless-signal-ok-symbolic"@
    } else if 1 <= strength && strength <= 29 {
        "network-wireless-signal-weak-symbolic"@
    } else {
        "network-wireless-signal-none-symbolic"@
    }
}

/// The icon for a signal strength in percent.
pub fn signal_icon_name(strength: u8) -> (r: &'static str)
    ensures
        r@ == spec_signal_icon(strength),
{
    if 80 <= strength && strength <= 100 {
        "network-wireless-signal-excellent-symbolic"
    } else if 55 <= strength && strength <= 79 {
        "network-wireless-signal-good-symbolic"
    } else if 30 <= strength && strength <= 54 {
        "network-wireless-signal-ok-symbolic"
    } else if 1 <= strength && strength <= 29 {
        "network-wireless-signal-weak-symbolic"
    } else {
        "network-wireless-signal-none-symbolic"
    }
}

/// The icon the bar shows for the network state.
pub fn icon_name_for(s: &NmSnapshot) -> (r: &'static str)
    ensures
        r@ == if s.airplane_mode {
            "airplane-mode-symbolic"@
        } else if s.connected_ap is Some {
            spec_signal_icon(s.connected_ap->0.strength)
        } else if s.wired_connected {
            "network-wired-symbolic"@
        } else if s.wifi_enabled {
            "network-wireless-signal-none-symbolic"@
        } else {
            "network-wireless-disabled-symbolic"@
        },
{
    if s.airplane_mode {
        "airplane-mode-symbolic"
    } else {
        match &s.connected_ap {
            Some(ap) => signal_icon_name(ap.strength),
            None => {
                if s.wired_connected {
                    "network-wired-symbolic"
                } else if s.wifi_enabled {
                    "network-wireless-signal-none-symbolic"
                } else {
                    "network-wireless-disabled-symbolic"
                }
            },
        }
    }
}

/// The text of the wired row.
pub fn wired_text(connected: bool) -> (r: &'static str)
    ensures
        r@ == if connected { "Ethernet: Connected"@ } else { "Ethernet: Not connected"@ },
{
    if connected {
        "Ethernet: Connected"
    } else {
        "Ethernet: Not connected"
    }
}

/// Whether the popover lists networks: only with Wi-Fi on and airplane mode off.
pub fn lists_networks(s: &NmSnapshot) -> (r: bool)
    ensures
        r == (!s.airplane_mode && s.wifi_enabled),
{
    !s.airplane_mode && s.wifi_enabled
}

/// What clicking an access point in the list does.
#[derive(Clone, Copy, Debug, PartialEq, Eq, Structural)]
pub enum ApClick {
    /// A saved profile was activated.
    UsedSaved,
    /// The network needs a password first.
    AskPassword,
    /// Connect to the open network.
    ConnectOpen,
}

/// What clicking an access point does, given whether a saved profile was activated.
pub fn ap_click(saved_activated: bool, secured: bool) -> (r: ApClick)
    ensures
        r == if saved_activated {
            ApClick::UsedSaved
        } else if secured {
            ApClick::AskPassword
        } else {
            ApClick::ConnectOpen
        },
{
    if saved_activated {
        ApClick::UsedSaved
    } else if secured {
        ApClick::AskPassword
    } else {
        ApClick::ConnectOpen
    }
}

/// The complaint shown for a password, if any: an empty one is refused.
pub fn password_problem(password: &str) -> (r: Option<&'static str>)
    ensures
        r matches Some(m) ==> m@ == "Enter a password"@,
        r is Some <==> password@.len() == 0,
{
    if password.unicode_len() == 0 {
        Some("Enter a password")
    } else {
        None
    }
}

/// What the list part of the network popover shows.
#[derive(Clone, Copy, Debug, PartialEq, Eq, Structural)]
pub enum ListMode {
    /// Nothing: Wi-Fi is off or airplane mode is on.
    Hidden,
    /// The network in use, with "Show all networks" and "Disconnect".
    ConnectedOnly,
    /// Every network found.
    All,
}

/// What the popover lists: nothing without Wi-Fi, the network in use alone
/// unless all were asked for, else every network.
pub fn list_mode(s: &NmSnapshot, show_all: bool) -> (r: ListMode)
    ensures
        r == if s.airplane_mode || !s.wifi_enabled {
            ListMode::Hidden
        } else if s.connected_ap is Some && !show_all {
            ListMode::ConnectedOnly
        } else {
            ListMode::All
        },
{
    if s.airplane_mode || !s.wifi_enabled {
        ListMode::Hidden
    } else if s.connected_ap.is_some() && !show_all {
        ListMode::ConnectedOnly
    } else {
        ListMode::All
    }
}

/// Whether a row of the full list is marked as the network in use.
pub fn row_is_connected(s: &NmSnapshot, ap: &ApInfo) -> (r: bool)
    ensures
        r == (s.connected_ap matches Some(c) && c.path@ == ap.path@),
{
    match &s.connected_ap {
        Some(c) => crate::text::text_eq(c.path.as_str(), ap.path.as_str()),
        None => false,
    }
}

/// The radio settings airplane mode writes: Wi-Fi and mobile radio both
/// off when it is turned on, both on when it is turned off.
pub fn airplane_settings(enabled: bool) -> (r: (bool, bool))
    ensures
        r == (!enabled, !enabled),
{
    (!enabled, !enabled)
}

/// Airplane mode as the snapshot reports it: neither radio enabled.
pub open spec fn spec_airplane_mode(p: NmProps) -> bool {
    p.wireless_enabled != Some(true) && p.wwan_enabled == Some(false)
}

/// Setting airplane mode and reading the radios back shows that setting:
/// once NetworkManager reports the radios as written, the snapshot's
/// airplane mode is the one set.
pub proof fn law_airplane_round_trip(enabled: bool, p: NmProps)
    requires
        p.wireless_enabled == Some(!enabled),
        p.wwan_enabled == Some(!enabled),
    ensures
        spec_airplane_mode(p) == enabled,
{
}

/// The security section of a new Wi-Fi connection: the key management
/// the network uses and the password.
#[derive(Clone, Debug)]
pub struct WifiSecurity {
    pub key_mgmt: String,
    pub psk: String,
}

/// The settings of a new Wi-Fi connection to an access point: its SSID's
/// bytes, the connection's type, mode and id, and the security section
/// when a password is given.
#[derive(Clone, Debug)]
pub struct NewConnection {
    pub ssid: Vec<u8>,
    pub mode: String,
    pub connection_type: String,
    pub id: String,
    pub security: Option<WifiSecurity>,
}

/// The connection that NetworkManager is asked to add and activate for an
/// access point: an infrastructure Wi-Fi connection named after the SSID,
/// secured by the password (SAE or WPA-PSK, as the network uses) when one
/// is given.
pub fn new_connection(ap: &ApInfo, password: Option<&str>) -> (r: NewConnection)
    ensures
        r.ssid@ == vstd::utf8::encode_utf8(ap.ssid@),
        r.mode@ == "infrastructure"@,
        r.connection_type@ == "802-11-wireless"@,
        r.id@ == ap.ssid@,
        match password {
            Some(pw) => r.security matches Some(sec) && sec.psk@ == pw@ && sec.key_mgmt@ == if ap.sae {
                "sae"@
            } else {
                "wpa-psk"@
            },
            None => r.security is None,
        },
{
    let security: Option<WifiSecurity> = match password {
        Some(pw) => Some(
            WifiSecurity {
                key_mgmt: crate::text::owned(key_mgmt(ap)),
                psk: crate::text::owned(pw),
            },
        ),
        None => None,
    };
    NewConnection {
        ssid: ap.ssid.as_str().as_bytes_vec(),
        mode: crate::text::owned("infrastructure"),
        connection_type: crate::text::owned("802-11-wireless"),
        id: ap.ssid.clone(),
        security,
    }
}

} // verus!
