//! Device discovery: categories, device identities, provider inference and
//! the registry of discovered devices.
//!
//! The device monitor itself lives outside the library; it hands each device
//! over as plain values (a [`DeviceInfo`]) together with a timestamp in
//! milliseconds of a monotonic clock.
use vstd::prelude::*;

use std::collections::hash_map::DefaultHasher;
use std::hash::{BuildHasher, BuildHasherDefault};

use crate::property::StrMap;
use crate::text::{
    concat2, contains_str, has_prefix, has_substring, hex_char, hex_fixed, push_hex_fixed, str_eq, string_of,
};

verus! {

// ---------------------------------------------------------------------------
// Categories
// ---------------------------------------------------------------------------

/// Device category for filtering.
#[derive(Debug, Clone, Copy, PartialEq, Eq, Structural, Hash)]
pub enum DeviceCategory {
    /// Audio input devices (microphones, line-in).
    AudioSource,
    /// Audio output devices (speakers, headphones).
    AudioSink,
    /// Video input devices (cameras, capture cards).
    VideoSource,
    /// Network sources (NDI, etc.).
    NetworkSource,
    /// Other/unknown device types.
    Other,
}

/// The category of a device class string.
pub open spec fn category_of(class: Seq<char>) -> DeviceCategory {
    if class == "Audio/Source"@ {
        DeviceCategory::AudioSource
    } else if class == "Audio/Sink"@ {
        DeviceCategory::AudioSink
    } else if class == "Video/Source"@ {
        DeviceCategory::VideoSource
    } else if class == "Source/Network"@ {
        DeviceCategory::NetworkSource
    } else {
        DeviceCategory::Other
    }
}

/// The device class filter of a category.
pub open spec fn filter_of(c: DeviceCategory) -> Option<Seq<char>> {
    match c {
        DeviceCategory::AudioSource => Some("Audio/Source"@),
        DeviceCategory::AudioSink => Some("Audio/Sink"@),
        DeviceCategory::VideoSource => Some("Video/Source"@),
        DeviceCategory::NetworkSource => Some("Source/Network"@),
        DeviceCategory::Other => None,
    }
}

impl DeviceCategory {
    /// Parse device category from GStreamer device class string.
    pub fn from_device_class(class: &str) -> (r: DeviceCategory)
        ensures
            r == category_of(class@),
    {
        if str_eq(class, "Audio/Source") {
            DeviceCategory::AudioSource
        } else if str_eq(class, "Audio/Sink") {
            DeviceCategory::AudioSink
        } else if str_eq(class, "Video/Source") {
            DeviceCategory::VideoSource
        } else if str_eq(class, "Source/Network") {
            DeviceCategory::NetworkSource
        } else {
            DeviceCategory::Other
        }
    }

    /// Get GStreamer device class filter string.
    pub fn to_filter_string(&self) -> (r: Option<&'static str>)
        ensures
            match filter_of(*self) {
                Some(f) => r is Some && r->0@ == f,
                None => r is None,
            },
    {
        match self {
            DeviceCategory::AudioSource => Some("Audio/Source"),
            DeviceCategory::AudioSink => Some("Audio/Sink"),
            DeviceCategory::VideoSource => Some("Video/Source"),
            DeviceCategory::NetworkSource => Some("Source/Network"),
            DeviceCategory::Other => None,
        }
    }
}

/// A category's filter string is parsed back into that category, and only
/// `Other` has no filter string.
pub proof fn lemma_category_filter_round_trip(c: DeviceCategory)
    ensures
        filter_of(c) is None <==> c == DeviceCategory::Other,
        filter_of(c) matches Some(f) ==> category_of(f) == c,
{
    reveal_strlit("Audio/Source");
    reveal_strlit("Audio/Sink");
    reveal_strlit("Video/Source");
    reveal_strlit("Source/Network");
    assert("Audio/Sink"@ != "Audio/Source"@) by {
        assert("Audio/Sink"@.len() != "Audio/Source"@.len());
    }
    assert("Video/Source"@ != "Audio/Source"@) by {
        assert("Video/Source"@[0] != "Audio/Source"@[0]);
    }
    assert("Video/Source"@ != "Audio/Sink"@) by {
        assert("Video/Source"@.len() != "Audio/Sink"@.len());
    }
    assert("Source/Network"@ != "Audio/Source"@) by {
        assert("Source/Network"@.len() != "Audio/Source"@.len());
    }
    assert("Source/Network"@ != "Audio/Sink"@) by {
        assert("Source/Network"@.len() != "Audio/Sink"@.len());
    }
    assert("Source/Network"@ != "Video/Source"@) by {
        assert("Source/Network"@.len() != "Video/Source"@.len());
    }
}

// ---------------------------------------------------------------------------
// Device identities
// ---------------------------------------------------------------------------

/// The 64-bit hash that `std`'s `DefaultHasher` (as created by `new`)
/// computes for the tuple `(class, provider, name)` of string slices.
pub uninterp spec fn device_key_hash(class: Seq<char>, provider: Seq<char>, name: Seq<char>) -> u64;

/// Hashes `(class, provider, name)` with a fresh `DefaultHasher`
/// (`BuildHasher::hash_one`; a tuple hashes its parts in order, as three
/// `Hash::hash` calls on one hasher would).
///
/// Trusted: the result is `DefaultHasher`'s hash of the three strings, which
/// the standard library computes alike for every hasher made by
/// `DefaultHasher::new`/`default` (fixed keys, no per-process seed) in one
/// build of the program; the hash algorithm itself is not stated.
#[verifier::external_body]
fn hash_device_key(class: &str, provider: &str, name: &str) -> (h: u64)
    ensures
        h == device_key_hash(class@, provider@, name@),
{
    BuildHasherDefault::<DefaultHasher>::default().hash_one((class, provider, name))
}

/// The identifier of a device: `dev-` and the 16 lower-case hexadecimal
/// digits of the key hash.
pub open spec fn device_id_spec(class: Seq<char>, provider: Seq<char>, name: Seq<char>) -> Seq<char> {
    "dev-"@ + hex_fixed(device_key_hash(class, provider, name) as nat, 16)
}

/// A 16-digit hexadecimal notation has 16 characters.
pub proof fn lemma_hex_fixed_len(v: nat, width: nat)
    ensures
        hex_fixed(v, width).len() == width,
    decreases width,
{
    if width > 0 {
        lemma_hex_fixed_len(v / 16, (width - 1) as nat);
    }
}

/// Powers of 16 are positive.
proof fn lemma_pow16_positive(width: nat)
    ensures
        pow16(width) > 0,
    decreases width,
{
    if width > 0 {
        lemma_pow16_positive((width - 1) as nat);
    }
}

/// Distinct hexadecimal digits stand for distinct values.
proof fn lemma_hex_char_injective(a: nat, b: nat)
    requires
        a < 16,
        b < 16,
        hex_char(a) == hex_char(b),
    ensures
        a == b,
{
    assert(hex_char(a) as int == if a < 10 { 48 + a } else { 87 + a });
    assert(hex_char(b) as int == if b < 10 { 48 + b } else { 87 + b });
}

/// `16^width`.
pub open spec fn pow16(width: nat) -> nat
    decreases width,
{
    if width == 0 {
        1
    } else {
        16 * pow16((width - 1) as nat)
    }
}

/// Fixed-width hexadecimal notation tells apart the values below
/// `16^width`.
proof fn lemma_hex_fixed_injective(v: nat, w: nat, width: nat)
    requires
        v < pow16(width),
        w < pow16(width),
        hex_fixed(v, width) == hex_fixed(w, width),
    ensures
        v == w,
    decreases width,
{
    if width > 0 {
        let hv = hex_fixed(v, width);
        let hw = hex_fixed(w, width);
        assert(hv.last() == hex_char(v % 16));
        assert(hw.last() == hex_char(w % 16));
        lemma_hex_char_injective(v % 16, w % 16);
        assert(hv.drop_last() == hex_fixed(v / 16, (width - 1) as nat));
        assert(hw.drop_last() == hex_fixed(w / 16, (width - 1) as nat));
        lemma_pow16_positive((width - 1) as nat);
        let p = pow16((width - 1) as nat);
        assert(v / 16 < p) by (nonlinear_arith)
            requires
                v < 16 * p,
                p > 0,
        ;
        assert(w / 16 < p) by (nonlinear_arith)
            requires
                w < 16 * p,
                p > 0,
        ;
        lemma_hex_fixed_injective(v / 16, w / 16, (width - 1) as nat);
        assert(v == 16 * (v / 16) + v % 16);
        assert(w == 16 * (w / 16) + w % 16);
    }
}

/// Two devices get the same id exactly when their (class, provider,
/// name) keys hash alike: the id loses nothing of the hash.
pub proof fn law_device_ids_follow_hashes(c1: Seq<char>, p1: Seq<char>, n1: Seq<char>, c2: Seq<char>, p2: Seq<char>, n2: Seq<char>)
    ensures
        (device_id_spec(c1, p1, n1) == device_id_spec(c2, p2, n2)) == (device_key_hash(c1, p1, n1)
            == device_key_hash(c2, p2, n2)),
        has_prefix(device_id_spec(c1, p1, n1), "dev-"@),
{
    let h1 = device_key_hash(c1, p1, n1);
    let h2 = device_key_hash(c2, p2, n2);
    let d1 = device_id_spec(c1, p1, n1);
    let d2 = device_id_spec(c2, p2, n2);
    reveal_strlit("dev-");
    lemma_hex_fixed_len(h1 as nat, 16);
    assert(d1.subrange(0, 4) =~= "dev-"@);
    if d1 == d2 {
        assert(d1.subrange(4, d1.len() as int) =~= hex_fixed(h1 as nat, 16));
        assert(d2.subrange(4, d2.len() as int) =~= hex_fixed(h2 as nat, 16));
        assert(pow16(16) == 0x1_0000_0000_0000_0000nat) by {
            reveal_with_fuel(pow16, 17);
        }
        lemma_hex_fixed_injective(h1 as nat, h2 as nat, 16);
    }
}

// ---------------------------------------------------------------------------
// Discovered devices
// ---------------------------------------------------------------------------

/// A discovered device.
pub struct DiscoveredDevice {
    /// Unique ID for this device.
    pub id: String,
    /// Display name of the device.
    pub name: String,
    /// Device class (e.g., "Audio/Source", "Video/Source", "Source/Network").
    pub device_class: String,
    /// Device category.
    pub category: DeviceCategory,
    /// Provider that discovered this device.
    pub provider: String,
    /// Additional properties from the device.
    pub properties: StrMap<String>,
    /// When this device was first seen (milliseconds, monotonic clock).
    pub first_seen: u64,
    /// When this device was last seen (milliseconds, monotonic clock).
    pub last_seen: u64,
}

/// The mathematical value of a [`DiscoveredDevice`].
pub struct DeviceView {
    pub id: Seq<char>,
    pub name: Seq<char>,
    pub device_class: Seq<char>,
    pub category: DeviceCategory,
    pub provider: Seq<char>,
    pub properties: Map<Seq<char>, Seq<char>>,
    pub first_seen: u64,
    pub last_seen: u64,
}

impl View for DiscoveredDevice {
    type V = DeviceView;

    open spec fn view(&self) -> DeviceView {
        DeviceView {
            id: self.id@,
            name: self.name@,
            device_class: self.device_class@,
            category: self.category,
            provider: self.provider@,
            properties: self.properties@,
            first_seen: self.first_seen,
            last_seen: self.last_seen,
        }
    }
}

/// API response for a discovered device.
pub struct DeviceResponse {
    pub id: String,
    pub name: String,
    pub device_class: String,
    pub category: DeviceCategory,
    pub provider: String,
    pub properties: StrMap<String>,
    /// Seconds since first discovery.
    pub first_seen_secs_ago: u64,
    /// Seconds since last seen.
    pub last_seen_secs_ago: u64,
}

/// Whole seconds elapsed from `then` to `now` (milliseconds); zero when
/// `then` is later than `now`.
pub open spec fn secs_between(then: u64, now: u64) -> u64 {
    if now >= then { ((now - then) / 1000) as u64 } else { 0 }
}

/// Whether a device is an NDI device: its provider name contains `ndi` or
/// it has an `ndi-name` property.
pub open spec fn is_ndi_spec(d: DeviceView) -> bool {
    has_substring(d.provider, "ndi"@) || d.properties.contains_key("ndi-name"@)
}

impl DiscoveredDevice {
    /// Generate a unique ID from device class, provider, and name.
    pub fn generate_id(device_class: &str, provider: &str, name: &str) -> (r: String)
        ensures
            r@ == device_id_spec(device_class@, provider@, name@),
    {
        let h = hash_device_key(device_class, provider, name);
        let mut r = string_of("dev-");
        push_hex_fixed(&mut r, h, 16);
        r
    }

    /// A copy of this device.
    pub fn duplicate(&self) -> (r: DiscoveredDevice)
        ensures
            r@ == self@,
    {
        DiscoveredDevice {
            id: self.id.clone(),
            name: self.name.clone(),
            device_class: self.device_class.clone(),
            category: self.category,
            provider: self.provider.clone(),
            properties: self.properties.duplicate(),
            first_seen: self.first_seen,
            last_seen: self.last_seen,
        }
    }

    /// Convert to API response format, `now` being the current time
    /// (milliseconds, monotonic clock).
    pub fn to_api_response(&self, now: u64) -> (r: DeviceResponse)
        ensures
            r.id@ == self.id@,
            r.name@ == self.name@,
            r.device_class@ == self.device_class@,
            r.category == self.category,
            r.provider@ == self.provider@,
            r.properties@ == self.properties@,
            r.first_seen_secs_ago == secs_between(self.first_seen, now),
            r.last_seen_secs_ago == secs_between(self.last_seen, now),
    {
        DeviceResponse {
            id: self.id.clone(),
            name: self.name.clone(),
            device_class: self.device_class.clone(),
            category: self.category,
            provider: self.provider.clone(),
            properties: self.properties.duplicate(),
            first_seen_secs_ago: if now >= self.first_seen {
                (now - self.first_seen) / 1000
            } else {
                0
            },
            last_seen_secs_ago: if now >= self.last_seen {
                (now - self.last_seen) / 1000
            } else {
                0
            },
        }
    }

    /// Check if this is an NDI device.
    pub fn is_ndi(&self) -> (r: bool)
        ensures
            r == is_ndi_spec(self@),
    {
        contains_str(self.provider.as_str(), "ndi") || self.properties.contains_key("ndi-name")
    }
}

// ---------------------------------------------------------------------------
// Provider inference and property selection
// ---------------------------------------------------------------------------

/// `s` in lower case, as `str::to_lowercase` maps it (Unicode lower-case
/// mapping).
pub uninterp spec fn lowercase(s: Seq<char>) -> Seq<char>;

/// `str::to_lowercase`.
///
/// Trusted: the result is the standard library's lower-case mapping of `s`,
/// a function of `s` alone; the mapping itself is not stated.
#[verifier::external_body]
fn to_lowercase(s: &str) -> (r: String)
    ensures
        r@ == lowercase(s@),
{
    s.to_lowercase()
}

/// The provider name of a device: from its `device.api` property
/// (lower-cased, with `provider` appended), else `ndideviceprovider` when it
/// has an `ndi-name` property, else inferred from the device class.
pub open spec fn provider_name_spec(
    props: Option<Map<Seq<char>, Seq<char>>>,
    device_class: Seq<char>,
) -> Seq<char> {
    let from_props: Option<Seq<char>> = match props {
        Some(p) => if p.contains_key("device.api"@) {
            Some(lowercase(p["device.api"@]) + "provider"@)
        } else if p.contains_key("ndi-name"@) {
            Some("ndideviceprovider"@)
        } else {
            None
        },
        None => None,
    };
    match from_props {
        Some(n) => n,
        None => if device_class == "Audio/Source"@ || device_class == "Audio/Sink"@ {
            "pulsedeviceprovider"@
        } else if device_class == "Video/Source"@ {
            "v4l2deviceprovider"@
        } else {
            "unknown"@
        },
    }
}

/// Get provider name from device properties or infer from device class.
pub fn get_provider_name(props: &Option<StrMap<String>>, device_class: &str) -> (r: String)
    ensures
        r@ == provider_name_spec(
            match props {
                Some(p) => Some(p@),
                None => None,
            },
            device_class@,
        ),
{
    match props {
        Some(p) => {
            match p.get("device.api") {
                Some(api) => {
                    let lower = to_lowercase(api.as_str());
                    return concat2(lower.as_str(), "provider");
                },
                None => {},
            }
            if p.contains_key("ndi-name") {
                return string_of("ndideviceprovider");
            }
        },
        None => {},
    }
    if str_eq(device_class, "Audio/Source") || str_eq(device_class, "Audio/Sink") {
        string_of("pulsedeviceprovider")
    } else if str_eq(device_class, "Video/Source") {
        string_of("v4l2deviceprovider")
    } else {
        string_of("unknown")
    }
}

/// The names that [`enumeration_property_names`] lists.
pub open spec fn enumeration_names() -> Seq<Seq<char>> {
    seq![
            "device.api"@,
            "device.class"@,
            "device.name"@,
            "device.description"@,
            "device.nick"@,
            "device.icon_name"@,
            "device.path"@,
            "device.serial"@,
            "device.vendor"@,
            "device.product"@,
            "device.bus"@,
            "node.name"@,
            "node.description"@,
            "object.path"@,
            "api.alsa.card"@,
            "api.alsa.card.name"@,
            "api.alsa.path"@,
            "api.v4l2.path"@,
            "ip"@,
            "url-address"@,
            "ndi-name"@,
        ]
}

/// The properties that are kept when a device is first enumerated.
pub fn enumeration_property_names() -> (r: Vec<&'static str>)
    ensures
        names_view(r@) == enumeration_names(),
{
    let mut v: Vec<&'static str> = Vec::new();
    v.push("device.api");
    v.push("device.class");
    v.push("device.name");
    v.push("device.description");
    v.push("device.nick");
    v.push("device.icon_name");
    v.push("device.path");
    v.push("device.serial");
    v.push("device.vendor");
    v.push("device.product");
    v.push("device.bus");
    v.push("node.name");
    v.push("node.description");
    v.push("object.path");
    v.push("api.alsa.card");
    v.push("api.alsa.card.name");
    v.push("api.alsa.path");
    v.push("api.v4l2.path");
    v.push("ip");
    v.push("url-address");
    v.push("ndi-name");
    assert(names_view(v@) =~= seq![
        "device.api"@,
        "device.class"@,
        "device.name"@,
        "device.description"@,
        "device.nick"@,
        "device.icon_name"@,
        "device.path"@,
        "device.serial"@,
        "device.vendor"@,
        "device.product"@,
        "device.bus"@,
        "node.name"@,
        "node.description"@,
        "object.path"@,
        "api.alsa.card"@,
        "api.alsa.card.name"@,
        "api.alsa.path"@,
        "api.v4l2.path"@,
        "ip"@,
        "url-address"@,
        "ndi-name"@,
    ]);
    v
}

/// The properties that are kept when the monitor reports a device added
/// The names that [`event_property_names`] lists.
pub open spec fn event_names() -> Seq<Seq<char>> {
    seq![
            "device.api"@,
            "device.name"@,
            "device.description"@,
            "node.name"@,
            "ip"@,
            "url-address"@,
            "ndi-name"@,
        ]
}

/// while it runs.
pub fn event_property_names() -> (r: Vec<&'static str>)
    ensures
        names_view(r@) == event_names(),
{
    let mut v: Vec<&'static str> = Vec::new();
    v.push("device.api");
    v.push("device.name");
    v.push("device.description");
    v.push("node.name");
    v.push("ip");
    v.push("url-address");
    v.push("ndi-name");
    assert(names_view(v@) =~= seq![
        "device.api"@,
        "device.name"@,
        "device.description"@,
        "node.name"@,
        "ip"@,
        "url-address"@,
        "ndi-name"@,
    ]);
    v
}

/// The string views of a list of names.
pub open spec fn names_view(names: Seq<&'static str>) -> Seq<Seq<char>> {
    names.map_values(|n: &'static str| n@)
}

/// The properties of `all` whose names are in `names`.
pub fn select_properties(all: &StrMap<String>, names: &Vec<&'static str>) -> (r: StrMap<String>)
    ensures
        forall|k: Seq<char>|
            #[trigger] r@.contains_key(k) <==> (all@.contains_key(k) && names_view(names@).contains(k)),
        forall|k: Seq<char>| #[trigger] r@.contains_key(k) ==> r@[k] == all@[k],
{
    let mut r: StrMap<String> = StrMap::new();
    let mut i: usize = 0;
    while i < names.len()
        invariant
            i <= names@.len(),
            forall|k: Seq<char>|
                #[trigger] r@.contains_key(k) <==> (all@.contains_key(k) && names_view(
                    names@,
                ).take(i as int).contains(k)),
            forall|k: Seq<char>| #[trigger] r@.contains_key(k) ==> r@[k] == all@[k],
        decreases names.len() - i,
    {
        let name = names[i];
        let ghost nv = names_view(names@);
        assert(nv.take(i + 1) =~= nv.take(i as int).push(name@));
        match all.get(name) {
            Some(v) => {
                r.insert(string_of(name), v.clone());
            },
            None => {},
        }
        proof {
            let t0 = nv.take(i as int);
            let t1 = nv.take(i + 1);
            assert forall|k: Seq<char>|
                #[trigger] r@.contains_key(k) <==> (all@.contains_key(k) && t1.contains(k)) by {
                if t0.contains(k) {
                    let j = choose|j: int| 0 <= j < t0.len() && #[trigger] t0[j] == k;
                    assert(t1[j] == k);
                }
                if t1.contains(k) {
                    let j = choose|j: int| 0 <= j < t1.len() && #[trigger] t1[j] == k;
                    if j < i {
                        assert(t0[j] == k);
                    }
                }
                if k == name@ {
                    assert(t1[i as int] == k);
                }
            }
        }
        i = i + 1;
    }
    assert(names_view(names@).take(names.len() as int) =~= names_view(names@));
    r
}

/// A device as the monitor reports it.
pub struct DeviceInfo {
    /// Display name.
    pub display_name: String,
    /// Device class.
    pub device_class: String,
    /// The device's string properties, when it has a property structure.
    pub properties: Option<StrMap<String>>,
}

/// The id of a device as reported by the monitor.
pub open spec fn info_id(info: DeviceInfo) -> Seq<char> {
    device_id_spec(
        info.device_class@,
        provider_name_spec(info_props(info), info.device_class@),
        info.display_name@,
    )
}

/// The property map of a reported device, if it has one.
pub open spec fn info_props(info: DeviceInfo) -> Option<Map<Seq<char>, Seq<char>>> {
    match info.properties {
        Some(p) => Some(p@),
        None => None,
    }
}

/// The properties of a reported device that are kept: those named in
/// `names`.
pub open spec fn selected_props(info: DeviceInfo, names: Seq<Seq<char>>) -> Map<Seq<char>, Seq<char>> {
    match info_props(info) {
        Some(p) => Map::new(|k: Seq<char>| p.contains_key(k) && names.contains(k), |k: Seq<char>| p[k]),
        None => Map::empty(),
    }
}

/// A reported device as it is first recorded at `now`.
pub open spec fn discovered_spec(info: DeviceInfo, names: Seq<Seq<char>>, now: u64) -> DeviceView {
    DeviceView {
        id: info_id(info),
        name: info.display_name@,
        device_class: info.device_class@,
        category: category_of(info.device_class@),
        provider: provider_name_spec(info_props(info), info.device_class@),
        properties: selected_props(info, names),
        first_seen: now,
        last_seen: now,
    }
}

/// Turns a reported device into a discovered device first seen at `now`,
/// keeping the properties named in `names`.
pub fn discover(info: &DeviceInfo, names: &Vec<&'static str>, now: u64) -> (r: DiscoveredDevice)
    ensures
        r@ == discovered_spec(*info, names_view(names@), now),
{
    let category = DeviceCategory::from_device_class(info.device_class.as_str());
    let provider = get_provider_name(&info.properties, info.device_class.as_str());
    let properties = match &info.properties {
        Some(p) => select_properties(p, names),
        None => StrMap::new(),
    };
    assert(properties@ =~= selected_props(*info, names_view(names@)));
    let id = DiscoveredDevice::generate_id(
        info.device_class.as_str(),
        provider.as_str(),
        info.display_name.as_str(),
    );
    DiscoveredDevice {
        id,
        name: info.display_name.clone(),
        device_class: info.device_class.clone(),
        category,
        provider,
        properties,
        first_seen: now,
        last_seen: now,
    }
}

// ---------------------------------------------------------------------------
// The registry of discovered devices
// ---------------------------------------------------------------------------

/// The position of the device with id `id` in `d`, at or after `i`.
pub open spec fn device_pos_from(d: Seq<DeviceView>, id: Seq<char>, i: int) -> Option<int>
    decreases d.len() - i,
{
    if i < 0 || i >= d.len() {
        None
    } else if d[i].id == id {
        Some(i)
    } else {
        device_pos_from(d, id, i + 1)
    }
}

/// What `device_pos_from` finds is the position of `id` at or after `i`.
pub proof fn lemma_device_pos(d: Seq<DeviceView>, id: Seq<char>, i: int)
    requires
        0 <= i,
    ensures
        match device_pos_from(d, id, i) {
            Some(p) => i <= p < d.len() && d[p].id == id && forall|j: int| i <= j < p ==> d[j].id != id,
            None => forall|j: int| i <= j < d.len() ==> d[j].id != id,
        },
    decreases d.len() - i,
{
    if i < d.len() && d[i].id != id {
        lemma_device_pos(d, id, i + 1);
    }
}

/// The views of a list of devices.
pub open spec fn devices_view(d: Seq<DiscoveredDevice>) -> Seq<DeviceView> {
    d.map_values(|x: DiscoveredDevice| x@)
}

/// The device with id `id`, if known.
pub open spec fn device_lookup(d: Seq<DeviceView>, id: Seq<char>) -> Option<DeviceView> {
    match device_pos_from(d, id, 0) {
        Some(p) => Some(d[p]),
        None => None,
    }
}

/// The registry after `dev` was reported at `now`: a known id only has its
/// `last_seen` set to `now`; a new id is added as `dev`.
pub open spec fn record_spec(d: Seq<DeviceView>, dev: DeviceView, now: u64) -> Seq<DeviceView> {
    match device_pos_from(d, dev.id, 0) {
        Some(p) => d.update(p, DeviceView { last_seen: now, ..d[p] }),
        None => d.push(dev),
    }
}

/// The registry without the device with id `id`.
pub open spec fn remove_spec(d: Seq<DeviceView>, id: Seq<char>) -> Seq<DeviceView> {
    match device_pos_from(d, id, 0) {
        Some(p) => d.remove(p),
        None => d,
    }
}

/// The discovered devices, indexed by id.
pub struct DeviceRegistry {
    devices: Vec<DiscoveredDevice>,
}

impl View for DeviceRegistry {
    type V = Seq<DeviceView>;

    closed spec fn view(&self) -> Seq<DeviceView> {
        devices_view(self.devices@)
    }
}

/// No two device views of `d` share an id.
pub open spec fn view_ids_unique(d: Seq<DeviceView>) -> bool {
    forall|i: int, j: int|
        0 <= i < d.len() && 0 <= j < d.len() && i != j ==> #[trigger] d[i].id != #[trigger] d[j].id
}

impl DeviceRegistry {
    #[verifier::type_invariant]
    closed spec fn inv(self) -> bool {
        view_ids_unique(self@)
    }

    /// An empty registry.
    pub fn new() -> (r: DeviceRegistry)
        ensures
            r@ == Seq::<DeviceView>::empty(),
    {
        let r = DeviceRegistry { devices: Vec::new() };
        assert(r@ =~= Seq::<DeviceView>::empty());
        r
    }

    /// The position of the device with id `id`.
    fn position(&self, id: &str) -> (r: Option<usize>)
        ensures
            r matches Some(p) ==> p < self@.len() && device_pos_from(self@, id@, 0) == Some(p as int),
            r is None ==> device_pos_from(self@, id@, 0) is None,
    {
        proof {
            lemma_device_pos(self@, id@, 0);
        }
        let mut i: usize = 0;
        while i < self.devices.len()
            invariant
                i <= self.devices@.len(),
                device_pos_from(self@, id@, 0) == device_pos_from(self@, id@, i as int),
            decreases self.devices.len() - i,
        {
            if str_eq(self.devices[i].id.as_str(), id) {
                assert(self@[i as int] == self.devices@[i as int]@);
                return Some(i);
            }
            i = i + 1;
        }
        None
    }

    /// Number of known devices.
    pub fn len(&self) -> (r: usize)
        ensures
            r == self@.len(),
    {
        self.devices.len()
    }

    /// Records a device reported at `now`: a known device gets its
    /// `last_seen` updated, a new one is added. Returns whether it is new.
    pub fn record(&mut self, dev: DiscoveredDevice, now: u64) -> (is_new: bool)
        ensures
            final(self)@ == record_spec(old(self)@, dev@, now),
            is_new == (device_lookup(old(self)@, dev@.id) is None),
    {
        proof {
            use_type_invariant(&*self);
            lemma_device_pos(self@, dev@.id, 0);
        }
        let ghost old_v = self@;
        let mut v: Vec<DiscoveredDevice> = Vec::new();
        std::mem::swap(&mut v, &mut self.devices);
        assert(devices_view(v@) == old_v);
        let ghost dv = dev@;
        let pos = {
            let tmp = DeviceRegistry { devices: v };
            let p = tmp.position(dev.id.as_str());
            v = tmp.devices;
            p
        };
        match pos {
            Some(p) => {
                assert(device_pos_from(old_v, dv.id, 0) == Some(p as int));
                let mut existing = v.remove(p);
                existing.last_seen = now;
                v.insert(p, existing);
                proof {
                    assert(devices_view(v@) =~= old_v.update(
                        p as int,
                        DeviceView { last_seen: now, ..old_v[p as int] },
                    ));
                    let nv = devices_view(v@);
                    assert(view_ids_unique(nv)) by {
                        assert forall|i: int, j: int|
                            0 <= i < nv.len() && 0 <= j < nv.len() && i != j implies #[trigger] nv[i].id
                            != #[trigger] nv[j].id by {
                            assert(nv[i].id == old_v[i].id && nv[j].id == old_v[j].id);
                        }
                    }
                }
                self.devices = v;
                false
            },
            None => {
                v.push(dev);
                proof {
                    assert(devices_view(v@) =~= old_v.push(dv));
                    let nv = devices_view(v@);
                    assert(view_ids_unique(nv)) by {
                        assert forall|i: int, j: int|
                            0 <= i < nv.len() && 0 <= j < nv.len() && i != j implies #[trigger] nv[i].id
                            != #[trigger] nv[j].id by {
                            if i < old_v.len() {
                                assert(nv[i] == old_v[i]);
                            }
                            if j < old_v.len() {
                                assert(nv[j] == old_v[j]);
                            }
                        }
                    }
                }
                self.devices = v;
                true
            },
        }
    }

    /// Removes the device with id `id`; returns whether it was known.
    pub fn remove(&mut self, id: &str) -> (removed: bool)
        ensures
            final(self)@ == remove_spec(old(self)@, id@),
            removed == (device_lookup(old(self)@, id@) is Some),
    {
        proof {
            use_type_invariant(&*self);
        }
        let ghost old_v = self@;
        let mut v: Vec<DiscoveredDevice> = Vec::new();
        std::mem::swap(&mut v, &mut self.devices);
        let pos = {
            let tmp = DeviceRegistry { devices: v };
            let p = tmp.position(id);
            v = tmp.devices;
            p
        };
        assert(devices_view(v@) == old_v);
        match pos {
            Some(p) => {
                assert(device_pos_from(old_v, id@, 0) == Some(p as int));
                let _gone = v.remove(p);
                proof {
                    assert(devices_view(v@) =~= old_v.remove(p as int));
                    let nv = devices_view(v@);
                    assert(view_ids_unique(nv)) by {
                        assert forall|i: int, j: int|
                            0 <= i < nv.len() && 0 <= j < nv.len() && i != j implies #[trigger] nv[i].id
                            != #[trigger] nv[j].id by {
                            let oi = if i < p { i } else { i + 1 };
                            let oj = if j < p { j } else { j + 1 };
                            assert(nv[i] == old_v[oi] && nv[j] == old_v[oj]);
                        }
                    }
                }
                self.devices = v;
                true
            },
            None => {
                self.devices = v;
                false
            },
        }
    }

    /// Forgets every device.
    pub fn clear(&mut self)
        ensures
            final(self)@ == Seq::<DeviceView>::empty(),
    {
        self.devices = Vec::new();
        assert(self@ =~= Seq::<DeviceView>::empty());
    }

    /// The device with id `id`.
    pub fn get(&self, id: &str) -> (r: Option<DiscoveredDevice>)
        ensures
            match device_lookup(self@, id@) {
                Some(d) => r is Some && r->0@ == d,
                None => r is None,
            },
    {
        match self.position(id) {
            Some(p) => {
                assert(self@[p as int] == self.devices@[p as int]@);
                Some(self.devices[p].duplicate())
            },
            None => None,
        }
    }

    /// All devices whose view satisfies `pred`, given as a flag per device.
    fn collect_where(&self, keep: &Vec<bool>) -> (r: Vec<DiscoveredDevice>)
        requires
            keep@.len() == self@.len(),
        ensures
            devices_view(r@) == filter_by_spec(self@, keep@),
    {
        let mut r: Vec<DiscoveredDevice> = Vec::new();
        let mut i: usize = 0;
        while i < self.devices.len()
            invariant
                i <= self.devices@.len(),
                keep@.len() == self@.len(),
                devices_view(r@) == filter_by_spec(self@.take(i as int), keep@.take(i as int)),
            decreases self.devices.len() - i,
        {
            let ghost before = devices_view(r@);
            if keep[i] {
                r.push(self.devices[i].duplicate());
                assert(devices_view(r@) =~= before.push(self@[i as int]));
            }
            proof {
                lemma_filter_by_step(self@, keep@, i as int);
            }
            i = i + 1;
        }
        assert(self@.take(self@.len() as int) =~= self@);
        assert(keep@.take(keep@.len() as int) =~= keep@);
        r
    }

    /// Get all discovered devices.
    pub fn get_devices(&self) -> (r: Vec<DiscoveredDevice>)
        ensures
            devices_view(r@) == self@,
    {
        let mut r: Vec<DiscoveredDevice> = Vec::new();
        let mut i: usize = 0;
        while i < self.devices.len()
            invariant
                i <= self.devices@.len(),
                r@.len() == i,
                forall|j: int| 0 <= j < i ==> #[trigger] r@[j]@ == self.devices@[j]@,
            decreases self.devices.len() - i,
        {
            r.push(self.devices[i].duplicate());
            i = i + 1;
        }
        assert(devices_view(r@) =~= self@);
        r
    }

    /// Get devices filtered by category.
    pub fn get_devices_by_category(&self, category: DeviceCategory) -> (r: Vec<DiscoveredDevice>)
        ensures
            devices_view(r@) == self@.filter(|d: DeviceView| d.category == category),
    {
        let mut keep: Vec<bool> = Vec::new();
        let mut i: usize = 0;
        while i < self.devices.len()
            invariant
                i <= self.devices@.len(),
                keep@.len() == i,
                forall|j: int| 0 <= j < i ==> keep@[j] == (self@[j].category == category),
            decreases self.devices.len() - i,
        {
            assert(self@[i as int] == self.devices@[i as int]@);
            keep.push(self.devices[i].category == category);
            i = i + 1;
        }
        let r = self.collect_where(&keep);
        proof {
            lemma_filter_by_pred(self@, keep@, |d: DeviceView| d.category == category);
        }
        r
    }

    /// Get NDI devices specifically.
    pub fn get_ndi_devices(&self) -> (r: Vec<DiscoveredDevice>)
        ensures
            devices_view(r@) == self@.filter(|d: DeviceView| is_ndi_spec(d)),
    {
        let mut keep: Vec<bool> = Vec::new();
        let mut i: usize = 0;
        while i < self.devices.len()
            invariant
                i <= self.devices@.len(),
                keep@.len() == i,
                forall|j: int| 0 <= j < i ==> keep@[j] == is_ndi_spec(self@[j]),
            decreases self.devices.len() - i,
        {
            assert(self@[i as int] == self.devices@[i as int]@);
            keep.push(self.devices[i].is_ndi());
            i = i + 1;
        }
        let r = self.collect_where(&keep);
        proof {
            lemma_filter_by_pred(self@, keep@, |d: DeviceView| is_ndi_spec(d));
        }
        r
    }
}

/// The elements of `s` whose flag in `keep` is set, in order.
pub open spec fn filter_by_spec<A>(s: Seq<A>, keep: Seq<bool>) -> Seq<A>
    decreases s.len(),
{
    if s.len() == 0 {
        Seq::empty()
    } else {
        let r = filter_by_spec(s.drop_last(), keep.drop_last());
        if keep.last() { r.push(s.last()) } else { r }
    }
}

/// Taking one more element extends the selection by that element when its
/// flag is set.
pub proof fn lemma_filter_by_step<A>(s: Seq<A>, keep: Seq<bool>, i: int)
    requires
        0 <= i < s.len(),
        keep.len() == s.len(),
    ensures
        filter_by_spec(s.take(i + 1), keep.take(i + 1)) == (if keep[i] {
            filter_by_spec(s.take(i), keep.take(i)).push(s[i])
        } else {
            filter_by_spec(s.take(i), keep.take(i))
        }),
{
    assert(s.take(i + 1).drop_last() =~= s.take(i));
    assert(keep.take(i + 1).drop_last() =~= keep.take(i));
}

/// Selecting by flags that are a predicate's values is filtering by the
/// predicate.
pub proof fn lemma_filter_by_pred<A>(s: Seq<A>, keep: Seq<bool>, p: spec_fn(A) -> bool)
    requires
        keep.len() == s.len(),
        forall|j: int| 0 <= j < s.len() ==> keep[j] == p(s[j]),
    ensures
        filter_by_spec(s, keep) == s.filter(p),
    decreases s.len(),
{
    reveal(Seq::filter);
    if s.len() > 0 {
        lemma_filter_by_pred(s.drop_last(), keep.drop_last(), p);
        assert(s.filter(p) == (if p(s.last()) {
            s.drop_last().filter(p).push(s.last())
        } else {
            s.drop_last().filter(p)
        }));
    } else {
        assert(s.filter(p) =~= Seq::<A>::empty());
    }
}

// ---------------------------------------------------------------------------
// The discovery service's state
// ---------------------------------------------------------------------------

/// The registry after the reported devices `infos` were recorded in turn
/// at `now`, each keeping the properties named in `names`.
pub open spec fn record_all(d: Seq<DeviceView>, infos: Seq<DeviceInfo>, names: Seq<Seq<char>>, now: u64) -> Seq<DeviceView>
    decreases infos.len(),
{
    if infos.len() == 0 {
        d
    } else {
        record_spec(record_all(d, infos.drop_last(), names, now), discovered_spec(infos.last(), names, now), now)
    }
}

/// What `start` has to do.
#[derive(Debug, Clone, Copy, PartialEq, Eq, Structural)]
pub enum StartDecision {
    /// Discovery already runs; nothing to do.
    AlreadyRunning,
    /// Create and start the device monitor.
    StartMonitor,
}

/// Device discovery state: the registry and whether the monitor runs.
pub struct DeviceDiscovery {
    devices: DeviceRegistry,
    running: bool,
}

impl DeviceDiscovery {
    /// The known devices.
    pub closed spec fn devices_spec(&self) -> Seq<DeviceView> {
        self.devices@
    }

    /// Whether discovery runs.
    pub closed spec fn running_spec(&self) -> bool {
        self.running
    }

    /// Create a new device discovery service.
    pub fn new() -> (r: DeviceDiscovery)
        ensures
            r.devices_spec() == Seq::<DeviceView>::empty(),
            !r.running_spec(),
    {
        DeviceDiscovery { devices: DeviceRegistry::new(), running: false }
    }

    /// Check if discovery is running.
    pub fn is_running(&self) -> (r: bool)
        ensures
            r == self.running_spec(),
    {
        self.running
    }

    /// What a request to start discovery has to do.
    pub fn start_decision(&self) -> (r: StartDecision)
        ensures
            r == (if self.running_spec() {
                StartDecision::AlreadyRunning
            } else {
                StartDecision::StartMonitor
            }),
    {
        if self.running {
            StartDecision::AlreadyRunning
        } else {
            StartDecision::StartMonitor
        }
    }

    /// Completes a start once the monitor runs: every initially enumerated
    /// device is recorded at `now`, then discovery counts as running.
    pub fn finish_start(&mut self, initial: &Vec<DeviceInfo>, now: u64)
        ensures
            final(self).running_spec(),
            final(self).devices_spec() == record_all(old(self).devices_spec(), initial@, enumeration_names(), now),
            final(self).devices_spec().len() <= old(self).devices_spec().len() + initial@.len(),
            forall|i: int|
                0 <= i < initial@.len() ==> device_lookup(
                    final(self).devices_spec(),
                    info_id(#[trigger] initial@[i]),
                ) is Some,
    {
        let mut i: usize = 0;
        while i < initial.len()
            invariant
                i <= initial@.len(),
                self.devices@.len() <= old(self).devices@.len() + i,
                self.devices@ == record_all(old(self).devices@, initial@.take(i as int), enumeration_names(), now),
                forall|j: int|
                    0 <= j < i ==> device_lookup(self.devices@, info_id(#[trigger] initial@[j])) is Some,
            decreases initial.len() - i,
        {
            self.device_added(&initial[i], now);
            proof {
                assert(initial@.take(i + 1).drop_last() =~= initial@.take(i as int));
                assert(initial@.take(i + 1).last() == initial@[i as int]);
            }
            i = i + 1;
        }
        assert(initial@.take(initial@.len() as int) =~= initial@);
        self.running = true;
    }

    /// Handles a device reported while enumerating: records it at `now`,
    /// keeping the properties of [`enumeration_property_names`].
    pub fn device_added(&mut self, info: &DeviceInfo, now: u64)
        ensures
            final(self).running_spec() == old(self).running_spec(),
            final(self).devices_spec() == record_spec(
                old(self).devices_spec(),
                discovered_spec(*info, enumeration_names(), now),
                now,
            ),
            final(self).devices_spec().len() <= old(self).devices_spec().len() + 1,
            device_lookup(final(self).devices_spec(), info_id(*info)) is Some,
            forall|id: Seq<char>|
                id != info_id(*info) ==> device_lookup(final(self).devices_spec(), id) == device_lookup(
                    old(self).devices_spec(),
                    id,
                ),
            device_lookup(old(self).devices_spec(), info_id(*info)) matches Some(d)
                ==> device_lookup(final(self).devices_spec(), info_id(*info)) == Some(
                DeviceView { last_seen: now, ..d },
            ),
            device_lookup(old(self).devices_spec(), info_id(*info)) is None ==> device_lookup(
                final(self).devices_spec(),
                info_id(*info),
            ) == Some(discovered_spec(*info, enumeration_names(), now)),
    {
        let names = enumeration_property_names();
        let dev = discover(info, &names, now);
        self.record_discovered(dev, now);
    }

    /// Handles a device-added event of the running monitor: records it at
    /// `now`, keeping the properties of [`event_property_names`].
    pub fn device_added_event(&mut self, info: &DeviceInfo, now: u64)
        ensures
            final(self).running_spec() == old(self).running_spec(),
            final(self).devices_spec() == record_spec(old(self).devices_spec(), discovered_spec(*info, event_names(), now), now),
            device_lookup(final(self).devices_spec(), info_id(*info)) is Some,
            forall|id: Seq<char>|
                id != info_id(*info) ==> device_lookup(final(self).devices_spec(), id) == device_lookup(
                    old(self).devices_spec(),
                    id,
                ),
            device_lookup(old(self).devices_spec(), info_id(*info)) matches Some(d)
                ==> device_lookup(final(self).devices_spec(), info_id(*info)) == Some(
                DeviceView { last_seen: now, ..d },
            ),
            device_lookup(old(self).devices_spec(), info_id(*info)) is None ==> device_lookup(
                final(self).devices_spec(),
                info_id(*info),
            ) == Some(discovered_spec(*info, event_names(), now)),
    {
        let names = event_property_names();
        let dev = discover(info, &names, now);
        self.record_discovered(dev, now);
    }

    /// Records a discovered device.
    fn record_discovered(&mut self, dev: DiscoveredDevice, now: u64)
        ensures
            device_lookup(old(self).devices_spec(), dev@.id) is None ==> device_lookup(
                final(self).devices_spec(),
                dev@.id,
            ) == Some(dev@),
            final(self).running_spec() == old(self).running_spec(),
            final(self).devices_spec() == record_spec(old(self).devices_spec(), dev@, now),
            final(self).devices_spec().len() <= old(self).devices_spec().len() + 1,
            device_lookup(final(self).devices_spec(), dev@.id) is Some,
            forall|id: Seq<char>|
                id != dev@.id ==> device_lookup(final(self).devices_spec(), id) == device_lookup(
                    old(self).devices_spec(),
                    id,
                ),
            device_lookup(old(self).devices_spec(), dev@.id) matches Some(d)
                ==> device_lookup(final(self).devices_spec(), dev@.id) == Some(
                DeviceView { last_seen: now, ..d },
            ),
    {
        let ghost dv = dev@;
        proof {
            use_type_invariant(&self.devices);
        }
        let ghost before = self.devices@;
        self.devices.record(dev, now);
        proof {
            lemma_record_lookup(before, dv, now);
        }
    }

    /// Handles a device-removed event: forgets the device.
    pub fn device_removed(&mut self, info: &DeviceInfo) -> (removed: bool)
        ensures
            final(self).running_spec() == old(self).running_spec(),
            final(self).devices_spec() == remove_spec(old(self).devices_spec(), info_id(*info)),
            device_lookup(final(self).devices_spec(), info_id(*info)) is None,
            removed == (device_lookup(old(self).devices_spec(), info_id(*info)) is Some),
            forall|id: Seq<char>|
                id != info_id(*info) ==> device_lookup(final(self).devices_spec(), id) == device_lookup(
                    old(self).devices_spec(),
                    id,
                ),
    {
        let provider = get_provider_name(&info.properties, info.device_class.as_str());
        let id = DiscoveredDevice::generate_id(
            info.device_class.as_str(),
            provider.as_str(),
            info.display_name.as_str(),
        );
        proof {
            use_type_invariant(&self.devices);
        }
        let ghost before = self.devices@;
        let r = self.devices.remove(id.as_str());
        proof {
            lemma_remove_lookup(before, id@);
        }
        r
    }

    /// Re-reads the monitor's devices: while discovery runs, each listed
    /// device is recorded at `now` as an enumerated device; otherwise
    /// nothing happens.
    pub fn refresh(&mut self, devices: &Vec<DeviceInfo>, now: u64)
        ensures
            final(self).running_spec() == old(self).running_spec(),
            !old(self).running_spec() ==> final(self).devices_spec() == old(self).devices_spec(),
            old(self).running_spec() ==> final(self).devices_spec() == record_all(
                old(self).devices_spec(),
                devices@,
                enumeration_names(),
                now,
            ),
            old(self).running_spec() ==> forall|i: int|
                0 <= i < devices@.len() ==> device_lookup(
                    final(self).devices_spec(),
                    info_id(#[trigger] devices@[i]),
                ) is Some,
            old(self).running_spec() ==> final(self).devices_spec().len() <= old(self).devices_spec().len()
                + devices@.len(),
    {
        if !self.running {
            return;
        }
        let mut i: usize = 0;
        while i < devices.len()
            invariant
                i <= devices@.len(),
                self.running_spec() == old(self).running_spec(),
                self.devices@.len() <= old(self).devices@.len() + i,
                self.devices@ == record_all(old(self).devices@, devices@.take(i as int), enumeration_names(), now),
                forall|j: int| 0 <= j < i ==> device_lookup(self.devices@, info_id(#[trigger] devices@[j])) is Some,
            decreases devices.len() - i,
        {
            let ghost before = self.devices@;
            self.device_added(&devices[i], now);
            proof {
                assert(devices@.take(i + 1).drop_last() =~= devices@.take(i as int));
                assert(devices@.take(i + 1).last() == devices@[i as int]);
                assert forall|j: int| 0 <= j < i + 1 implies device_lookup(
                    self.devices@,
                    info_id(#[trigger] devices@[j]),
                ) is Some by {
                    if j < i && info_id(devices@[j]) != info_id(devices@[i as int]) {
                        assert(device_lookup(before, info_id(devices@[j])) is Some);
                    }
                }
            }
            i = i + 1;
        }
        assert(devices@.take(devices@.len() as int) =~= devices@);
    }

    /// The device classes the monitor watches: network sources only.
    pub fn monitor_filters() -> (r: Vec<&'static str>)
        ensures
            names_view(r@) == seq!["Source/Network"@],
    {
        let mut v: Vec<&'static str> = Vec::new();
        v.push("Source/Network");
        assert(names_view(v@) =~= seq!["Source/Network"@]);
        v
    }

    /// Stop device discovery: when running, stops and forgets every device.
    pub fn stop(&mut self)
        ensures
            !final(self).running_spec(),
            old(self).running_spec() ==> final(self).devices_spec() == Seq::<DeviceView>::empty(),
            !old(self).running_spec() ==> final(self).devices_spec() == old(self).devices_spec(),
    {
        if !self.running {
            return;
        }
        self.running = false;
        self.devices.clear();
    }

    /// Get all discovered devices.
    pub fn get_devices(&self) -> (r: Vec<DiscoveredDevice>)
        ensures
            devices_view(r@) == self.devices_spec(),
    {
        self.devices.get_devices()
    }

    /// Get devices filtered by category.
    pub fn get_devices_by_category(&self, category: DeviceCategory) -> (r: Vec<DiscoveredDevice>)
        ensures
            devices_view(r@) == self.devices_spec().filter(|d: DeviceView| d.category == category),
    {
        self.devices.get_devices_by_category(category)
    }

    /// Get NDI devices specifically.
    pub fn get_ndi_devices(&self) -> (r: Vec<DiscoveredDevice>)
        ensures
            devices_view(r@) == self.devices_spec().filter(|d: DeviceView| is_ndi_spec(d)),
    {
        self.devices.get_ndi_devices()
    }

    /// Get a specific device by ID.
    pub fn get_device(&self, id: &str) -> (r: Option<DiscoveredDevice>)
        ensures
            match device_lookup(self.devices_spec(), id@) {
                Some(d) => r is Some && r->0@ == d,
                None => r is None,
            },
    {
        self.devices.get(id)
    }
}

/// How recording a device changes lookups.
pub proof fn lemma_record_lookup(d: Seq<DeviceView>, dev: DeviceView, now: u64)
    requires
        view_ids_unique(d),
    ensures
        record_spec(d, dev, now).len() <= d.len() + 1,
        device_lookup(record_spec(d, dev, now), dev.id) is Some,
        device_lookup(d, dev.id) matches Some(x) ==> device_lookup(record_spec(d, dev, now), dev.id)
            == Some(DeviceView { last_seen: now, ..x }),
        device_lookup(d, dev.id) is None ==> device_lookup(record_spec(d, dev, now), dev.id) == Some(
            dev,
        ),
        forall|id: Seq<char>|
            id != dev.id ==> device_lookup(record_spec(d, dev, now), id) == device_lookup(d, id),
{
    let r = record_spec(d, dev, now);
    lemma_device_pos(d, dev.id, 0);
    lemma_device_pos(r, dev.id, 0);
    assert forall|id: Seq<char>| id != dev.id implies device_lookup(r, id) == device_lookup(d, id) by {
        lemma_device_pos(d, id, 0);
        lemma_device_pos(r, id, 0);
        match device_pos_from(d, id, 0) {
            Some(p) => {
                assert(r[p].id == id);
                match device_pos_from(r, id, 0) {
                    Some(q) => {
                        if q < p {
                            assert(r[q].id == d[q].id);
                        }
                        assert(q == p);
                    },
                    None => {},
                }
            },
            None => {
                match device_pos_from(r, id, 0) {
                    Some(q) => {
                        if q < d.len() {
                            assert(r[q].id == d[q].id);
                        }
                    },
                    None => {},
                }
            },
        }
    }
    match device_pos_from(d, dev.id, 0) {
        Some(p) => {
            match device_pos_from(r, dev.id, 0) {
                Some(q) => {
                    if q < p {
                        assert(r[q].id == d[q].id);
                    }
                    if q > p {
                        assert(r[p].id == dev.id);
                    }
                },
                None => {
                    assert(r[p].id == dev.id);
                },
            }
        },
        None => {
            let n = d.len() as int;
            assert(r[n].id == dev.id);
            match device_pos_from(r, dev.id, 0) {
                Some(q) => {
                    if q < n {
                        assert(r[q].id == d[q].id);
                    }
                },
                None => {},
            }
        },
    }
}

/// How removing a device changes lookups.
pub proof fn lemma_remove_lookup(d: Seq<DeviceView>, id: Seq<char>)
    requires
        view_ids_unique(d),
    ensures
        device_lookup(remove_spec(d, id), id) is None,
        forall|other: Seq<char>|
            other != id ==> device_lookup(remove_spec(d, id), other) == device_lookup(d, other),
{
    let r = remove_spec(d, id);
    lemma_device_pos(d, id, 0);
    lemma_device_pos(r, id, 0);
    match device_pos_from(d, id, 0) {
        Some(p) => {
            match device_pos_from(r, id, 0) {
                Some(q) => {
                    if q < p {
                        assert(r[q] == d[q]);
                    } else {
                        assert(r[q] == d[q + 1]);
                    }
                },
                None => {},
            }
            assert forall|other: Seq<char>| other != id implies device_lookup(r, other)
                == device_lookup(d, other) by {
                lemma_device_pos(d, other, 0);
                lemma_device_pos(r, other, 0);
                match device_pos_from(d, other, 0) {
                    Some(a) => {
                        assert(a != p);
                        let b = if a < p { a } else { a - 1 };
                        assert(r[b] == d[a]);
                        match device_pos_from(r, other, 0) {
                            Some(c) => {
                                let oc = if c < p { c } else { c + 1 };
                                assert(r[c] == d[oc]);
                                if c < b {
                                    assert(oc < a);
                                }
                                assert(c == b);
                            },
                            None => {},
                        }
                    },
                    None => {
                        match device_pos_from(r, other, 0) {
                            Some(c) => {
                                let oc = if c < p { c } else { c + 1 };
                                assert(r[c] == d[oc]);
                            },
                            None => {},
                        }
                    },
                }
            }
        },
        None => {},
    }
}

} // verus!
