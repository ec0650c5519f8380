//! EBU R128 loudness meter block: its settings, the name of its meter
//! element, and which meter messages belong to it.
use vstd::prelude::*;

use crate::plan::{
    element_id_spec, element_setting, push_element, push_setting, setting_spec, settings_view, BlockPlan, BlockPlanView,
    ElementSetting, SettingVal, SettingValue, SettingView,
};
use crate::property::{PropVal, PropertyValue, Properties};
use crate::text::{element_name, has_suffix, parse_i64, parse_i64_spec, str_eq, string_of, strip_suffix};

verus! {

/// Builder of the loudness meter block.
pub struct LoudnessBuilder;

/// The meter interval in milliseconds when none is given.
pub const DEFAULT_LOUDNESS_INTERVAL_MS: i64 = 100;

/// The suffix of the meter element's name, `:ebur128level`.
pub open spec fn meter_suffix() -> Seq<char> {
    seq![':', 'e', 'b', 'u', 'r', '1', '2', '8', 'l', 'e', 'v', 'e', 'l']
}

/// The `interval` property in milliseconds: an integer, or a string that
/// parses as one; otherwise 100.
pub open spec fn interval_ms_spec(props: Map<Seq<char>, PropVal>) -> i64 {
    if props.contains_key("interval"@) {
        match props["interval"@] {
            PropVal::Int(i) => i,
            PropVal::Str(s) => match parse_i64_spec(s) {
                Some(i) => i,
                None => DEFAULT_LOUDNESS_INTERVAL_MS,
            },
            _ => DEFAULT_LOUDNESS_INTERVAL_MS,
        }
    } else {
        DEFAULT_LOUDNESS_INTERVAL_MS
    }
}

/// Reads the meter interval in milliseconds (see [`interval_ms_spec`]).
pub fn interval_ms(properties: &Properties) -> (r: i64)
    ensures
        r == interval_ms_spec(properties@),
{
    proof {
        reveal_strlit("interval");
    }
    match properties.get("interval") {
        Some(PropertyValue::Int(i)) => *i,
        Some(PropertyValue::String(s)) => match parse_i64(s.as_str()) {
            Some(i) => i,
            None => DEFAULT_LOUDNESS_INTERVAL_MS,
        },
        _ => DEFAULT_LOUDNESS_INTERVAL_MS,
    }
}

/// The meter interval in nanoseconds as the element takes it: the
/// milliseconds times one million, reinterpreted as unsigned.
pub fn interval_ns(ms: i64) -> (r: u64)
    requires
        i64::MIN <= ms * 1_000_000 <= i64::MAX,
    ensures
        r == (ms * 1_000_000) as u64,
{
    let ns: i64 = ms * 1_000_000;
    ns as u64
}

/// The name of the block's meter element: `{instance_id}:ebur128level`.
pub fn meter_element_id(instance_id: &str) -> (r: String)
    ensures
        r@ == instance_id@ + meter_suffix(),
{
    proof {
        reveal_strlit(":ebur128level");
        assert(":ebur128level"@ =~= meter_suffix());
    }
    element_name(instance_id, ":ebur128level")
}

/// The block id reported with a meter reading: the element's name with the
/// meter suffix taken off, or the whole name where it does not end so.
pub open spec fn meter_block_id_spec(element: Seq<char>) -> Seq<char> {
    if has_suffix(element, meter_suffix()) {
        element.subrange(0, element.len() - meter_suffix().len())
    } else {
        element
    }
}

/// Computes [`meter_block_id_spec`].
pub fn meter_block_id(element: &str) -> (r: String)
    ensures
        r@ == meter_block_id_spec(element@),
{
    proof {
        reveal_strlit(":ebur128level");
        assert(":ebur128level"@ =~= meter_suffix());
    }
    match strip_suffix(element, ":ebur128level") {
        Some(b) => b,
        None => string_of(element),
    }
}

/// Which block a bus message with structure `structure_name` from element
/// `source` reports on, for the handler of the meter named `expected`:
/// only `ebur128-level` messages of that very element count.
pub open spec fn meter_message_spec(structure_name: Seq<char>, source: Seq<char>, expected: Seq<char>) -> Option<Seq<char>> {
    if structure_name == "ebur128-level"@ && source == expected {
        Some(meter_block_id_spec(source))
    } else {
        None
    }
}

/// Decides whether a bus message is a reading of the expected meter, and
/// if so gives the block id to report it under.
pub fn meter_message_block(structure_name: &str, source: &str, expected: &str) -> (r: Option<String>)
    ensures
        match meter_message_spec(structure_name@, source@, expected@) {
            Some(b) => r is Some && r->0@ == b,
            None => r is None,
        },
{
    if str_eq(structure_name, "ebur128-level") && str_eq(source, expected) {
        Some(meter_block_id(source))
    } else {
        None
    }
}

/// Removing the meter suffix from the meter element's name gives back the
/// instance id.
pub proof fn lemma_meter_block_id_round_trip(instance_id: Seq<char>)
    ensures
        meter_block_id_spec(instance_id + meter_suffix()) == instance_id,
{
    let e = instance_id + meter_suffix();
    assert(e.subrange(e.len() - meter_suffix().len(), e.len() as int) =~= meter_suffix());
    assert(e.subrange(0, e.len() - meter_suffix().len()) =~= instance_id);
}

/// The block's single element, `{instance}:ebur128level`, with no links;
/// the block watches the bus for the meter's readings.
pub open spec fn loudness_plan_spec(instance_id: Seq<char>) -> BlockPlanView {
    BlockPlanView {
        elements: seq![element_id_spec(instance_id, "ebur128level"@)],
        links: Seq::empty(),
        bus_message_handler: true,
    }
}

/// Plans the loudness meter block (see [`loudness_plan_spec`]).
pub fn loudness_plan(instance_id: &str) -> (r: BlockPlan)
    ensures
        r@ == loudness_plan_spec(instance_id@),
{
    let mut elements: Vec<String> = Vec::new();
    push_element(&mut elements, instance_id, "ebur128level");
    let r = BlockPlan { elements, links: Vec::new(), bus_message_handler: true };
    assert(r@ =~= loudness_plan_spec(instance_id@));
    r
}

/// The meter's settings: its `interval` in nanoseconds (the milliseconds of
/// [`interval_ms_spec`] times one million, as unsigned) and
/// `post-messages` on.
pub open spec fn meter_settings_spec(instance_id: Seq<char>, props: Map<Seq<char>, PropVal>) -> Seq<SettingView> {
    seq![
        setting_spec(
            instance_id,
            "ebur128level"@,
            "interval"@,
            SettingVal::Value(PropVal::UInt((interval_ms_spec(props) * 1_000_000) as u64)),
        ),
        setting_spec(instance_id, "ebur128level"@, "post-messages"@, SettingVal::Value(PropVal::Bool(true))),
    ]
}

/// Lists the meter's settings (see [`meter_settings_spec`]).
pub fn meter_settings(instance_id: &str, properties: &Properties) -> (r: Vec<ElementSetting>)
    requires
        i64::MIN <= interval_ms_spec(properties@) * 1_000_000 <= i64::MAX,
    ensures
        settings_view(r@) == meter_settings_spec(instance_id@, properties@),
{
    let ns = interval_ns(interval_ms(properties));
    let mut r: Vec<ElementSetting> = Vec::new();
    push_setting(
        &mut r,
        element_setting(instance_id, "ebur128level", "interval", SettingValue::Value(PropertyValue::UInt(ns))),
    );
    push_setting(
        &mut r,
        element_setting(instance_id, "ebur128level", "post-messages", SettingValue::Value(PropertyValue::Bool(true))),
    );
    assert(settings_view(r@) =~= meter_settings_spec(instance_id@, properties@));
    r
}

} // verus!

