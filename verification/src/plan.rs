//! Element plans: the ids of the elements a block creates, in the order it
//! creates them, and the static links between their pads.
use vstd::prelude::*;

use crate::property::{PropVal, PropertyValue};
use crate::text::{concat3, string_of};

verus! {

/// The id of a block's element: `{instance}:{suffix}`.
pub open spec fn element_id_spec(instance_id: Seq<char>, suffix: Seq<char>) -> Seq<char> {
    instance_id + ":"@ + suffix
}

/// A static link from a source pad to a sink pad, each named by its
/// element's id and the pad's name.
pub struct ElementLink {
    pub from_element: String,
    pub from_pad: String,
    pub to_element: String,
    pub to_pad: String,
}

/// The mathematical value of a link: source element, source pad, sink
/// element, sink pad.
pub type LinkView = (Seq<char>, Seq<char>, Seq<char>, Seq<char>);

impl View for ElementLink {
    type V = LinkView;

    open spec fn view(&self) -> LinkView {
        (self.from_element@, self.from_pad@, self.to_element@, self.to_pad@)
    }
}

/// The link between pads of two elements of the block `instance_id`, the
/// elements given by their suffixes.
pub open spec fn link_spec(
    instance_id: Seq<char>,
    from: Seq<char>,
    from_pad: Seq<char>,
    to: Seq<char>,
    to_pad: Seq<char>,
) -> LinkView {
    (element_id_spec(instance_id, from), from_pad, element_id_spec(instance_id, to), to_pad)
}

/// The elements and static links of a block.
pub struct BlockPlan {
    /// Element ids, in the order the block creates the elements.
    pub elements: Vec<String>,
    /// Links made when the block is added to a pipeline.
    pub links: Vec<ElementLink>,
    /// Whether the block watches the pipeline bus for messages of its own.
    pub bus_message_handler: bool,
}

/// The mathematical value of a [`BlockPlan`].
#[verifier::ext_equal]
pub struct BlockPlanView {
    pub elements: Seq<Seq<char>>,
    pub links: Seq<LinkView>,
    pub bus_message_handler: bool,
}

impl View for BlockPlan {
    type V = BlockPlanView;

    open spec fn view(&self) -> BlockPlanView {
        BlockPlanView {
            elements: ids_view(self.elements@),
            links: links_view(self.links@),
            bus_message_handler: self.bus_message_handler,
        }
    }
}

/// Raw-audio caps (`audio/x-raw`) with the fields that are given.
#[derive(Clone, Copy, Debug, PartialEq, Eq, Structural)]
pub struct RawAudioCaps {
    pub rate: Option<i32>,
    pub channels: Option<i32>,
    pub channel_mask: Option<u64>,
}

/// The value a block gives one property of one of its elements.
#[derive(Clone, Debug)]
pub enum SettingValue {
    /// A plain value (string, integer, float bits or boolean).
    Value(PropertyValue),
    /// Caps.
    Caps(RawAudioCaps),
}

/// The mathematical value of a [`SettingValue`].
pub enum SettingVal {
    Value(PropVal),
    Caps(RawAudioCaps),
}

impl View for SettingValue {
    type V = SettingVal;

    open spec fn view(&self) -> SettingVal {
        match self {
            SettingValue::Value(v) => SettingVal::Value(v@),
            SettingValue::Caps(c) => SettingVal::Caps(*c),
        }
    }
}

/// A property the block sets on one of its elements.
pub struct ElementSetting {
    pub element: String,
    pub property: String,
    pub value: SettingValue,
}

/// The mathematical value of a setting: element id, property name, value.
pub type SettingView = (Seq<char>, Seq<char>, SettingVal);

impl View for ElementSetting {
    type V = SettingView;

    open spec fn view(&self) -> SettingView {
        (self.element@, self.property@, self.value@)
    }
}

/// The setting of `property` of the element `suffix` of block `instance_id`.
pub open spec fn setting_spec(instance_id: Seq<char>, suffix: Seq<char>, property: Seq<char>, value: SettingVal) -> SettingView {
    (element_id_spec(instance_id, suffix), property, value)
}

/// The values of a list of settings.
pub open spec fn settings_view(v: Seq<ElementSetting>) -> Seq<SettingView> {
    v.map_values(|e: ElementSetting| e@)
}

/// Builds a setting of an element of a block (see [`setting_spec`]).
pub fn element_setting(instance_id: &str, suffix: &str, property: &str, value: SettingValue) -> (r: ElementSetting)
    ensures
        r@ == setting_spec(instance_id@, suffix@, property@, value@),
{
    ElementSetting { element: element_id(instance_id, suffix), property: string_of(property), value }
}

/// Appends a setting to `settings`.
pub fn push_setting(settings: &mut Vec<ElementSetting>, setting: ElementSetting)
    ensures
        settings_view(final(settings)@) == settings_view(old(settings)@).push(setting@),
{
    let ghost v = setting@;
    settings.push(setting);
    proof {
        assert(settings_view(settings@) =~= settings_view(old(settings)@).push(v));
    }
}

/// The ids of a list of element names.
pub open spec fn ids_view(v: Seq<String>) -> Seq<Seq<char>> {
    v.map_values(|s: String| s@)
}

/// The values of a list of links.
pub open spec fn links_view(v: Seq<ElementLink>) -> Seq<LinkView> {
    v.map_values(|l: ElementLink| l@)
}

/// Builds the id `{instance}:{suffix}`.
pub fn element_id(instance_id: &str, suffix: &str) -> (r: String)
    ensures
        r@ == element_id_spec(instance_id@, suffix@),
{
    concat3(instance_id, ":", suffix)
}

/// Builds the link between two elements of a block (see [`link_spec`]).
pub fn pad_link(instance_id: &str, from: &str, from_pad: &str, to: &str, to_pad: &str) -> (r: ElementLink)
    ensures
        r@ == link_spec(instance_id@, from@, from_pad@, to@, to_pad@),
{
    ElementLink {
        from_element: element_id(instance_id, from),
        from_pad: string_of(from_pad),
        to_element: element_id(instance_id, to),
        to_pad: string_of(to_pad),
    }
}

/// Appends the id `{instance}:{suffix}` to `elements`.
pub fn push_element(elements: &mut Vec<String>, instance_id: &str, suffix: &str)
    ensures
        ids_view(final(elements)@) == ids_view(old(elements)@).push(element_id_spec(instance_id@, suffix@)),
{
    let id = element_id(instance_id, suffix);
    elements.push(id);
    proof {
        assert(ids_view(elements@) =~= ids_view(old(elements)@).push(element_id_spec(instance_id@, suffix@)));
    }
}

/// Appends a link to `links`.
pub fn push_link(links: &mut Vec<ElementLink>, link: ElementLink)
    ensures
        links_view(final(links)@) == links_view(old(links)@).push(link@),
{
    let ghost v = link@;
    links.push(link);
    proof {
        assert(links_view(links@) =~= links_view(old(links)@).push(v));
    }
}

} // verus!
