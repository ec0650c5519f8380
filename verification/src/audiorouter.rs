//! Audio Router block: configuration parsing, the routing matrix and the
//! routing decisions that shape the block's internal graph.
//!
//! The router takes 1-8 input streams of 1-64 channels each and routes any
//! input channel to any number of output channels. An output channel fed by
//! more than one input channel gets an audiomixer; one fed by none gets
//! silence; an input channel routed to more than one output gets a tee.
use vstd::prelude::*;

use crate::pads::{pad_spec, ExternalPad, ExternalPads, MediaType, PadView};
use crate::plan::{
    element_id_spec, element_setting, ids_view, link_spec, links_view, pad_link, push_element, push_link, push_setting,
    setting_spec, settings_view, BlockPlan, BlockPlanView, ElementLink, ElementSetting, LinkView, RawAudioCaps, SettingVal,
    SettingValue, SettingView,
};
use crate::property::{PropVal, Properties, PropertyValue};
use crate::text::{
    chars_of, concat2, decimal, find_char, first_index_of, has_prefix, index_of_from, is_digit,
    lemma_decimal_digits, lemma_index_of_from, lemma_parse_decimal, parse_usize, parse_usize_range,
    parse_usize_spec, push_decimal, push_str, str_eq, string_from_range, string_of, strip_prefix, with_index,
};

verus! {

/// Maximum number of input/output streams.
pub const MAX_STREAMS: usize = 8;

/// Maximum channels per stream.
pub const MAX_CHANNELS: usize = 64;

// ---------------------------------------------------------------------------
// Stream and channel counts
// ---------------------------------------------------------------------------

/// `v` clamped into `[lo, hi]` (`Ord::clamp`).
pub open spec fn clamp_spec(v: int, lo: int, hi: int) -> int {
    if v < lo { lo } else if v > hi { hi } else { v }
}

/// A count read from a property: an unsigned value, or a positive signed
/// one, converted to `usize`.
pub open spec fn prop_count(props: Map<Seq<char>, PropVal>, key: Seq<char>) -> Option<usize> {
    if props.contains_key(key) {
        match props[key] {
            PropVal::UInt(u) => Some(u as usize),
            PropVal::Int(i) => if i > 0 { Some(i as usize) } else { None },
            _ => None,
        }
    } else {
        None
    }
}

/// The count stored under `key`, or `default`, clamped into `[lo, hi]`.
pub open spec fn clamped_count(
    props: Map<Seq<char>, PropVal>,
    key: Seq<char>,
    default: usize,
    lo: usize,
    hi: usize,
) -> usize {
    let v = match prop_count(props, key) {
        Some(c) => c,
        None => default,
    };
    clamp_spec(v as int, lo as int, hi as int) as usize
}

/// Reads a count from a property (see [`prop_count`]).
fn read_count(properties: &Properties, key: &str) -> (r: Option<usize>)
    ensures
        r == prop_count(properties@, key@),
{
    match properties.get(key) {
        Some(PropertyValue::UInt(u)) => Some(*u as usize),
        Some(PropertyValue::Int(i)) => if *i > 0 {
            Some(*i as usize)
        } else {
            None
        },
        _ => None,
    }
}

/// Number of streams stored under `key`, `default` when absent or not a
/// positive integer, clamped into `[1, MAX_STREAMS]`.
pub fn parse_num_streams(properties: &Properties, key: &str, default: usize) -> (r: usize)
    ensures
        r == clamped_count(properties@, key@, default, 1, MAX_STREAMS),
        1 <= r <= MAX_STREAMS,
{
    let v = match read_count(properties, key) {
        Some(c) => c,
        None => default,
    };
    if v < 1 {
        1
    } else if v > MAX_STREAMS {
        MAX_STREAMS
    } else {
        v
    }
}

/// Channel count stored under `key`, `default` when absent or not a positive
/// integer, clamped into `[1, MAX_CHANNELS]`.
pub fn parse_channels(properties: &Properties, key: &str, default: usize) -> (r: usize)
    ensures
        r == clamped_count(properties@, key@, default, 1, MAX_CHANNELS),
        1 <= r <= MAX_CHANNELS,
{
    let v = match read_count(properties, key) {
        Some(c) => c,
        None => default,
    };
    if v < 1 {
        1
    } else if v > MAX_CHANNELS {
        MAX_CHANNELS
    } else {
        v
    }
}

/// The channel counts of streams `0..n` read from the properties
/// `{prefix}{i}_channels` (default 2 channels each).
pub fn parse_stream_channels(properties: &Properties, prefix: &str, n: usize) -> (r: Vec<usize>)
    ensures
        r@.len() == n,
        forall|i: int|
            0 <= i < n ==> #[trigger] r@[i] == clamped_count(
                properties@,
                prefix@ + decimal(i as nat) + "_channels"@,
                2,
                1,
                MAX_CHANNELS,
            ),
{
    let mut r: Vec<usize> = Vec::new();
    let mut i: usize = 0;
    while i < n
        invariant
            i <= n,
            r@.len() == i,
            forall|j: int|
                0 <= j < i ==> #[trigger] r@[j] == clamped_count(
                    properties@,
                    prefix@ + decimal(j as nat) + "_channels"@,
                    2,
                    1,
                    MAX_CHANNELS,
                ),
        decreases n - i,
    {
        let key = concat2(with_index(prefix, i).as_str(), "_channels");
        r.push(parse_channels(properties, key.as_str(), 2));
        i = i + 1;
    }
    r
}

// ---------------------------------------------------------------------------
// Routing keys
// ---------------------------------------------------------------------------

/// A routing key such as `i0c1` or `o2c3`: the prefix character, a stream
/// index, `c`, and a channel index.
pub open spec fn routing_key_spec(key: Seq<char>, prefix: char) -> Option<(usize, usize)> {
    if key.len() > 0 && key[0] == prefix {
        let rest = key.drop_first();
        match first_index_of(rest, 'c') {
            Some(p) => match (
                parse_usize_spec(rest.subrange(0, p)),
                parse_usize_spec(rest.subrange(p + 1, rest.len() as int)),
            ) {
                (Some(a), Some(b)) => Some((a, b)),
                _ => None,
            },
            None => None,
        }
    } else {
        None
    }
}

/// The routing key that names stream `stream` and channel `channel`.
pub open spec fn routing_key_text(prefix: char, stream: nat, channel: nat) -> Seq<char> {
    seq![prefix] + decimal(stream) + seq!['c'] + decimal(channel)
}

/// Parses a routing key like `i0c1` or `o2c3` into (stream index, channel
/// index).
pub fn parse_routing_key(key: &str, prefix: char) -> (r: Option<(usize, usize)>)
    ensures
        r == routing_key_spec(key@, prefix),
{
    let v = chars_of(key);
    if v.len() == 0 || v[0] != prefix {
        return None;
    }
    let rest = string_from_range(&v, 1, v.len());
    let w = chars_of(rest.as_str());
    assert(w@ == key@.drop_first());
    match find_char(&w, 'c') {
        Some(p) => {
            let a = parse_usize_range(&w, 0, p);
            let b = parse_usize_range(&w, p + 1, w.len());
            match (a, b) {
                (Some(a), Some(b)) => Some((a, b)),
                _ => None,
            }
        },
        None => None,
    }
}

/// Reading a routing key gives back the stream and channel it was written
/// with.
pub proof fn lemma_routing_key_round_trip(prefix: char, stream: usize, channel: usize)
    ensures
        routing_key_spec(routing_key_text(prefix, stream as nat, channel as nat), prefix) == Some(
            (stream, channel),
        ),
{
    let a = decimal(stream as nat);
    let b = decimal(channel as nat);
    let key = routing_key_text(prefix, stream as nat, channel as nat);
    lemma_decimal_digits(stream as nat);
    lemma_decimal_digits(channel as nat);
    lemma_parse_decimal(stream as nat);
    lemma_parse_decimal(channel as nat);
    let rest = key.drop_first();
    assert(rest =~= a + seq!['c'] + b);
    lemma_index_of_from(rest, 'c', 0);
    assert forall|j: int| 0 <= j < a.len() implies rest[j] != 'c' by {
        assert(rest[j] == a[j]);
        assert(is_digit(a[j]));
    }
    assert(rest[a.len() as int] == 'c');
    assert(first_index_of(rest, 'c') == Some(a.len() as int)) by {
        match index_of_from(rest, 'c', 0) {
            Some(k) => {
                if k < a.len() {
                    assert(rest[k] != 'c');
                }
                if k > a.len() {
                    assert(rest[a.len() as int] != 'c');
                }
            },
            None => {},
        }
    }
    assert(rest.subrange(0, a.len() as int) =~= a);
    assert(rest.subrange(a.len() as int + 1, rest.len() as int) =~= b);
}

/// Parses a deinterleave pad name like `src_3` into its channel index.
pub fn parse_channel_from_pad_name(pad_name: &str) -> (r: Option<usize>)
    ensures
        r == (if has_prefix(pad_name@, "src_"@) {
            parse_usize_spec(pad_name@.subrange("src_"@.len() as int, pad_name@.len() as int))
        } else {
            None
        }),
{
    match strip_prefix(pad_name, "src_") {
        Some(rest) => parse_usize(rest.as_str()),
        None => None,
    }
}

// ---------------------------------------------------------------------------
// The routing matrix
// ---------------------------------------------------------------------------

/// Routing destination: output stream index and channel index.
#[derive(Clone, Copy, Debug, PartialEq, Eq, Structural)]
pub struct RouteDest {
    pub output_idx: usize,
    pub channel_idx: usize,
}

/// The mathematical value of a routing matrix: (input stream, input channel)
/// keys with their destinations, in the order the keys were first added.
pub open spec fn matrix_entries_view(e: Seq<((usize, usize), Vec<RouteDest>)>) -> Seq<
    ((usize, usize), Seq<RouteDest>),
> {
    e.map_values(|x: ((usize, usize), Vec<RouteDest>)| (x.0, x.1@))
}

/// The position of key `k` in `m` at or after `i`.
pub open spec fn key_pos_from(m: Seq<((usize, usize), Seq<RouteDest>)>, k: (usize, usize), i: int) -> Option<
    int,
>
    decreases m.len() - i,
{
    if i < 0 || i >= m.len() {
        None
    } else if m[i].0.0 == k.0 && m[i].0.1 == k.1 {
        Some(i)
    } else {
        key_pos_from(m, k, i + 1)
    }
}

/// The destinations of input key `k`, if it is routed.
pub open spec fn lookup(m: Seq<((usize, usize), Seq<RouteDest>)>, k: (usize, usize)) -> Option<
    Seq<RouteDest>,
> {
    match key_pos_from(m, k, 0) {
        Some(i) => Some(m[i].1),
        None => None,
    }
}

/// `m` with the destinations of `k` set to `d`.
pub open spec fn upsert(
    m: Seq<((usize, usize), Seq<RouteDest>)>,
    k: (usize, usize),
    d: Seq<RouteDest>,
) -> Seq<((usize, usize), Seq<RouteDest>)> {
    match key_pos_from(m, k, 0) {
        Some(i) => m.update(i, (k, d)),
        None => m.push((k, d)),
    }
}

/// A well-formed matrix: no key twice, no key without destinations.
pub open spec fn matrix_wf(m: Seq<((usize, usize), Seq<RouteDest>)>) -> bool {
    &&& forall|i: int, j: int|
        0 <= i < m.len() && 0 <= j < m.len() && i != j ==> #[trigger] m[i].0 != #[trigger] m[j].0
    &&& forall|i: int| 0 <= i < m.len() ==> #[trigger] m[i].1.len() > 0
}

/// The destinations named by a list of destination keys; keys that do not
/// parse are skipped.
pub open spec fn dest_list(l: Seq<Seq<char>>) -> Seq<RouteDest>
    decreases l.len(),
{
    if l.len() == 0 {
        Seq::empty()
    } else {
        let r = dest_list(l.drop_last());
        match routing_key_spec(l.last(), 'o') {
            Some((o, c)) => r.push(RouteDest { output_idx: o, channel_idx: c }),
            None => r,
        }
    }
}

/// The matrix built from JSON entries taken in order: a source key that
/// parses and has at least one valid destination sets that key's
/// destinations (a later entry for the same key wins).
pub open spec fn matrix_of(e: Seq<(Seq<char>, Seq<Seq<char>>)>) -> Seq<
    ((usize, usize), Seq<RouteDest>),
>
    decreases e.len(),
{
    if e.len() == 0 {
        Seq::empty()
    } else {
        let m = matrix_of(e.drop_last());
        match routing_key_spec(e.last().0, 'i') {
            Some(k) => {
                let d = dest_list(e.last().1);
                if d.len() > 0 { upsert(m, k, d) } else { m }
            },
            None => m,
        }
    }
}

/// How many routes of `m` land on `d` (one per occurrence in a destination
/// list).
pub open spec fn route_count(m: Seq<((usize, usize), Seq<RouteDest>)>, d: RouteDest) -> nat
    decreases m.len(),
{
    if m.len() == 0 {
        0
    } else {
        route_count(m.drop_last(), d) + occurrences(m.last().1, d)
    }
}

/// How often `d` occurs in `s`.
pub open spec fn occurrences(s: Seq<RouteDest>, d: RouteDest) -> nat
    decreases s.len(),
{
    if s.len() == 0 {
        0
    } else {
        occurrences(s.drop_last(), d) + if s.last() == d { 1nat } else { 0nat }
    }
}

/// `n` capped at 2.
pub open spec fn cap2(n: nat) -> nat {
    if n > 2 { 2 } else { n }
}

/// What `key_pos_from` finds is the position of `k` at or after `i`.
pub proof fn lemma_key_pos(m: Seq<((usize, usize), Seq<RouteDest>)>, k: (usize, usize), i: int)
    requires
        0 <= i,
    ensures
        match key_pos_from(m, k, i) {
            Some(p) => i <= p < m.len() && m[p].0 == k && forall|j: int| i <= j < p ==> m[j].0 != k,
            None => forall|j: int| i <= j < m.len() ==> m[j].0 != k,
        },
    decreases m.len() - i,
{
    if i < m.len() && m[i].0 != k {
        lemma_key_pos(m, k, i + 1);
    }
}

/// `upsert` keeps a matrix well formed.
pub proof fn lemma_upsert_wf(m: Seq<((usize, usize), Seq<RouteDest>)>, k: (usize, usize), d: Seq<RouteDest>)
    requires
        matrix_wf(m),
        d.len() > 0,
    ensures
        matrix_wf(upsert(m, k, d)),
{
    lemma_key_pos(m, k, 0);
    let r = upsert(m, k, d);
    match key_pos_from(m, k, 0) {
        Some(p) => {
            assert forall|i: int, j: int|
                0 <= i < r.len() && 0 <= j < r.len() && i != j implies #[trigger] r[i].0
                != #[trigger] r[j].0 by {
                if i != p && j != p {
                    assert(r[i] == m[i] && r[j] == m[j]);
                } else if i == p {
                    assert(r[j] == m[j]);
                    assert(m[p].0 == k);
                } else {
                    assert(r[i] == m[i]);
                    assert(m[p].0 == k);
                }
            }
        },
        None => {
            assert forall|i: int, j: int|
                0 <= i < r.len() && 0 <= j < r.len() && i != j implies #[trigger] r[i].0
                != #[trigger] r[j].0 by {
                if i < m.len() && j < m.len() {
                    assert(r[i] == m[i] && r[j] == m[j]);
                } else if i < m.len() {
                    assert(r[i] == m[i]);
                } else {
                    assert(r[j] == m[j]);
                }
            }
        },
    }
}

/// Every matrix built from JSON entries is well formed.
pub proof fn lemma_matrix_of_wf(e: Seq<(Seq<char>, Seq<Seq<char>>)>)
    ensures
        matrix_wf(matrix_of(e)),
    decreases e.len(),
{
    if e.len() > 0 {
        lemma_matrix_of_wf(e.drop_last());
        let m = matrix_of(e.drop_last());
        match routing_key_spec(e.last().0, 'i') {
            Some(k) => {
                let d = dest_list(e.last().1);
                if d.len() > 0 {
                    lemma_upsert_wf(m, k, d);
                }
            },
            None => {},
        }
    }
}

/// Input channel routing: for each (input stream, input channel), the
/// output channels it feeds.
pub struct RoutingMatrix {
    entries: Vec<((usize, usize), Vec<RouteDest>)>,
}

impl View for RoutingMatrix {
    type V = Seq<((usize, usize), Seq<RouteDest>)>;

    closed spec fn view(&self) -> Seq<((usize, usize), Seq<RouteDest>)> {
        matrix_entries_view(self.entries@)
    }
}

/// The `String` views of a list of strings.
pub open spec fn strings_view(v: Seq<String>) -> Seq<Seq<char>> {
    v.map_values(|s: String| s@)
}

/// The views of JSON routing entries (source key, destination keys).
pub open spec fn json_entries_view(e: Seq<(String, Vec<String>)>) -> Seq<(Seq<char>, Seq<Seq<char>>)> {
    e.map_values(|x: (String, Vec<String>)| (x.0@, strings_view(x.1@)))
}

/// Parses a list of destination keys, skipping keys that do not parse.
fn parse_dest_list(l: &Vec<String>) -> (r: Vec<RouteDest>)
    ensures
        r@ == dest_list(strings_view(l@)),
{
    let mut r: Vec<RouteDest> = Vec::new();
    let mut i: usize = 0;
    while i < l.len()
        invariant
            i <= l.len(),
            r@ == dest_list(strings_view(l@).take(i as int)),
        decreases l.len() - i,
    {
        let ghost lv = strings_view(l@);
        assert(lv.take(i + 1).drop_last() =~= lv.take(i as int));
        assert(lv.take(i + 1).last() == l@[i as int]@);
        match parse_routing_key(l[i].as_str(), 'o') {
            Some((o, c)) => r.push(RouteDest { output_idx: o, channel_idx: c }),
            None => {},
        }
        i = i + 1;
    }
    assert(strings_view(l@).take(l.len() as int) =~= strings_view(l@));
    r
}

/// Sets the destinations of `k` in a matrix under construction.
fn upsert_exec(m: &mut Vec<((usize, usize), Vec<RouteDest>)>, k: (usize, usize), d: Vec<RouteDest>)
    ensures
        matrix_entries_view(final(m)@) == upsert(matrix_entries_view(old(m)@), k, d@),
{
    let ghost mv = matrix_entries_view(m@);
    let mut i: usize = 0;
    while i < m.len()
        invariant
            i <= m@.len(),
            mv == matrix_entries_view(m@),
            mv == matrix_entries_view(old(m)@),
            key_pos_from(mv, k, 0) == key_pos_from(mv, k, i as int),
        decreases m.len() - i,
    {
        if m[i].0.0 == k.0 && m[i].0.1 == k.1 {
            assert(mv[i as int].0 == k);
            assert(key_pos_from(mv, k, i as int) == Some(i as int));
            m.set(i, (k, d));
            assert(matrix_entries_view(m@) =~= mv.update(i as int, (k, d@)));
            return;
        }
        i = i + 1;
    }
    m.push((k, d));
    assert(matrix_entries_view(m@) =~= mv.push((k, d@)));
}

/// Builds the routing matrix from JSON entries taken in order.
pub fn build_routing_matrix(entries: &Vec<(String, Vec<String>)>) -> (r: RoutingMatrix)
    ensures
        r@ == matrix_of(json_entries_view(entries@)),
{
    let mut m: Vec<((usize, usize), Vec<RouteDest>)> = Vec::new();
    let mut i: usize = 0;
    assert(matrix_entries_view(m@) =~= Seq::<((usize, usize), Seq<RouteDest>)>::empty());
    while i < entries.len()
        invariant
            i <= entries.len(),
            matrix_entries_view(m@) == matrix_of(json_entries_view(entries@).take(i as int)),
        decreases entries.len() - i,
    {
        let ghost ev = json_entries_view(entries@);
        assert(ev.take(i + 1).drop_last() =~= ev.take(i as int));
        assert(ev.take(i + 1).last() == ev[i as int]);
        match parse_routing_key(entries[i].0.as_str(), 'i') {
            Some(k) => {
                let d = parse_dest_list(&entries[i].1);
                if d.len() > 0 {
                    upsert_exec(&mut m, k, d);
                }
            },
            None => {},
        }
        i = i + 1;
    }
    assert(json_entries_view(entries@).take(entries.len() as int) =~= json_entries_view(entries@));
    proof {
        lemma_matrix_of_wf(json_entries_view(entries@));
    }
    RoutingMatrix { entries: m }
}

/// The map that JSON entries with distinct keys stand for.
pub open spec fn entries_to_map(e: Seq<(Seq<char>, Seq<Seq<char>>)>) -> Map<Seq<char>, Seq<Seq<char>>> {
    Map::new(
        |k: Seq<char>| exists|i: int| 0 <= i < e.len() && #[trigger] e[i].0 == k,
        |k: Seq<char>| e[choose|i: int| 0 <= i < e.len() && #[trigger] e[i].0 == k].1,
    )
}

/// No two JSON entries share a key.
pub open spec fn entries_distinct(e: Seq<(Seq<char>, Seq<Seq<char>>)>) -> bool {
    forall|i: int, j: int|
        0 <= i < e.len() && 0 <= j < e.len() && i != j ==> #[trigger] e[i].0 != #[trigger] e[j].0
}

/// The object that `serde_json` reads from `s` as a map from strings to
/// lists of strings, or `None` when `s` is not such a JSON object.
pub uninterp spec fn routing_json(s: Seq<char>) -> Option<Map<Seq<char>, Seq<Seq<char>>>>;

/// Parses `s` with `serde_json::from_str` into a `HashMap<String,
/// Vec<String>>` and lists its entries.
///
/// Trusted: the result is `None` exactly when `serde_json` rejects the text,
/// and otherwise lists, once each, the entries of the map it read. The order
/// of the list is that of the `HashMap`'s iteration, which is left open.
#[verifier::external_body]
fn parse_routing_json(s: &str) -> (r: Option<Vec<(String, Vec<String>)>>)
    ensures
        r is None <==> routing_json(s@) is None,
        r matches Some(e) ==> entries_distinct(json_entries_view(e@)) && entries_to_map(
            json_entries_view(e@),
        ) == routing_json(s@)->0,
{
    let parsed: Result<std::collections::HashMap<String, Vec<String>>, serde_json::Error> =
        serde_json::from_str(s);
    match parsed {
        Ok(m) => Some(m.into_iter().collect()),
        Err(_) => None,
    }
}

/// The routing matrix text stored in the `routing_matrix` property, if it
/// is a string.
pub open spec fn routing_source(props: Map<Seq<char>, PropVal>) -> Option<Seq<char>> {
    if props.contains_key("routing_matrix"@) {
        match props["routing_matrix"@] {
            PropVal::Str(s) => Some(s),
            _ => None,
        }
    } else {
        None
    }
}

impl RoutingMatrix {
    #[verifier::type_invariant]
    closed spec fn inv(self) -> bool {
        matrix_wf(self@)
    }

    /// The empty matrix (nothing routed).
    pub fn new() -> (r: RoutingMatrix)
        ensures
            r@ == Seq::<((usize, usize), Seq<RouteDest>)>::empty(),
    {
        let r = RoutingMatrix { entries: Vec::new() };
        assert(r@ =~= Seq::<((usize, usize), Seq<RouteDest>)>::empty());
        r
    }

    /// Number of routed input channels.
    pub fn len(&self) -> (r: usize)
        ensures
            r == self@.len(),
    {
        self.entries.len()
    }

    /// The destinations of input `input_idx` channel `channel_idx`.
    pub fn destinations(&self, input_idx: usize, channel_idx: usize) -> (r: Option<&Vec<RouteDest>>)
        ensures
            match lookup(self@, (input_idx, channel_idx)) {
                Some(d) => r is Some && r->0@ == d,
                None => r is None,
            },
    {
        let k = (input_idx, channel_idx);
        let mut i: usize = 0;
        while i < self.entries.len()
            invariant
                i <= self.entries@.len(),
                k == (input_idx, channel_idx),
                key_pos_from(self@, k, 0) == key_pos_from(self@, k, i as int),
            decreases self.entries.len() - i,
        {
            if self.entries[i].0.0 == k.0 && self.entries[i].0.1 == k.1 {
                assert(self@[i as int] == (self.entries@[i as int].0, self.entries@[i as int].1@));
                assert(key_pos_from(self@, k, i as int) == Some(i as int));
                return Some(&self.entries[i].1);
            }
            i = i + 1;
        }
        None
    }

    /// How many routes land on `d`, capped at 2.
    pub fn route_count_capped(&self, d: RouteDest) -> (r: u8)
        ensures
            r as nat == cap2(route_count(self@, d)),
    {
        let mut acc: u8 = 0;
        let mut i: usize = 0;
        while i < self.entries.len()
            invariant
                i <= self.entries@.len(),
                acc as nat == cap2(route_count(self@.take(i as int), d)),
            decreases self.entries.len() - i,
        {
            let ghost m = self@;
            assert(m.take(i + 1).drop_last() =~= m.take(i as int));
            let dests = &self.entries[i].1;
            let ghost base = route_count(m.take(i as int), d);
            let mut j: usize = 0;
            while j < dests.len()
                invariant
                    j <= dests@.len(),
                    acc as nat == cap2(base + occurrences(dests@.take(j as int), d)),
                decreases dests.len() - j,
            {
                assert(dests@.take(j + 1).drop_last() =~= dests@.take(j as int));
                if dests[j] == d && acc < 2 {
                    acc = acc + 1;
                }
                j = j + 1;
            }
            assert(dests@.take(dests.len() as int) =~= dests@);
            assert(m.take(i + 1).last() == m[i as int]);
            i = i + 1;
        }
        assert(self@.take(self.entries.len() as int) =~= self@);
        acc
    }

    /// Whether more than one route lands on output `o` channel `c`, so that
    /// the output channel needs an audiomixer.
    pub fn needs_mixer(&self, o: usize, c: usize) -> (r: bool)
        ensures
            r == (route_count(self@, RouteDest { output_idx: o, channel_idx: c }) > 1),
    {
        self.route_count_capped(RouteDest { output_idx: o, channel_idx: c }) >= 2
    }

    /// Whether any route lands on output `o` channel `c`.
    pub fn is_routed(&self, o: usize, c: usize) -> (r: bool)
        ensures
            r == (route_count(self@, RouteDest { output_idx: o, channel_idx: c }) > 0),
    {
        self.route_count_capped(RouteDest { output_idx: o, channel_idx: c }) >= 1
    }
}

/// `m` is a routing matrix that the `routing_matrix` property gives: the
/// empty matrix for a missing, non-string, empty, `{}` or unparsable
/// property; otherwise the matrix of the JSON object's entries, taken in
/// some order.
pub open spec fn parsed_routing_matrix(props: Map<Seq<char>, PropVal>, m: Seq<((usize, usize), Seq<RouteDest>)>) -> bool {
    match routing_source(props) {
        None => m.len() == 0,
        Some(s) => if s.len() == 0 || s == "{}"@ {
            m.len() == 0
        } else {
            match routing_json(s) {
                None => m.len() == 0,
                Some(obj) => exists|e: Seq<(Seq<char>, Seq<Seq<char>>)>|
                    entries_distinct(e) && entries_to_map(e) == obj && m == matrix_of(e),
            }
        },
    }
}

/// Parses the routing matrix from the `routing_matrix` property.
///
/// Format: `{"i0c0": ["o0c0", "o1c0"], "i0c1": ["o0c1"]}` where `iXcY` is
/// input X channel Y and `oXcY` output X channel Y. A missing, non-string,
/// empty, `{}` or unparsable property gives the empty matrix; invalid keys
/// are skipped. When two source keys name the same input channel, which one
/// wins depends on the order in which the JSON object's entries are taken,
/// which is left open.
pub fn parse_routing_matrix(properties: &Properties) -> (r: RoutingMatrix)
    ensures
        parsed_routing_matrix(properties@, r@),
{
    let json_str = match properties.get("routing_matrix") {
        Some(PropertyValue::String(s)) => s,
        _ => return RoutingMatrix::new(),
    };
    let ghost s = json_str@;
    if json_str.unicode_len() == 0 || str_eq(json_str.as_str(), "{}") {
        return RoutingMatrix::new();
    }
    match parse_routing_json(json_str.as_str()) {
        None => RoutingMatrix::new(),
        Some(entries) => {
            let r = build_routing_matrix(&entries);
            assert(entries_distinct(json_entries_view(entries@)) && entries_to_map(
                json_entries_view(entries@),
            ) == routing_json(s)->0 && r@ == matrix_of(json_entries_view(entries@)));
            r
        },
    }
}

// ---------------------------------------------------------------------------
// Routing analysis
// ---------------------------------------------------------------------------

/// `(o, c)` is a channel of one of the output streams whose channel counts
/// are `chs`.
pub open spec fn is_output_slot(chs: Seq<usize>, o: int, c: int) -> bool {
    0 <= o < chs.len() && 0 <= c < chs[o]
}

/// Lexicographic order on (stream, channel) pairs.
pub open spec fn slot_lt(a: (usize, usize), b: (usize, usize)) -> bool {
    a.0 < b.0 || (a.0 == b.0 && a.1 < b.1)
}

/// The output channels that no route lands on (they get silence), in order
/// of output stream, then channel.
pub fn unrouted_outputs(m: &RoutingMatrix, output_channels: &Vec<usize>) -> (r: Vec<(usize, usize)>)
    ensures
        forall|i: int|
            0 <= i < r@.len() ==> is_output_slot(output_channels@, r@[i].0 as int, r@[i].1 as int)
                && route_count(m@, RouteDest { output_idx: r@[i].0, channel_idx: r@[i].1 }) == 0,
        forall|o: usize, c: usize|
            is_output_slot(output_channels@, o as int, c as int) && route_count(
                m@,
                RouteDest { output_idx: o, channel_idx: c },
            ) == 0 ==> r@.contains((o, c)),
        forall|i: int, j: int| 0 <= i < j < r@.len() ==> slot_lt(r@[i], r@[j]),
{
    let mut r: Vec<(usize, usize)> = Vec::new();
    let mut o: usize = 0;
    while o < output_channels.len()
        invariant
            o <= output_channels@.len(),
            forall|i: int|
                0 <= i < r@.len() ==> is_output_slot(output_channels@, r@[i].0 as int, r@[i].1 as int)
                    && r@[i].0 < o && route_count(
                    m@,
                    RouteDest { output_idx: r@[i].0, channel_idx: r@[i].1 },
                ) == 0,
            forall|oo: usize, c: usize|
                oo < o && is_output_slot(output_channels@, oo as int, c as int) && route_count(
                    m@,
                    RouteDest { output_idx: oo, channel_idx: c },
                ) == 0 ==> r@.contains((oo, c)),
            forall|i: int, j: int| 0 <= i < j < r@.len() ==> slot_lt(r@[i], r@[j]),
        decreases output_channels.len() - o,
    {
        let n = output_channels[o];
        let mut c: usize = 0;
        while c < n
            invariant
                o < output_channels@.len(),
                n == output_channels@[o as int],
                c <= n,
                forall|i: int|
                    0 <= i < r@.len() ==> is_output_slot(
                        output_channels@,
                        r@[i].0 as int,
                        r@[i].1 as int,
                    ) && (r@[i].0 < o || (r@[i].0 == o && r@[i].1 < c)) && route_count(
                        m@,
                        RouteDest { output_idx: r@[i].0, channel_idx: r@[i].1 },
                    ) == 0,
                forall|oo: usize, cc: usize|
                    (oo < o || (oo == o && cc < c)) && is_output_slot(
                        output_channels@,
                        oo as int,
                        cc as int,
                    ) && route_count(m@, RouteDest { output_idx: oo, channel_idx: cc }) == 0
                        ==> r@.contains((oo, cc)),
                forall|i: int, j: int| 0 <= i < j < r@.len() ==> slot_lt(r@[i], r@[j]),
            decreases n - c,
        {
            if !m.is_routed(o, c) {
                let ghost old_r = r@;
                r.push((o, c));
                assert forall|oo: usize, cc: usize|
                    (oo < o || (oo == o && cc < c + 1)) && is_output_slot(
                        output_channels@,
                        oo as int,
                        cc as int,
                    ) && route_count(m@, RouteDest { output_idx: oo, channel_idx: cc }) == 0 implies r@.contains(
                    (oo, cc),
                ) by {
                    if oo == o && cc == c {
                        assert(r@[r@.len() - 1] == (oo, cc));
                    } else {
                        assert(old_r.contains((oo, cc)));
                        let k = choose|k: int| 0 <= k < old_r.len() && old_r[k] == (oo, cc);
                        assert(r@[k] == (oo, cc));
                    }
                }
            } else {
                assert forall|oo: usize, cc: usize|
                    (oo < o || (oo == o && cc < c + 1)) && is_output_slot(
                        output_channels@,
                        oo as int,
                        cc as int,
                    ) && route_count(m@, RouteDest { output_idx: oo, channel_idx: cc }) == 0 implies r@.contains(
                    (oo, cc),
                ) by {
                    if oo == o && cc == c {
                        assert(false);
                    }
                }
            }
            c = c + 1;
        }
        o = o + 1;
    }
    r
}

/// The channel mask that the capssetter gives an output of `channels`
/// channels: 1 channel is front-center (0x1), 2 channels front-left and
/// front-right (0x3), more channels are unpositioned (0x0).
pub fn channel_mask(channels: usize) -> (r: u64)
    ensures
        r == (if channels == 1 {
            1u64
        } else if channels == 2 {
            3u64
        } else {
            0u64
        }),
{
    if channels == 1 {
        0x1
    } else if channels == 2 {
        0x3
    } else {
        0x0
    }
}

// ---------------------------------------------------------------------------
// External pads
// ---------------------------------------------------------------------------

/// The input pad of stream `i`.
pub open spec fn router_input_pad(i: nat) -> PadView {
    pad_spec(
        Some("A"@ + decimal(i)),
        "audio_in_"@ + decimal(i),
        MediaType::Audio,
        "identity_in_"@ + decimal(i),
        "sink"@,
    )
}

/// The output pad of stream `i`.
pub open spec fn router_output_pad(i: nat) -> PadView {
    pad_spec(
        Some("A"@ + decimal(i)),
        "audio_out_"@ + decimal(i),
        MediaType::Audio,
        "queue_out_"@ + decimal(i),
        "src"@,
    )
}

/// Builder of the audio router block.
pub struct AudioRouterBuilder;

impl AudioRouterBuilder {
    /// The router's pads (see [`audiorouter_external_pads`]).
    pub fn get_external_pads(&self, properties: &Properties) -> (r: Option<ExternalPads>)
        ensures
            r is Some,
            r->0.inputs@.len() == clamped_count(properties@, "num_inputs"@, 2, 1, MAX_STREAMS),
            r->0.outputs@.len() == clamped_count(properties@, "num_outputs"@, 2, 1, MAX_STREAMS),
            forall|i: int| 0 <= i < r->0.inputs@.len() ==> #[trigger] r->0.inputs@[i]@ == router_input_pad(i as nat),
            forall|i: int|
                0 <= i < r->0.outputs@.len() ==> #[trigger] r->0.outputs@[i]@ == router_output_pad(i as nat),
    {
        Some(audiorouter_external_pads(properties))
    }
}

/// The router's pads: one input per input stream and one output per output
/// stream, as many as `num_inputs` / `num_outputs` say (default 2).
pub fn audiorouter_external_pads(properties: &Properties) -> (r: ExternalPads)
    ensures
        r.inputs@.len() == clamped_count(properties@, "num_inputs"@, 2, 1, MAX_STREAMS),
        r.outputs@.len() == clamped_count(properties@, "num_outputs"@, 2, 1, MAX_STREAMS),
        forall|i: int| 0 <= i < r.inputs@.len() ==> #[trigger] r.inputs@[i]@ == router_input_pad(i as nat),
        forall|i: int|
            0 <= i < r.outputs@.len() ==> #[trigger] r.outputs@[i]@ == router_output_pad(i as nat),
{
    let num_inputs = parse_num_streams(properties, "num_inputs", 2);
    let num_outputs = parse_num_streams(properties, "num_outputs", 2);
    let mut inputs: Vec<ExternalPad> = Vec::new();
    let mut i: usize = 0;
    while i < num_inputs
        invariant
            i <= num_inputs,
            inputs@.len() == i,
            forall|j: int| 0 <= j < i ==> #[trigger] inputs@[j]@ == router_input_pad(j as nat),
        decreases num_inputs - i,
    {
        inputs.push(
            ExternalPad {
                label: Some(with_index("A", i)),
                name: with_index("audio_in_", i),
                media_type: MediaType::Audio,
                internal_element_id: with_index("identity_in_", i),
                internal_pad_name: string_of("sink"),
            },
        );
        i = i + 1;
    }
    let mut outputs: Vec<ExternalPad> = Vec::new();
    let mut i: usize = 0;
    while i < num_outputs
        invariant
            i <= num_outputs,
            outputs@.len() == i,
            forall|j: int| 0 <= j < i ==> #[trigger] outputs@[j]@ == router_output_pad(j as nat),
        decreases num_outputs - i,
    {
        outputs.push(
            ExternalPad {
                label: Some(with_index("A", i)),
                name: with_index("audio_out_", i),
                media_type: MediaType::Audio,
                internal_element_id: with_index("queue_out_", i),
                internal_pad_name: string_of("src"),
            },
        );
        i = i + 1;
    }
    ExternalPads { inputs, outputs }
}

// ---------------------------------------------------------------------------
// Deinterleave pad routing
// ---------------------------------------------------------------------------

/// One route from a deinterleaved input channel.
#[derive(Clone, Copy, Debug)]
pub struct PadRoute {
    /// Output channel that the route feeds.
    pub dest: RouteDest,
    /// Whether the route goes through that channel's audiomixer (several
    /// routes land on it) rather than straight into the interleave.
    pub via_mixer: bool,
}

/// How a new deinterleave pad is routed.
#[derive(Clone, Debug)]
pub struct PadRoutePlan {
    /// The input channel that the pad carries.
    pub channel_idx: usize,
    /// Whether a tee fans the channel out (more than one destination).
    pub use_tee: bool,
    /// One route per destination, in matrix order.
    pub routes: Vec<PadRoute>,
}

/// Decides how the deinterleave pad `pad_name` of input `input_idx` is
/// routed: `None` when the pad name carries no channel index or the channel
/// is not routed (the pad stays unlinked).
pub fn plan_deinterleave_pad(m: &RoutingMatrix, input_idx: usize, pad_name: &str) -> (r: Option<
    PadRoutePlan,
>)
    ensures
        match parse_channel_from_pad_name_spec(pad_name@) {
            None => r is None,
            Some(ch) => match lookup(m@, (input_idx, ch)) {
                None => r is None,
                Some(d) => r is Some && r->0.channel_idx == ch && r->0.use_tee == (d.len() > 1)
                    && r->0.routes@.len() == d.len() && forall|i: int|
                    0 <= i < d.len() ==> (#[trigger] r->0.routes@[i]).dest == d[i]
                        && r->0.routes@[i].via_mixer == (route_count(m@, d[i]) > 1),
            },
        },
{
    let ch = match parse_channel_from_pad_name(pad_name) {
        Some(ch) => ch,
        None => return None,
    };
    let dests = match m.destinations(input_idx, ch) {
        Some(d) => d,
        None => return None,
    };
    let mut routes: Vec<PadRoute> = Vec::new();
    let mut i: usize = 0;
    while i < dests.len()
        invariant
            i <= dests@.len(),
            routes@.len() == i,
            forall|j: int|
                0 <= j < i ==> (#[trigger] routes@[j]).dest == dests@[j] && routes@[j].via_mixer == (
                route_count(m@, dests@[j]) > 1),
        decreases dests.len() - i,
    {
        let d = dests[i];
        let via = m.needs_mixer(d.output_idx, d.channel_idx);
        routes.push(PadRoute { dest: d, via_mixer: via });
        i = i + 1;
    }
    Some(PadRoutePlan { channel_idx: ch, use_tee: dests.len() > 1, routes })
}

/// The channel index carried by a deinterleave pad name (`src_N`).
pub open spec fn parse_channel_from_pad_name_spec(s: Seq<char>) -> Option<usize> {
    if has_prefix(s, "src_"@) {
        parse_usize_spec(s.subrange("src_"@.len() as int, s.len() as int))
    } else {
        None
    }
}

// ---------------------------------------------------------------------------
// Element plan
// ---------------------------------------------------------------------------

/// The matrix as a sequence of (input slot, destinations) entries.
pub type MatrixView = Seq<((usize, usize), Seq<RouteDest>)>;

/// `{prefix}{o}c{c}`, as in `audiomixer_o0c1`.
pub open spec fn slot_suffix(prefix: Seq<char>, o: nat, c: nat) -> Seq<char> {
    prefix + decimal(o) + "c"@ + decimal(c)
}

/// Builds `{prefix}{o}c{c}`.
pub fn slot_name(prefix: &str, o: usize, c: usize) -> (r: String)
    ensures
        r@ == slot_suffix(prefix@, o as nat, c as nat),
{
    let mut r = with_index(prefix, o);
    push_str(&mut r, "c");
    push_decimal(&mut r, c as u64);
    r
}

/// The number of routes landing on output `o` channel `c`.
pub open spec fn routes_to(m: MatrixView, o: usize, c: nat) -> nat {
    route_count(m, RouteDest { output_idx: o, channel_idx: c as usize })
}

/// The audiomixers of output `o` among its channels below `n`: one for
/// each channel fed by more than one route.
pub open spec fn router_mixer_ids(inst: Seq<char>, m: MatrixView, o: usize, n: nat) -> Seq<Seq<char>>
    decreases n,
{
    if n == 0 {
        Seq::empty()
    } else {
        router_mixer_ids(inst, m, o, (n - 1) as nat) + if routes_to(m, o, (n - 1) as nat) > 1 {
            seq![element_id_spec(inst, slot_suffix("audiomixer_o"@, o as nat, (n - 1) as nat))]
        } else {
            Seq::empty()
        }
    }
}

/// The links from those audiomixers to the channel pads of output `o`'s
/// interleave.
pub open spec fn router_mixer_links(inst: Seq<char>, m: MatrixView, o: usize, n: nat) -> Seq<LinkView>
    decreases n,
{
    if n == 0 {
        Seq::empty()
    } else {
        router_mixer_links(inst, m, o, (n - 1) as nat) + if routes_to(m, o, (n - 1) as nat) > 1 {
            seq![
                link_spec(
                    inst,
                    slot_suffix("audiomixer_o"@, o as nat, (n - 1) as nat),
                    "src"@,
                    "interleave_"@ + decimal(o as nat),
                    "sink_"@ + decimal((n - 1) as nat),
                ),
            ]
        } else {
            Seq::empty()
        }
    }
}

/// The channels of output `o` below `n` that no route lands on.
pub open spec fn router_unrouted_slots(m: MatrixView, o: usize, n: nat) -> Seq<(usize, usize)>
    decreases n,
{
    if n == 0 {
        Seq::empty()
    } else {
        router_unrouted_slots(m, o, (n - 1) as nat) + if routes_to(m, o, (n - 1) as nat) == 0 {
            seq![(o, (n - 1) as usize)]
        } else {
            Seq::empty()
        }
    }
}

/// The elements of the first `k` outputs: for each, its audiomixers, then
/// its interleave, capssetter and output queue.
pub open spec fn router_output_ids(inst: Seq<char>, m: MatrixView, outs: Seq<usize>, k: nat) -> Seq<Seq<char>>
    decreases k,
{
    if k == 0 {
        Seq::empty()
    } else {
        let o = (k - 1) as usize;
        router_output_ids(inst, m, outs, (k - 1) as nat) + router_mixer_ids(inst, m, o, outs[k - 1] as nat) + seq![
            element_id_spec(inst, "interleave_"@ + decimal(o as nat)),
            element_id_spec(inst, "capssetter_"@ + decimal(o as nat)),
            element_id_spec(inst, "queue_out_"@ + decimal(o as nat)),
        ]
    }
}

/// The links of the first `k` outputs: interleave to capssetter to output
/// queue, then the audiomixers to the interleave.
pub open spec fn router_output_links(inst: Seq<char>, m: MatrixView, outs: Seq<usize>, k: nat) -> Seq<LinkView>
    decreases k,
{
    if k == 0 {
        Seq::empty()
    } else {
        let o = (k - 1) as usize;
        router_output_links(inst, m, outs, (k - 1) as nat) + seq![
            link_spec(inst, "interleave_"@ + decimal(o as nat), "src"@, "capssetter_"@ + decimal(o as nat), "sink"@),
            link_spec(inst, "capssetter_"@ + decimal(o as nat), "src"@, "queue_out_"@ + decimal(o as nat), "sink"@),
        ] + router_mixer_links(inst, m, o, outs[k - 1] as nat)
    }
}

/// The unrouted channels of the first `k` outputs, by output, then channel.
pub open spec fn router_unrouted(m: MatrixView, outs: Seq<usize>, k: nat) -> Seq<(usize, usize)>
    decreases k,
{
    if k == 0 {
        Seq::empty()
    } else {
        router_unrouted(m, outs, (k - 1) as nat) + router_unrouted_slots(m, (k - 1) as usize, outs[k - 1] as nat)
    }
}

/// The suffix of the silence queue feeding an unrouted output channel.
pub open spec fn silence_queue_suffix(s: (usize, usize)) -> Seq<char> {
    slot_suffix("silence_queue_o"@, s.0 as nat, s.1 as nat)
}

/// The silence queues of the unrouted channels `u`.
pub open spec fn silence_queue_ids(inst: Seq<char>, u: Seq<(usize, usize)>) -> Seq<Seq<char>> {
    u.map_values(|s: (usize, usize)| element_id_spec(inst, silence_queue_suffix(s)))
}

/// For each unrouted channel, the link into its silence queue (from the
/// silence tee, or straight from the silence source) and from the queue to
/// the channel's interleave pad.
pub open spec fn silence_queue_links(inst: Seq<char>, u: Seq<(usize, usize)>, from_tee: bool) -> Seq<LinkView>
    decreases u.len(),
{
    if u.len() == 0 {
        Seq::empty()
    } else {
        let s = u.last();
        silence_queue_links(inst, u.drop_last(), from_tee) + seq![
            if from_tee {
                link_spec(inst, "silence_tee"@, "src_%u"@, silence_queue_suffix(s), "sink"@)
            } else {
                link_spec(inst, "silence_src"@, "src"@, silence_queue_suffix(s), "sink"@)
            },
            link_spec(inst, silence_queue_suffix(s), "src"@, "interleave_"@ + decimal(s.0 as nat), "sink_"@ + decimal(s.1 as nat)),
        ]
    }
}

/// The silence elements: none when every output channel is routed;
/// otherwise a silence source, a tee when more than one channel needs it,
/// and a queue per unrouted channel.
pub open spec fn silence_ids(inst: Seq<char>, u: Seq<(usize, usize)>) -> Seq<Seq<char>> {
    if u.len() == 0 {
        Seq::empty()
    } else {
        seq![element_id_spec(inst, "silence_src"@)] + (if u.len() > 1 {
            seq![element_id_spec(inst, "silence_tee"@)]
        } else {
            Seq::empty()
        }) + silence_queue_ids(inst, u)
    }
}

/// The silence links: source to tee when there is a tee, then the queue
/// links of each unrouted channel.
pub open spec fn silence_links(inst: Seq<char>, u: Seq<(usize, usize)>) -> Seq<LinkView> {
    if u.len() == 0 {
        Seq::empty()
    } else if u.len() > 1 {
        seq![link_spec(inst, "silence_src"@, "src"@, "silence_tee"@, "sink"@)] + silence_queue_links(inst, u, true)
    } else {
        silence_queue_links(inst, u, false)
    }
}

/// The elements of the first `n` inputs: an identity and a deinterleave
/// each.
pub open spec fn router_input_ids(inst: Seq<char>, n: nat) -> Seq<Seq<char>>
    decreases n,
{
    if n == 0 {
        Seq::empty()
    } else {
        router_input_ids(inst, (n - 1) as nat) + seq![
            element_id_spec(inst, "identity_in_"@ + decimal((n - 1) as nat)),
            element_id_spec(inst, "deinterleave_"@ + decimal((n - 1) as nat)),
        ]
    }
}

/// The links of the first `n` inputs: identity to deinterleave. The
/// deinterleave's channel pads are linked as they appear (see
/// [`plan_deinterleave_pad`]).
pub open spec fn router_input_links(inst: Seq<char>, n: nat) -> Seq<LinkView>
    decreases n,
{
    if n == 0 {
        Seq::empty()
    } else {
        router_input_links(inst, (n - 1) as nat) + seq![
            link_spec(
                inst,
                "identity_in_"@ + decimal((n - 1) as nat),
                "src"@,
                "deinterleave_"@ + decimal((n - 1) as nat),
                "sink"@,
            ),
        ]
    }
}

/// The elements and static links of an audio router with routing matrix
/// `m`, output channel counts `outs` and `num_inputs` inputs: the outputs,
/// then the silence for unrouted output channels, then the inputs.
pub open spec fn audiorouter_plan_spec(inst: Seq<char>, m: MatrixView, outs: Seq<usize>, num_inputs: nat) -> BlockPlanView {
    let u = router_unrouted(m, outs, outs.len());
    BlockPlanView {
        elements: router_output_ids(inst, m, outs, outs.len()) + silence_ids(inst, u) + router_input_ids(inst, num_inputs),
        links: router_output_links(inst, m, outs, outs.len()) + silence_links(inst, u) + router_input_links(inst, num_inputs),
        bus_message_handler: false,
    }
}

/// Plans the elements and static links of an audio router (see
/// [`audiorouter_plan_spec`]).
pub fn audiorouter_plan(instance_id: &str, m: &RoutingMatrix, output_channels: &Vec<usize>, num_inputs: usize) -> (r: BlockPlan)
    ensures
        r@ == audiorouter_plan_spec(instance_id@, m@, output_channels@, num_inputs as nat),
{
    let ghost inst = instance_id@;
    let ghost outs = output_channels@;
    let mut elements: Vec<String> = Vec::new();
    let mut links: Vec<ElementLink> = Vec::new();
    let mut unrouted: Vec<(usize, usize)> = Vec::new();
    let mut o: usize = 0;
    while o < output_channels.len()
        invariant
            o <= outs.len(),
            outs == output_channels@,
            inst == instance_id@,
            ids_view(elements@) == router_output_ids(inst, m@, outs, o as nat),
            links_view(links@) == router_output_links(inst, m@, outs, o as nat),
            unrouted@ == router_unrouted(m@, outs, o as nat),
        decreases output_channels.len() - o,
    {
        let n = output_channels[o];
        let ghost e0 = ids_view(elements@);
        let ghost u0 = unrouted@;
        let mut c: usize = 0;
        while c < n
            invariant
                o < outs.len(),
                n == outs[o as int],
                c <= n,
                inst == instance_id@,
                ids_view(elements@) == e0 + router_mixer_ids(inst, m@, o, c as nat),
                unrouted@ == u0 + router_unrouted_slots(m@, o, c as nat),
            decreases n - c,
        {
            if m.needs_mixer(o, c) {
                let name = slot_name("audiomixer_o", o, c);
                push_element(&mut elements, instance_id, name.as_str());
            }
            if !m.is_routed(o, c) {
                unrouted.push((o, c));
            }
            c = c + 1;
            assert(ids_view(elements@) =~= e0 + router_mixer_ids(inst, m@, o, c as nat));
            assert(unrouted@ =~= u0 + router_unrouted_slots(m@, o, c as nat));
        }
        let interleave = with_index("interleave_", o);
        let capssetter = with_index("capssetter_", o);
        let queue_out = with_index("queue_out_", o);
        push_element(&mut elements, instance_id, interleave.as_str());
        push_element(&mut elements, instance_id, capssetter.as_str());
        push_element(&mut elements, instance_id, queue_out.as_str());
        push_link(&mut links, pad_link(instance_id, interleave.as_str(), "src", capssetter.as_str(), "sink"));
        push_link(&mut links, pad_link(instance_id, capssetter.as_str(), "src", queue_out.as_str(), "sink"));
        let ghost l0 = links_view(links@);
        let mut c: usize = 0;
        while c < n
            invariant
                o < outs.len(),
                n == outs[o as int],
                c <= n,
                inst == instance_id@,
                interleave@ == "interleave_"@ + decimal(o as nat),
                links_view(links@) == l0 + router_mixer_links(inst, m@, o, c as nat),
            decreases n - c,
        {
            if m.needs_mixer(o, c) {
                let name = slot_name("audiomixer_o", o, c);
                let pad = with_index("sink_", c);
                push_link(&mut links, pad_link(instance_id, name.as_str(), "src", interleave.as_str(), pad.as_str()));
            }
            c = c + 1;
            assert(links_view(links@) =~= l0 + router_mixer_links(inst, m@, o, c as nat));
        }
        o = o + 1;
        assert(ids_view(elements@) =~= router_output_ids(inst, m@, outs, o as nat));
        assert(links_view(links@) =~= router_output_links(inst, m@, outs, o as nat));
        assert(unrouted@ =~= router_unrouted(m@, outs, o as nat));
    }
    let ghost u = unrouted@;
    let ghost e1 = ids_view(elements@);
    let ghost l1 = links_view(links@);
    let nu = unrouted.len();
    if nu > 0 {
        let from_tee = nu > 1;
        push_element(&mut elements, instance_id, "silence_src");
        if from_tee {
            push_element(&mut elements, instance_id, "silence_tee");
            push_link(&mut links, pad_link(instance_id, "silence_src", "src", "silence_tee", "sink"));
        }
        let ghost e2 = ids_view(elements@);
        let ghost l2 = links_view(links@);
        let mut i: usize = 0;
        while i < nu
            invariant
                i <= nu,
                nu == u.len(),
                unrouted@ == u,
                inst == instance_id@,
                from_tee == (nu > 1),
                ids_view(elements@) == e2 + silence_queue_ids(inst, u.take(i as int)),
                links_view(links@) == l2 + silence_queue_links(inst, u.take(i as int), from_tee),
            decreases nu - i,
        {
            let (uo, uc) = unrouted[i];
            let queue = slot_name("silence_queue_o", uo, uc);
            let il = with_index("interleave_", uo);
            let pad = with_index("sink_", uc);
            push_element(&mut elements, instance_id, queue.as_str());
            if from_tee {
                push_link(&mut links, pad_link(instance_id, "silence_tee", "src_%u", queue.as_str(), "sink"));
            } else {
                push_link(&mut links, pad_link(instance_id, "silence_src", "src", queue.as_str(), "sink"));
            }
            push_link(&mut links, pad_link(instance_id, queue.as_str(), "src", il.as_str(), pad.as_str()));
            i = i + 1;
            assert(u.take(i as int).drop_last() =~= u.take(i - 1));
            assert(ids_view(elements@) =~= e2 + silence_queue_ids(inst, u.take(i as int)));
            assert(links_view(links@) =~= l2 + silence_queue_links(inst, u.take(i as int), from_tee));
        }
        assert(u.take(nu as int) =~= u);
    }
    assert(ids_view(elements@) =~= e1 + silence_ids(inst, u));
    assert(links_view(links@) =~= l1 + silence_links(inst, u));
    let ghost e3 = ids_view(elements@);
    let ghost l3 = links_view(links@);
    let mut i: usize = 0;
    while i < num_inputs
        invariant
            i <= num_inputs,
            inst == instance_id@,
            ids_view(elements@) == e3 + router_input_ids(inst, i as nat),
            links_view(links@) == l3 + router_input_links(inst, i as nat),
        decreases num_inputs - i,
    {
        let identity = with_index("identity_in_", i);
        let deinterleave = with_index("deinterleave_", i);
        push_element(&mut elements, instance_id, identity.as_str());
        push_element(&mut elements, instance_id, deinterleave.as_str());
        push_link(&mut links, pad_link(instance_id, identity.as_str(), "src", deinterleave.as_str(), "sink"));
        i = i + 1;
        assert(ids_view(elements@) =~= e3 + router_input_ids(inst, i as nat));
        assert(links_view(links@) =~= l3 + router_input_links(inst, i as nat));
    }
    let r = BlockPlan { elements, links, bus_message_handler: false };
    assert(r@ =~= audiorouter_plan_spec(instance_id@, m@, output_channels@, num_inputs as nat));
    r
}

/// The channel mask of an output of `channels` channels (see
/// [`channel_mask`]).
pub open spec fn channel_mask_spec(channels: usize) -> u64 {
    if channels == 1 {
        1u64
    } else if channels == 2 {
        3u64
    } else {
        0u64
    }
}

/// The settings of the capssetters of the first `k` outputs: raw-audio caps
/// carrying the output's channel mask, merged into the stream's caps
/// (`join`).
pub open spec fn router_capssetter_settings(inst: Seq<char>, outs: Seq<usize>, k: nat) -> Seq<SettingView>
    decreases k,
{
    if k == 0 {
        Seq::empty()
    } else {
        let o = (k - 1) as nat;
        router_capssetter_settings(inst, outs, o) + seq![
            setting_spec(
                inst,
                "capssetter_"@ + decimal(o),
                "caps"@,
                SettingVal::Caps(RawAudioCaps { rate: None, channels: None, channel_mask: Some(channel_mask_spec(outs[o as int])) }),
            ),
            setting_spec(inst, "capssetter_"@ + decimal(o), "join"@, SettingVal::Value(PropVal::Bool(true))),
        ]
    }
}

/// Lists the capssetter settings of an audio router with output channel
/// counts `output_channels` (see [`router_capssetter_settings`]).
pub fn audiorouter_settings(instance_id: &str, output_channels: &Vec<usize>) -> (r: Vec<ElementSetting>)
    ensures
        settings_view(r@) == router_capssetter_settings(instance_id@, output_channels@, output_channels@.len()),
{
    let mut r: Vec<ElementSetting> = Vec::new();
    let mut o: usize = 0;
    while o < output_channels.len()
        invariant
            o <= output_channels@.len(),
            settings_view(r@) == router_capssetter_settings(instance_id@, output_channels@, o as nat),
        decreases output_channels.len() - o,
    {
        let name = with_index("capssetter_", o);
        let mask = channel_mask(output_channels[o]);
        let caps = RawAudioCaps { rate: None, channels: None, channel_mask: Some(mask) };
        push_setting(&mut r, element_setting(instance_id, name.as_str(), "caps", SettingValue::Caps(caps)));
        push_setting(
            &mut r,
            element_setting(instance_id, name.as_str(), "join", SettingValue::Value(PropertyValue::Bool(true))),
        );
        o = o + 1;
        assert(settings_view(r@) =~= router_capssetter_settings(instance_id@, output_channels@, o as nat));
    }
    r
}

/// The output channel counts the properties give: `num_outputs` streams
/// (default 2, within 1-8), each of `output_{o}_channels` channels (default
/// 2, within 1-64).
pub open spec fn router_output_channels_spec(props: Map<Seq<char>, PropVal>) -> Seq<usize> {
    Seq::new(
        clamped_count(props, "num_outputs"@, 2, 1, MAX_STREAMS) as nat,
        |o: int| clamped_count(props, "output_"@ + decimal(o as nat) + "_channels"@, 2, 1, MAX_CHANNELS),
    )
}

/// What an audio router block is built from and what it builds.
pub struct AudioRouterBuild {
    /// The routing matrix read from `routing_matrix`.
    pub matrix: RoutingMatrix,
    /// The number of input streams.
    pub num_inputs: usize,
    /// The channel count of each output stream.
    pub output_channels: Vec<usize>,
    /// The elements and links.
    pub plan: BlockPlan,
    /// The capssetter settings.
    pub settings: Vec<ElementSetting>,
}

/// Reads an audio router's configuration from its properties and plans
/// the block: `num_inputs` input streams (default 2, within 1-8), the
/// output channel counts of [`router_output_channels_spec`], the routing
/// matrix of `routing_matrix`, and from them the elements, links and
/// capssetter settings.
pub fn audiorouter_build(instance_id: &str, properties: &Properties) -> (r: AudioRouterBuild)
    ensures
        parsed_routing_matrix(properties@, r.matrix@),
        r.num_inputs == clamped_count(properties@, "num_inputs"@, 2, 1, MAX_STREAMS),
        r.output_channels@ == router_output_channels_spec(properties@),
        r.plan@ == audiorouter_plan_spec(instance_id@, r.matrix@, r.output_channels@, r.num_inputs as nat),
        settings_view(r.settings@) == router_capssetter_settings(
            instance_id@,
            r.output_channels@,
            r.output_channels@.len(),
        ),
{
    let num_inputs = parse_num_streams(properties, "num_inputs", 2);
    let num_outputs = parse_num_streams(properties, "num_outputs", 2);
    let output_channels = parse_stream_channels(properties, "output_", num_outputs);
    assert(output_channels@ =~= router_output_channels_spec(properties@));
    let matrix = parse_routing_matrix(properties);
    let plan = audiorouter_plan(instance_id, &matrix, &output_channels, num_inputs);
    let settings = audiorouter_settings(instance_id, &output_channels);
    AudioRouterBuild { matrix, num_inputs, output_channels, plan, settings }
}

} // verus!


