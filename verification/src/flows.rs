//! Flows and the store that holds them: what reading a flow reports while
//! its pipeline runs, what saving, deleting, starting and stopping do to
//! it, which flows wait to be written to storage, and how changes made on a
//! running pipeline are written back into the flow definition.
use vstd::prelude::*;

use crate::pads::MediaType;
use crate::property::{PropVal, PropertyValue, Properties, StrMap, FLOAT_ONE_BITS, FLOAT_ZERO_BITS};
use crate::text::{
    before_first, concat2, decimal, has_prefix, indexed, parse_i32, parse_i32_spec,
    parse_usize, parse_usize_spec, prefix_before, replace_all, replace_char, str_eq, string_of,
    strip_prefix, trim, trimmed,
};

verus! {

// ---------------------------------------------------------------------------
// The flow model
// ---------------------------------------------------------------------------

/// The state of a flow's pipeline.
#[derive(Clone, Copy, Debug, PartialEq, Eq, Structural)]
pub enum PipelineState {
    Null,
    Ready,
    Paused,
    Playing,
}

/// What the PTP clock of a running pipeline reports.
#[derive(Clone, Debug)]
pub struct PtpInfo {
    /// The PTP domain the pipeline's clock follows.
    pub domain: u8,
    /// The grandmaster's clock identity, once known.
    pub grandmaster_clock_id: Option<String>,
    /// Whether the flow is configured for another domain than the one
    /// running, so that a restart is needed.
    pub restart_needed: bool,
}

/// The mathematical value of a [`PtpInfo`].
pub struct PtpInfoView {
    pub domain: u8,
    pub grandmaster_clock_id: Option<Seq<char>>,
    pub restart_needed: bool,
}

/// The view of an optional string.
pub open spec fn opt_str(o: Option<String>) -> Option<Seq<char>> {
    match o {
        Some(s) => Some(s@),
        None => None,
    }
}

impl View for PtpInfo {
    type V = PtpInfoView;

    open spec fn view(&self) -> PtpInfoView {
        PtpInfoView {
            domain: self.domain,
            grandmaster_clock_id: opt_str(self.grandmaster_clock_id),
            restart_needed: self.restart_needed,
        }
    }
}

/// The view of an optional [`PtpInfo`].
pub open spec fn opt_ptp(o: Option<PtpInfo>) -> Option<PtpInfoView> {
    match o {
        Some(p) => Some(p@),
        None => None,
    }
}

/// A copy of an optional string.
pub fn dup_opt_str(o: &Option<String>) -> (r: Option<String>)
    ensures
        opt_str(r) == opt_str(*o),
{
    match o {
        Some(s) => Some(s.clone()),
        None => None,
    }
}

impl PtpInfo {
    /// A copy with the same view.
    pub fn duplicate(&self) -> (r: PtpInfo)
        ensures
            r@ == self@,
    {
        PtpInfo {
            domain: self.domain,
            grandmaster_clock_id: dup_opt_str(&self.grandmaster_clock_id),
            restart_needed: self.restart_needed,
        }
    }
}

/// The settings of a flow that the store reads and changes.
#[derive(Clone, Debug)]
pub struct FlowProperties {
    /// Whether the flow's pipeline is clocked by PTP.
    pub ptp_clock: bool,
    /// The PTP domain configured for the flow; domain 0 when absent.
    pub ptp_domain: Option<u8>,
    /// Whether the flow is restarted automatically.
    pub auto_restart: bool,
    /// When the flow was last started (RFC 3339), while it runs.
    pub started_at: Option<String>,
    /// The running pipeline's PTP report.
    pub ptp_info: Option<PtpInfo>,
}

/// The mathematical value of [`FlowProperties`].
pub struct FlowPropsView {
    pub ptp_clock: bool,
    pub ptp_domain: Option<u8>,
    pub auto_restart: bool,
    pub started_at: Option<Seq<char>>,
    pub ptp_info: Option<PtpInfoView>,
}

impl View for FlowProperties {
    type V = FlowPropsView;

    open spec fn view(&self) -> FlowPropsView {
        FlowPropsView {
            ptp_clock: self.ptp_clock,
            ptp_domain: self.ptp_domain,
            auto_restart: self.auto_restart,
            started_at: opt_str(self.started_at),
            ptp_info: opt_ptp(self.ptp_info),
        }
    }
}

impl FlowProperties {
    /// A copy with the same view.
    pub fn duplicate(&self) -> (r: FlowProperties)
        ensures
            r@ == self@,
    {
        FlowProperties {
            ptp_clock: self.ptp_clock,
            ptp_domain: self.ptp_domain,
            auto_restart: self.auto_restart,
            started_at: dup_opt_str(&self.started_at),
            ptp_info: match &self.ptp_info {
                Some(p) => Some(p.duplicate()),
                None => None,
            },
        }
    }
}

/// A block instance within a flow.
pub struct BlockInstance {
    /// The instance's id within the flow.
    pub id: String,
    /// The id of the block's definition (`builtin.…` for built-in blocks).
    pub block_definition_id: String,
    /// The instance's properties.
    pub properties: Properties,
    /// Values that only exist while the flow runs (an SDP, an endpoint id).
    pub runtime_data: Option<StrMap<String>>,
}

/// The mathematical value of a [`BlockInstance`].
pub struct BlockView {
    pub id: Seq<char>,
    pub definition: Seq<char>,
    pub properties: Map<Seq<char>, PropVal>,
    pub runtime_data: Option<Map<Seq<char>, Seq<char>>>,
}

impl View for BlockInstance {
    type V = BlockView;

    open spec fn view(&self) -> BlockView {
        BlockView {
            id: self.id@,
            definition: self.block_definition_id@,
            properties: self.properties@,
            runtime_data: match self.runtime_data {
                Some(m) => Some(m@),
                None => None,
            },
        }
    }
}

impl BlockInstance {
    /// A copy with the same view.
    pub fn duplicate(&self) -> (r: BlockInstance)
        ensures
            r@ == self@,
    {
        BlockInstance {
            id: self.id.clone(),
            block_definition_id: self.block_definition_id.clone(),
            properties: self.properties.duplicate(),
            runtime_data: match &self.runtime_data {
                Some(m) => Some(m.duplicate()),
                None => None,
            },
        }
    }
}

/// A flow: a named graph of block instances with its settings.
pub struct Flow {
    /// The flow's id (the text of its UUID).
    pub id: String,
    /// The flow's name.
    pub name: String,
    /// The pipeline state last recorded for the flow.
    pub state: Option<PipelineState>,
    /// The flow's settings.
    pub properties: FlowProperties,
    /// The flow's block instances.
    pub blocks: Vec<BlockInstance>,
}

/// The mathematical value of a [`Flow`].
pub struct FlowView {
    pub id: Seq<char>,
    pub name: Seq<char>,
    pub state: Option<PipelineState>,
    pub properties: FlowPropsView,
    pub blocks: Seq<BlockView>,
}

/// The views of a list of blocks.
pub open spec fn blocks_view(v: Seq<BlockInstance>) -> Seq<BlockView> {
    v.map_values(|b: BlockInstance| b@)
}

impl View for Flow {
    type V = FlowView;

    open spec fn view(&self) -> FlowView {
        FlowView {
            id: self.id@,
            name: self.name@,
            state: self.state,
            properties: self.properties@,
            blocks: blocks_view(self.blocks@),
        }
    }
}

/// Copies a list of blocks.
pub fn duplicate_blocks(v: &Vec<BlockInstance>) -> (r: Vec<BlockInstance>)
    ensures
        blocks_view(r@) == blocks_view(v@),
{
    let mut r: Vec<BlockInstance> = Vec::new();
    let mut i: usize = 0;
    while i < v.len()
        invariant
            i <= v@.len(),
            r@.len() == i,
            forall|j: int| 0 <= j < i ==> #[trigger] r@[j]@ == v@[j]@,
        decreases v.len() - i,
    {
        r.push(v[i].duplicate());
        i = i + 1;
    }
    assert(blocks_view(r@) =~= blocks_view(v@));
    r
}

impl Flow {
    /// A copy with the same view.
    pub fn duplicate(&self) -> (r: Flow)
        ensures
            r@ == self@,
    {
        Flow {
            id: self.id.clone(),
            name: self.name.clone(),
            state: self.state,
            properties: self.properties.duplicate(),
            blocks: duplicate_blocks(&self.blocks),
        }
    }
}

// ---------------------------------------------------------------------------
// What a running pipeline adds to a flow that is read
// ---------------------------------------------------------------------------

/// What a running pipeline reports about itself.
pub struct PipelineReport {
    /// The pipeline's current state.
    pub state: PipelineState,
    /// The PTP clock's report, where the pipeline has one.
    pub ptp_info: Option<PtpInfo>,
}

/// The mathematical value of a [`PipelineReport`].
pub struct PipelineReportView {
    pub state: PipelineState,
    pub ptp_info: Option<PtpInfoView>,
}

impl View for PipelineReport {
    type V = PipelineReportView;

    open spec fn view(&self) -> PipelineReportView {
        PipelineReportView { state: self.state, ptp_info: opt_ptp(self.ptp_info) }
    }
}

/// The view of an optional report.
pub open spec fn opt_report(o: Option<&PipelineReport>) -> Option<PipelineReportView> {
    match o {
        Some(r) => Some(r@),
        None => None,
    }
}

/// The PTP domain a flow is configured for: its `ptp_domain`, or 0.
pub open spec fn configured_domain(p: FlowPropsView) -> u8 {
    match p.ptp_domain {
        Some(d) => d,
        None => 0,
    }
}

/// A flow's properties with another PTP report.
pub open spec fn props_with_ptp(p: FlowPropsView, ptp: Option<PtpInfoView>) -> FlowPropsView {
    FlowPropsView {
        ptp_clock: p.ptp_clock,
        ptp_domain: p.ptp_domain,
        auto_restart: p.auto_restart,
        started_at: p.started_at,
        ptp_info: ptp,
    }
}

/// A flow as it is read: while its pipeline runs, the pipeline's state,
/// and its PTP report (where it has one) marked as needing a restart when
/// the configured domain differs from the running one; while it does not
/// run, the stored flow without a PTP report.
pub open spec fn with_runtime_spec(f: FlowView, report: Option<PipelineReportView>) -> FlowView {
    match report {
        Some(rep) => FlowView {
            id: f.id,
            name: f.name,
            state: Some(rep.state),
            properties: match rep.ptp_info {
                Some(p) => props_with_ptp(
                    f.properties,
                    Some(
                        PtpInfoView {
                            domain: p.domain,
                            grandmaster_clock_id: p.grandmaster_clock_id,
                            restart_needed: configured_domain(f.properties) != p.domain,
                        },
                    ),
                ),
                None => f.properties,
            },
            blocks: f.blocks,
        },
        None => FlowView {
            id: f.id,
            name: f.name,
            state: f.state,
            properties: props_with_ptp(f.properties, None),
            blocks: f.blocks,
        },
    }
}

/// The flow as it is read (see [`with_runtime_spec`]).
pub fn with_runtime_status(flow: Flow, report: Option<&PipelineReport>) -> (r: Flow)
    ensures
        r@ == with_runtime_spec(flow@, opt_report(report)),
{
    let mut flow = flow;
    match report {
        Some(rep) => {
            flow.state = Some(rep.state);
            match &rep.ptp_info {
                Some(p) => {
                    let configured: u8 = match flow.properties.ptp_domain {
                        Some(d) => d,
                        None => 0,
                    };
                    let mut info = p.duplicate();
                    info.restart_needed = configured != info.domain;
                    flow.properties.ptp_info = Some(info);
                },
                None => {},
            }
        },
        None => {
            flow.properties.ptp_info = None;
        },
    }
    flow
}

/// Reading a flow twice through the same report changes nothing more.
pub proof fn law_runtime_status_idempotent(f: FlowView, report: Option<PipelineReportView>)
    ensures
        with_runtime_spec(with_runtime_spec(f, report), report) == with_runtime_spec(f, report),
{
}

// ---------------------------------------------------------------------------
// PTP monitoring
// ---------------------------------------------------------------------------

/// What the PTP monitor is told about a saved flow.
#[derive(Clone, Copy, Debug, PartialEq, Eq, Structural)]
pub enum PtpAction {
    /// Monitor the given domain for the flow.
    Register(u8),
    /// Stop monitoring for the flow.
    Unregister,
}

/// A PTP-clocked flow is monitored in its configured domain; any other
/// flow is not monitored.
pub open spec fn ptp_action_spec(p: FlowPropsView) -> PtpAction {
    if p.ptp_clock {
        PtpAction::Register(configured_domain(p))
    } else {
        PtpAction::Unregister
    }
}

/// Decides what the PTP monitor is told when a flow is saved.
pub fn ptp_action(props: &FlowProperties) -> (r: PtpAction)
    ensures
        r == ptp_action_spec(props@),
{
    if props.ptp_clock {
        PtpAction::Register(
            match props.ptp_domain {
                Some(d) => d,
                None => 0,
            },
        )
    } else {
        PtpAction::Unregister
    }
}

/// The domain in which a flow loaded from storage is monitored, for a
/// PTP-clocked flow.
pub fn ptp_registration(props: &FlowProperties) -> (r: Option<u8>)
    ensures
        r == (if props@.ptp_clock { Some(configured_domain(props@)) } else { None }),
{
    if props.ptp_clock {
        Some(
            match props.ptp_domain {
                Some(d) => d,
                None => 0,
            },
        )
    } else {
        None
    }
}

// ---------------------------------------------------------------------------
// The store
// ---------------------------------------------------------------------------

/// The mathematical value of a [`FlowStore`]: the flows by id, and the ids
/// of the flows that wait to be written to storage.
pub struct FlowStoreView {
    pub flows: Map<Seq<char>, FlowView>,
    pub pending: Set<Seq<char>>,
}

/// The flows known to the application, and those whose changes are not yet
/// written to storage.
pub struct FlowStore {
    flows: StrMap<Flow>,
    pending: StrMap<bool>,
}

/// Every flow is stored under its own id.
pub open spec fn well_keyed(m: Map<Seq<char>, FlowView>) -> bool {
    forall|k: Seq<char>| #[trigger] m.contains_key(k) ==> m[k].id == k
}

impl View for FlowStore {
    type V = FlowStoreView;

    closed spec fn view(&self) -> FlowStoreView {
        FlowStoreView { flows: self.flows@, pending: self.pending@.dom() }
    }
}

/// The store after `f` is saved in it.
pub open spec fn upsert_spec(s: FlowStoreView, f: FlowView) -> FlowStoreView {
    FlowStoreView { flows: s.flows.insert(f.id, f), pending: s.pending }
}

/// The store after the flow `id` is deleted.
pub open spec fn remove_spec(s: FlowStoreView, id: Seq<char>) -> FlowStoreView {
    FlowStoreView { flows: s.flows.remove(id), pending: s.pending }
}

/// The store after the flow `id` is marked as changed.
pub open spec fn mark_dirty_spec(s: FlowStoreView, id: Seq<char>) -> FlowStoreView {
    FlowStoreView { flows: s.flows, pending: s.pending.insert(id) }
}

/// The flows that a flush writes: those waiting that still exist.
pub open spec fn flush_set(s: FlowStoreView) -> Set<Seq<char>> {
    s.pending.intersect(s.flows.dom())
}

/// The store after a flush took the waiting flows.
pub open spec fn after_flush(s: FlowStoreView) -> FlowStoreView {
    FlowStoreView { flows: s.flows, pending: Set::empty() }
}

/// A flow as loaded at start-up: no pipeline runs yet, so no state.
pub open spec fn reset_state(f: FlowView) -> FlowView {
    FlowView { id: f.id, name: f.name, state: None, properties: f.properties, blocks: f.blocks }
}

/// The flows by id after loading `fs`, each with its state reset.
pub open spec fn loaded_flows(fs: Seq<FlowView>) -> Map<Seq<char>, FlowView>
    decreases fs.len(),
{
    if fs.len() == 0 {
        Map::empty()
    } else {
        loaded_flows(fs.drop_last()).insert(fs.last().id, reset_state(fs.last()))
    }
}

/// The views of a list of flows.
pub open spec fn flows_view(v: Seq<Flow>) -> Seq<FlowView> {
    v.map_values(|f: Flow| f@)
}

impl FlowStore {
    #[verifier::type_invariant]
    closed spec fn inv(self) -> bool {
        well_keyed(self.flows@)
    }

    /// An empty store.
    pub fn new() -> (r: FlowStore)
        ensures
            r@.flows == Map::<Seq<char>, FlowView>::empty(),
            r@.pending == Set::<Seq<char>>::empty(),
            well_keyed(r@.flows),
    {
        let r = FlowStore { flows: StrMap::new(), pending: StrMap::new() };
        assert(r.pending@.dom() =~= Set::<Seq<char>>::empty());
        r
    }

    /// Whether a flow with this id exists.
    pub fn contains(&self, id: &str) -> (r: bool)
        ensures
            r == self@.flows.contains_key(id@),
            well_keyed(self@.flows),
    {
        proof {
            use_type_invariant(&*self);
        }
        self.flows.contains_key(id)
    }

    /// A copy of the stored flow, as saved.
    pub fn stored_flow(&self, id: &str) -> (r: Option<Flow>)
        ensures
            match r {
                Some(f) => self@.flows.contains_key(id@) && f@ == self@.flows[id@],
                None => !self@.flows.contains_key(id@),
            },
            well_keyed(self@.flows),
    {
        proof {
            use_type_invariant(&*self);
        }
        match self.flows.get(id) {
            Some(f) => Some(f.duplicate()),
            None => None,
        }
    }

    /// A flow as it is read, given the report of its pipeline where one
    /// runs (see [`with_runtime_spec`]).
    pub fn get_flow(&self, id: &str, report: Option<&PipelineReport>) -> (r: Option<Flow>)
        ensures
            match r {
                Some(f) => self@.flows.contains_key(id@) && f@ == with_runtime_spec(
                    self@.flows[id@],
                    opt_report(report),
                ),
                None => !self@.flows.contains_key(id@),
            },
            well_keyed(self@.flows),
    {
        proof {
            use_type_invariant(&*self);
        }
        match self.flows.get(id) {
            Some(f) => Some(with_runtime_status(f.duplicate(), report)),
            None => None,
        }
    }

    /// Every flow as it is read, given the reports of the running
    /// pipelines by flow id; one entry per flow.
    pub fn get_flows(&self, reports: &StrMap<PipelineReport>) -> (r: Vec<Flow>)
        ensures
            r@.len() == self@.flows.len(),
            forall|i: int|
                0 <= i < r@.len() ==> self@.flows.contains_key(#[trigger] r@[i]@.id) && r@[i]@
                    == with_runtime_spec(
                    self@.flows[r@[i]@.id],
                    if reports@.contains_key(r@[i]@.id) {
                        Some(reports@[r@[i]@.id])
                    } else {
                        None
                    },
                ),
            forall|k: Seq<char>|
                self@.flows.contains_key(k) ==> exists|i: int| 0 <= i < r@.len() && #[trigger] r@[i]@.id == k,
            well_keyed(self@.flows),
    {
        proof {
            use_type_invariant(&*self);
        }
        let ids = self.flows.keys();
        let mut r: Vec<Flow> = Vec::new();
        let mut i: usize = 0;
        while i < ids.len()
            invariant
                i <= ids@.len(),
                ids@.len() == self@.flows.len(),
                well_keyed(self@.flows),
                forall|j: int| 0 <= j < ids@.len() ==> self@.flows.contains_key(#[trigger] ids@[j]@),
                r@.len() == i,
                forall|j: int| 0 <= j < i ==> #[trigger] r@[j]@.id == ids@[j]@,
                forall|j: int|
                    0 <= j < i ==> #[trigger] r@[j]@ == with_runtime_spec(
                        self@.flows[ids@[j]@],
                        if reports@.contains_key(ids@[j]@) {
                            Some(reports@[ids@[j]@])
                        } else {
                            None
                        },
                    ),
            decreases ids.len() - i,
        {
            let k = ids[i].as_str();
            assert(self@.flows.contains_key(ids@[i as int]@));
            let f = match self.flows.get(k) {
                Some(f) => f.duplicate(),
                None => {
                    assert(false);
                    return r;
                },
            };
            let rep = reports.get(k);
            let g = with_runtime_status(f, rep);
            r.push(g);
            i = i + 1;
        }
        proof {
            assert forall|j: int| 0 <= j < r@.len() implies self@.flows.contains_key(#[trigger] r@[j]@.id)
                && r@[j]@ == with_runtime_spec(
                self@.flows[r@[j]@.id],
                if reports@.contains_key(r@[j]@.id) {
                    Some(reports@[r@[j]@.id])
                } else {
                    None
                },
            ) by {
                assert(r@[j]@.id == ids@[j]@);
            }
            assert forall|k: Seq<char>| self@.flows.contains_key(k) implies exists|j: int|
                0 <= j < r@.len() && #[trigger] r@[j]@.id == k by {
                let j = choose|j: int| 0 <= j < ids@.len() && #[trigger] ids@[j]@ == k;
                assert(r@[j]@.id == k);
            }
        }
        r
    }

    /// Saves a flow under its id in memory; tells whether it is new.
    pub fn upsert_flow(&mut self, flow: Flow) -> (is_new: bool)
        ensures
            is_new == !old(self)@.flows.contains_key(flow@.id),
            final(self)@ == upsert_spec(old(self)@, flow@),
            well_keyed(final(self)@.flows),
    {
        proof {
            use_type_invariant(&*self);
        }
        let is_new = !self.flows.contains_key(flow.id.as_str());
        let key = flow.id.clone();
        let ghost fv = flow@;
        let mut flows: StrMap<Flow> = StrMap::new();
        std::mem::swap(&mut flows, &mut self.flows);
        flows.insert(key, flow);
        assert(well_keyed(flows@)) by {
            assert forall|k: Seq<char>| #[trigger] flows@.contains_key(k) implies flows@[k].id == k by {
                if k != fv.id {
                    assert(old(self)@.flows.contains_key(k));
                }
            }
        }
        self.flows = flows;
        is_new
    }

    /// Deletes a flow from memory; tells whether it existed.
    pub fn delete_flow(&mut self, id: &str) -> (existed: bool)
        ensures
            existed == old(self)@.flows.contains_key(id@),
            final(self)@ == remove_spec(old(self)@, id@),
            well_keyed(final(self)@.flows),
    {
        proof {
            use_type_invariant(&*self);
        }
        let mut flows: StrMap<Flow> = StrMap::new();
        std::mem::swap(&mut flows, &mut self.flows);
        let existed = flows.remove(id);
        assert(well_keyed(flows@)) by {
            assert forall|k: Seq<char>| #[trigger] flows@.contains_key(k) implies flows@[k].id == k by {
                assert(old(self)@.flows.contains_key(k));
            }
        }
        self.flows = flows;
        existed
    }

    /// Replaces the flows by those loaded from storage, each with its state
    /// reset (no pipeline runs after a restart).
    pub fn load_flows(&mut self, loaded: Vec<Flow>)
        ensures
            final(self)@.flows == loaded_flows(flows_view(loaded@)),
            final(self)@.pending == old(self)@.pending,
            well_keyed(final(self)@.flows),
    {
        proof {
            use_type_invariant(&*self);
        }
        let ghost lv = flows_view(loaded@);
        let mut flows: StrMap<Flow> = StrMap::new();
        let mut rest = loaded;
        let ghost mut done: int = 0;
        while rest.len() > 0
            invariant
                0 <= done <= lv.len(),
                flows_view(rest@) == lv.subrange(done, lv.len() as int),
                flows@ == loaded_flows(lv.subrange(0, done)),
                well_keyed(flows@),
            decreases rest.len(),
        {
            let ghost before = rest@;
            let mut f = rest.remove(0);
            proof {
                assert(flows_view(before).len() == before.len());
                assert(flows_view(before)[0] == f@);
                assert(lv.subrange(done, lv.len() as int)[0] == lv[done]);
                assert(lv[done] == f@);
                assert(rest@ =~= before.subrange(1, before.len() as int));
                assert(flows_view(rest@) =~= lv.subrange(done + 1, lv.len() as int)) by {
                    assert forall|x: int| 0 <= x < rest@.len() implies #[trigger] flows_view(rest@)[x]
                        == lv.subrange(done + 1, lv.len() as int)[x] by {
                        assert(flows_view(rest@)[x] == rest@[x]@);
                        assert(rest@[x] == before[x + 1]);
                        assert(flows_view(before)[x + 1] == before[x + 1]@);
                        assert(lv.subrange(done, lv.len() as int)[x + 1] == lv[done + 1 + x]);
                    }
                }
            }
            f.state = None;
            let ghost fv = f@;
            let key = f.id.clone();
            let ghost m0 = flows@;
            flows.insert(key, f);
            proof {
                assert(lv.subrange(0, done + 1).drop_last() =~= lv.subrange(0, done));
                assert(lv.subrange(0, done + 1).last() == lv[done]);
                assert(fv == reset_state(lv[done]));
                assert(flows@ == loaded_flows(lv.subrange(0, done + 1)));
                assert forall|k: Seq<char>| #[trigger] flows@.contains_key(k) implies flows@[k].id == k by {
                    if k != fv.id {
                        assert(m0.contains_key(k));
                    }
                }
                done = done + 1;
            }
        }
        proof {
            assert(lv.subrange(0, done) =~= lv);
        }
        self.flows = flows;
    }

    /// Marks a flow as changed, to be written by the next flush.
    pub fn mark_flow_dirty(&mut self, id: &str)
        ensures
            final(self)@ == mark_dirty_spec(old(self)@, id@),
            well_keyed(final(self)@.flows),
    {
        proof {
            use_type_invariant(&*self);
        }
        let mut pending: StrMap<bool> = StrMap::new();
        std::mem::swap(&mut pending, &mut self.pending);
        pending.insert(string_of(id), true);
        self.pending = pending;
        assert(self@.pending =~= old(self)@.pending.insert(id@));
    }

    /// Takes the flows that wait to be written: the ids of those that
    /// still exist, each once; nothing waits afterwards. A flow whose write
    /// fails is marked again with [`FlowStore::mark_flow_dirty`].
    pub fn take_pending_saves(&mut self) -> (r: Vec<String>)
        ensures
            final(self)@ == after_flush(old(self)@),
            forall|i: int| 0 <= i < r@.len() ==> flush_set(old(self)@).contains(#[trigger] r@[i]@),
            forall|k: Seq<char>|
                flush_set(old(self)@).contains(k) ==> exists|i: int| 0 <= i < r@.len() && #[trigger] r@[i]@ == k,
            forall|i: int, j: int| 0 <= i < j < r@.len() ==> r@[i]@ != r@[j]@,
            well_keyed(final(self)@.flows),
    {
        proof {
            use_type_invariant(&*self);
        }
        let ghost pend = self@.pending;
        let ghost fl = self@.flows;
        let ids = self.pending.keys();
        let mut r: Vec<String> = Vec::new();
        let ghost mut idx: Seq<int> = Seq::empty();
        let mut i: usize = 0;
        while i < ids.len()
            invariant
                i <= ids@.len(),
                fl == self@.flows,
                forall|a: int, b: int| 0 <= a < b < ids@.len() ==> ids@[a]@ != ids@[b]@,
                idx.len() == r@.len(),
                forall|j: int|
                    0 <= j < r@.len() ==> 0 <= #[trigger] idx[j] < i && r@[j]@ == ids@[idx[j]]@ && fl.contains_key(
                        r@[j]@,
                    ),
                forall|j1: int, j2: int| 0 <= j1 < j2 < r@.len() ==> idx[j1] < idx[j2],
                forall|a: int|
                    0 <= a < i && fl.contains_key(#[trigger] ids@[a]@) ==> exists|j: int|
                        0 <= j < r@.len() && #[trigger] idx[j] == a,
            decreases ids.len() - i,
        {
            if self.flows.contains_key(ids[i].as_str()) {
                let ghost idx0 = idx;
                let ghost r0 = r@;
                r.push(ids[i].clone());
                proof {
                    idx = idx.push(i as int);
                    assert forall|a: int|
                        0 <= a < i + 1 && fl.contains_key(#[trigger] ids@[a]@) implies exists|j: int|
                        0 <= j < r@.len() && #[trigger] idx[j] == a by {
                        if a == i {
                            assert(idx[r@.len() - 1] == a);
                        } else {
                            let j = choose|j: int| 0 <= j < r0.len() && #[trigger] idx0[j] == a;
                            assert(idx[j] == a);
                        }
                    }
                    assert forall|j: int| 0 <= j < r@.len() implies 0 <= #[trigger] idx[j] < i + 1 && r@[j]@
                        == ids@[idx[j]]@ && fl.contains_key(r@[j]@) by {
                        if j < r0.len() {
                            assert(r@[j] == r0[j]);
                            assert(idx[j] == idx0[j]);
                        }
                    }
                }
            }
            i = i + 1;
        }
        proof {
            assert forall|a: int, b: int| 0 <= a < b < r@.len() implies r@[a]@ != r@[b]@ by {
                assert(idx[a] < idx[b]);
                assert(0 <= idx[a] && idx[b] < ids@.len());
            }
            assert forall|j: int| 0 <= j < r@.len() implies flush_set(pend_fl(pend, fl)).contains(#[trigger] r@[j]@) by {
                assert(0 <= idx[j] < ids@.len());
                assert(pend.contains(ids@[idx[j]]@));
            }
            assert forall|k: Seq<char>| flush_set(pend_fl(pend, fl)).contains(k) implies exists|j: int|
                0 <= j < r@.len() && #[trigger] r@[j]@ == k by {
                let a = choose|a: int| 0 <= a < ids@.len() && #[trigger] ids@[a]@ == k;
                assert(fl.contains_key(ids@[a]@));
                let j = choose|j: int| 0 <= j < r@.len() && #[trigger] idx[j] == a;
                assert(r@[j]@ == k);
            }
        }
        let mut pending: StrMap<bool> = StrMap::new();
        std::mem::swap(&mut pending, &mut self.pending);
        assert(self@.pending =~= Set::<Seq<char>>::empty());
        r
    }
}

/// A store view from its parts.
pub open spec fn pend_fl(pending: Set<Seq<char>>, flows: Map<Seq<char>, FlowView>) -> FlowStoreView {
    FlowStoreView { flows, pending }
}

// ---------------------------------------------------------------------------
// Changes made on a running pipeline, written back into the flow
// ---------------------------------------------------------------------------

/// The index of the first block from `k` on whose id is `id`.
pub open spec fn first_block_from(bs: Seq<BlockView>, id: Seq<char>, k: int) -> Option<int>
    decreases bs.len() - k,
{
    if k < 0 || k >= bs.len() {
        None
    } else if bs[k].id == id {
        Some(k)
    } else {
        first_block_from(bs, id, k + 1)
    }
}

/// A block with one property set.
pub open spec fn block_with_prop(b: BlockView, key: Seq<char>, val: PropVal) -> BlockView {
    BlockView { id: b.id, definition: b.definition, properties: b.properties.insert(key, val), runtime_data: b.runtime_data }
}

/// A flow whose first block with id `block_id` has the property `key`
/// set to `val`; unchanged where it has no such block.
pub open spec fn set_block_prop(f: FlowView, block_id: Seq<char>, key: Seq<char>, val: PropVal) -> FlowView {
    match first_block_from(f.blocks, block_id, 0) {
        Some(i) => FlowView {
            id: f.id,
            name: f.name,
            state: f.state,
            properties: f.properties,
            blocks: f.blocks.update(i, block_with_prop(f.blocks[i], key, val)),
        },
        None => f,
    }
}

/// The store with a block property of a flow set (see [`set_block_prop`]);
/// unchanged where the flow does not exist.
pub open spec fn set_prop_spec(
    s: FlowStoreView,
    flow_id: Seq<char>,
    block_id: Seq<char>,
    key: Seq<char>,
    val: PropVal,
) -> FlowStoreView {
    if s.flows.contains_key(flow_id) {
        FlowStoreView {
            flows: s.flows.insert(flow_id, set_block_prop(s.flows[flow_id], block_id, key, val)),
            pending: s.pending,
        }
    } else {
        s
    }
}

/// The index of the first block whose id is `id`.
fn find_block(blocks: &Vec<BlockInstance>, id: &str) -> (r: Option<usize>)
    ensures
        match r {
            Some(i) => first_block_from(blocks_view(blocks@), id@, 0) == Some(i as int) && i < blocks@.len(),
            None => first_block_from(blocks_view(blocks@), id@, 0) is None,
        },
{
    let ghost bv = blocks_view(blocks@);
    let mut i: usize = 0;
    while i < blocks.len()
        invariant
            i <= blocks@.len(),
            bv == blocks_view(blocks@),
            first_block_from(bv, id@, 0) == first_block_from(bv, id@, i as int),
        decreases blocks.len() - i,
    {
        if str_eq(blocks[i].id.as_str(), id) {
            assert(bv[i as int].id == id@);
            return Some(i);
        }
        assert(bv[i as int].id != id@);
        i = i + 1;
    }
    None
}

/// Sets a property of the first block with id `block_id` (see
/// [`set_block_prop`]).
pub fn set_first_block_property(flow: &mut Flow, block_id: &str, key: String, value: PropertyValue)
    ensures
        final(flow)@ == set_block_prop(old(flow)@, block_id@, key@, value@),
{
    match find_block(&flow.blocks, block_id) {
        Some(i) => {
            let mut b = flow.blocks[i].duplicate();
            b.properties.insert(key, value);
            let ghost bv = b@;
            flow.blocks.set(i, b);
            assert(blocks_view(flow.blocks@) =~= blocks_view(old(flow).blocks@).update(i as int, bv));
        },
        None => {},
    }
}

/// The key of a per-input property of a block: `input_{index}_{name}`.
pub open spec fn input_key(index: nat, name: Seq<char>) -> Seq<char> {
    "input_"@ + decimal(index) + "_"@ + name
}

/// The block a pipeline element belongs to: the part of its id before the
/// first `:` (`b0:mixer` belongs to `b0`).
pub open spec fn owning_block(element_id: Seq<char>) -> Seq<char> {
    before_first(element_id, ':')
}

/// The store after a transition: the input it leaves has alpha 0.0 and
/// the input it goes to has alpha 1.0, and the flow waits to be written.
pub open spec fn transition_spec(s: FlowStoreView, flow_id: Seq<char>, element_id: Seq<char>, from: nat, to: nat) -> FlowStoreView {
    let b = owning_block(element_id);
    mark_dirty_spec(
        set_prop_spec(
            set_prop_spec(s, flow_id, b, input_key(from, "alpha"@), PropVal::Float(FLOAT_ZERO_BITS)),
            flow_id,
            b,
            input_key(to, "alpha"@),
            PropVal::Float(FLOAT_ONE_BITS),
        ),
        flow_id,
    )
}

/// The store after an integer per-input property was set, if a target was
/// given.
pub open spec fn set_opt_int_spec(
    s: FlowStoreView,
    flow_id: Seq<char>,
    block_id: Seq<char>,
    key: Seq<char>,
    target: Option<i32>,
) -> FlowStoreView {
    match target {
        Some(v) => set_prop_spec(s, flow_id, block_id, key, PropVal::Int(v as i64)),
        None => s,
    }
}

/// The store after an input was animated: the targets given become the
/// input's position and size, and the flow waits to be written.
pub open spec fn animation_spec(
    s: FlowStoreView,
    flow_id: Seq<char>,
    element_id: Seq<char>,
    input: nat,
    x: Option<i32>,
    y: Option<i32>,
    w: Option<i32>,
    h: Option<i32>,
) -> FlowStoreView {
    let b = owning_block(element_id);
    let s1 = set_opt_int_spec(s, flow_id, b, input_key(input, "xpos"@), x);
    let s2 = set_opt_int_spec(s1, flow_id, b, input_key(input, "ypos"@), y);
    let s3 = set_opt_int_spec(s2, flow_id, b, input_key(input, "width"@), w);
    let s4 = set_opt_int_spec(s3, flow_id, b, input_key(input, "height"@), h);
    mark_dirty_spec(s4, flow_id)
}

/// The input index of a pad named `sink_{N}`.
pub open spec fn pad_input_index(pad: Seq<char>) -> Option<usize> {
    if has_prefix(pad, "sink_"@) {
        parse_usize_spec(pad.subrange(5, pad.len() as int))
    } else {
        None
    }
}

/// The store after a pad property changed: for a pad `sink_{N}`, the
/// block's `input_{N}_{property}` (with `-` written `_`) takes the value
/// and the flow waits to be written; other pads change nothing.
pub open spec fn pad_property_spec(
    s: FlowStoreView,
    flow_id: Seq<char>,
    element_id: Seq<char>,
    pad: Seq<char>,
    property: Seq<char>,
    val: PropVal,
) -> FlowStoreView {
    match pad_input_index(pad) {
        Some(n) => mark_dirty_spec(
            set_prop_spec(s, flow_id, owning_block(element_id), input_key(n as nat, replace_all(property, '-', '_')), val),
            flow_id,
        ),
        None => s,
    }
}

/// `input_{index}_{name}`.
fn input_key_string(index: usize, name: &str) -> (r: String)
    ensures
        r@ == input_key(index as nat, name@),
{
    indexed("input_", index, concat2("_", name).as_str())
}

impl FlowStore {
    /// Sets a block property of a stored flow (see [`set_prop_spec`]).
    fn set_block_property(&mut self, flow_id: &str, block_id: &str, key: String, value: PropertyValue)
        ensures
            final(self)@ == set_prop_spec(old(self)@, flow_id@, block_id@, key@, value@),
    {
        proof {
            use_type_invariant(&*self);
        }
        match self.stored_flow(flow_id) {
            Some(f) => {
                let mut f = f;
                assert(f@.id == flow_id@);
                set_first_block_property(&mut f, block_id, key, value);
                let _ = self.upsert_flow(f);
            },
            None => {},
        }
    }

    /// Writes a transition back into the flow: the input left gets alpha
    /// 0.0, the input entered alpha 1.0 (see [`transition_spec`]).
    pub fn sync_transition(&mut self, flow_id: &str, element_id: &str, from_input: usize, to_input: usize)
        ensures
            final(self)@ == transition_spec(old(self)@, flow_id@, element_id@, from_input as nat, to_input as nat),
            well_keyed(final(self)@.flows),
    {
        proof {
            use_type_invariant(&*self);
        }
        let block_id = prefix_before(element_id, ':');
        proof {
            reveal_strlit("alpha");
        }
        self.set_block_property(
            flow_id,
            block_id.as_str(),
            input_key_string(from_input, "alpha"),
            PropertyValue::Float(FLOAT_ZERO_BITS),
        );
        self.set_block_property(
            flow_id,
            block_id.as_str(),
            input_key_string(to_input, "alpha"),
            PropertyValue::Float(FLOAT_ONE_BITS),
        );
        self.mark_flow_dirty(flow_id);
    }

    /// Sets an integer per-input property if a target is given.
    fn set_opt_int(&mut self, flow_id: &str, block_id: &str, key: String, target: Option<i32>)
        ensures
            final(self)@ == set_opt_int_spec(old(self)@, flow_id@, block_id@, key@, target),
    {
        match target {
            Some(v) => self.set_block_property(flow_id, block_id, key, PropertyValue::Int(v as i64)),
            None => {},
        }
    }

    /// Writes an animation's targets back into the flow (see
    /// [`animation_spec`]).
    pub fn sync_animation(
        &mut self,
        flow_id: &str,
        element_id: &str,
        input_index: usize,
        x: Option<i32>,
        y: Option<i32>,
        width: Option<i32>,
        height: Option<i32>,
    )
        ensures
            final(self)@ == animation_spec(old(self)@, flow_id@, element_id@, input_index as nat, x, y, width, height),
            well_keyed(final(self)@.flows),
    {
        proof {
            use_type_invariant(&*self);
        }
        let block_id = prefix_before(element_id, ':');
        let b = block_id.as_str();
        self.set_opt_int(flow_id, b, input_key_string(input_index, "xpos"), x);
        self.set_opt_int(flow_id, b, input_key_string(input_index, "ypos"), y);
        self.set_opt_int(flow_id, b, input_key_string(input_index, "width"), width);
        self.set_opt_int(flow_id, b, input_key_string(input_index, "height"), height);
        self.mark_flow_dirty(flow_id);
    }

    /// Writes a pad property change back into the flow (see
    /// [`pad_property_spec`]); tells whether the pad was an input pad.
    pub fn sync_pad_property(
        &mut self,
        flow_id: &str,
        element_id: &str,
        pad_name: &str,
        property_name: &str,
        value: PropertyValue,
    ) -> (r: bool)
        ensures
            r == pad_input_index(pad_name@) is Some,
            final(self)@ == pad_property_spec(old(self)@, flow_id@, element_id@, pad_name@, property_name@, value@),
            well_keyed(final(self)@.flows),
    {
        proof {
            use_type_invariant(&*self);
        }
        proof {
            reveal_strlit("sink_");
        }
        let index = match strip_prefix(pad_name, "sink_") {
            Some(rest) => parse_usize(rest.as_str()),
            None => None,
        };
        match index {
            Some(n) => {
                let block_id = prefix_before(element_id, ':');
                let normalized = replace_char(property_name, '-', '_');
                let key = input_key_string(n, normalized.as_str());
                self.set_block_property(flow_id, block_id.as_str(), key, value);
                self.mark_flow_dirty(flow_id);
                true
            },
            None => false,
        }
    }
}

/// After a transition is written back, the input entered has alpha 1.0,
/// and the input left, when it is another one, has alpha 0.0.
pub proof fn law_transition_alphas(s: FlowStoreView, flow_id: Seq<char>, element_id: Seq<char>, from: nat, to: nat)
    requires
        s.flows.contains_key(flow_id),
        first_block_from(s.flows[flow_id].blocks, owning_block(element_id), 0) is Some,
    ensures
        ({
            let t = transition_spec(s, flow_id, element_id, from, to);
            let f = t.flows[flow_id];
            let i = first_block_from(f.blocks, owning_block(element_id), 0)->0;
            &&& t.pending.contains(flow_id)
            &&& first_block_from(f.blocks, owning_block(element_id), 0) is Some
            &&& f.blocks[i].properties[input_key(to, "alpha"@)] == PropVal::Float(FLOAT_ONE_BITS)
            &&& from != to ==> f.blocks[i].properties[input_key(from, "alpha"@)] == PropVal::Float(FLOAT_ZERO_BITS)
        }),
{
    let b = owning_block(element_id);
    let f0 = s.flows[flow_id];
    let i = first_block_from(f0.blocks, b, 0)->0;
    lemma_first_block_found(f0.blocks, b, 0);
    let f1 = set_block_prop(f0, b, input_key(from, "alpha"@), PropVal::Float(FLOAT_ZERO_BITS));
    lemma_set_block_prop_keeps_index(f0, b, input_key(from, "alpha"@), PropVal::Float(FLOAT_ZERO_BITS));
    let f2 = set_block_prop(f1, b, input_key(to, "alpha"@), PropVal::Float(FLOAT_ONE_BITS));
    lemma_set_block_prop_keeps_index(f1, b, input_key(to, "alpha"@), PropVal::Float(FLOAT_ONE_BITS));
    if from != to {
        lemma_input_key_injective(from, to, "alpha"@);
    }
}

/// Setting a property of a found block of a stored flow changes only that
/// block's property map, by one insertion, and keeps which block is found.
proof fn lemma_set_prop_at(s: FlowStoreView, flow_id: Seq<char>, b: Seq<char>, key: Seq<char>, val: PropVal)
    requires
        s.flows.contains_key(flow_id),
        first_block_from(s.flows[flow_id].blocks, b, 0) is Some,
    ensures
        ({
            let t = set_prop_spec(s, flow_id, b, key, val);
            let i = first_block_from(s.flows[flow_id].blocks, b, 0)->0;
            &&& t.flows.contains_key(flow_id)
            &&& t.pending == s.pending
            &&& first_block_from(t.flows[flow_id].blocks, b, 0) == Some(i)
            &&& 0 <= i < t.flows[flow_id].blocks.len()
            &&& t.flows[flow_id].blocks[i].properties == s.flows[flow_id].blocks[i].properties.insert(key, val)
        }),
{
    let f0 = s.flows[flow_id];
    lemma_first_block_found(f0.blocks, b, 0);
    lemma_set_block_prop_keeps_index(f0, b, key, val);
}

/// Like [`lemma_set_prop_at`], for a target that may be absent.
proof fn lemma_set_opt_int_at(s: FlowStoreView, flow_id: Seq<char>, b: Seq<char>, key: Seq<char>, target: Option<i32>)
    requires
        s.flows.contains_key(flow_id),
        first_block_from(s.flows[flow_id].blocks, b, 0) is Some,
    ensures
        ({
            let t = set_opt_int_spec(s, flow_id, b, key, target);
            let i = first_block_from(s.flows[flow_id].blocks, b, 0)->0;
            &&& t.flows.contains_key(flow_id)
            &&& t.pending == s.pending
            &&& first_block_from(t.flows[flow_id].blocks, b, 0) == Some(i)
            &&& 0 <= i < t.flows[flow_id].blocks.len()
            &&& t.flows[flow_id].blocks[i].properties == match target {
                Some(v) => s.flows[flow_id].blocks[i].properties.insert(key, PropVal::Int(v as i64)),
                None => s.flows[flow_id].blocks[i].properties,
            }
        }),
{
    lemma_first_block_found(s.flows[flow_id].blocks, b, 0);
    if let Some(v) = target {
        lemma_set_prop_at(s, flow_id, b, key, PropVal::Int(v as i64));
    }
}

/// A property map after an optional integer target: the key holds the
/// target when one is given, and keeps its old entry otherwise.
pub open spec fn holds_target(p: Map<Seq<char>, PropVal>, p0: Map<Seq<char>, PropVal>, key: Seq<char>, target: Option<i32>) -> bool {
    match target {
        Some(v) => p.contains_key(key) && p[key] == PropVal::Int(v as i64),
        None => p.contains_key(key) == p0.contains_key(key) && p[key] == p0[key],
    }
}

/// After an animation of input `n` is written back, the owning block's
/// `input_{n}_xpos`, `input_{n}_ypos`, `input_{n}_width` and
/// `input_{n}_height` each hold their own target where one is given and
/// are untouched where none is; every other property of the block is
/// untouched, and the flow waits to be written.
pub proof fn law_animation_targets(
    s: FlowStoreView,
    flow_id: Seq<char>,
    element_id: Seq<char>,
    n: nat,
    x: Option<i32>,
    y: Option<i32>,
    w: Option<i32>,
    h: Option<i32>,
)
    requires
        s.flows.contains_key(flow_id),
        first_block_from(s.flows[flow_id].blocks, owning_block(element_id), 0) is Some,
    ensures
        ({
            let b = owning_block(element_id);
            let t = animation_spec(s, flow_id, element_id, n, x, y, w, h);
            let i = first_block_from(s.flows[flow_id].blocks, b, 0)->0;
            let p0 = s.flows[flow_id].blocks[i].properties;
            let p = t.flows[flow_id].blocks[i].properties;
            let kx = "input_"@ + decimal(n) + "_xpos"@;
            let ky = "input_"@ + decimal(n) + "_ypos"@;
            let kw = "input_"@ + decimal(n) + "_width"@;
            let kh = "input_"@ + decimal(n) + "_height"@;
            &&& t.pending.contains(flow_id)
            &&& t.flows.contains_key(flow_id)
            &&& first_block_from(t.flows[flow_id].blocks, b, 0) == Some(i)
            &&& holds_target(p, p0, kx, x)
            &&& holds_target(p, p0, ky, y)
            &&& holds_target(p, p0, kw, w)
            &&& holds_target(p, p0, kh, h)
            &&& forall|k: Seq<char>|
                k != kx && k != ky && k != kw && k != kh ==> p.contains_key(k) == p0.contains_key(k) && p[k] == p0[k]
        }),
{
    let b = owning_block(element_id);
    reveal_strlit("_");
    reveal_strlit("xpos");
    reveal_strlit("ypos");
    reveal_strlit("width");
    reveal_strlit("height");
    reveal_strlit("_xpos");
    reveal_strlit("_ypos");
    reveal_strlit("_width");
    reveal_strlit("_height");
    let pre = "input_"@ + decimal(n);
    let kx = pre + "_xpos"@;
    let ky = pre + "_ypos"@;
    let kw = pre + "_width"@;
    let kh = pre + "_height"@;
    assert(input_key(n, "xpos"@) =~= kx);
    assert(input_key(n, "ypos"@) =~= ky);
    assert(input_key(n, "width"@) =~= kw);
    assert(input_key(n, "height"@) =~= kh);
    // The four keys differ after their common prefix.
    let l = pre.len() as int;
    assert(kx[l + 1] == 'x' && ky[l + 1] == 'y' && kw[l + 1] == 'w' && kh[l + 1] == 'h');
    assert(kx != ky && kx != kw && kx != kh && ky != kw && ky != kh && kw != kh);
    let s1 = set_opt_int_spec(s, flow_id, b, kx, x);
    lemma_set_opt_int_at(s, flow_id, b, kx, x);
    let s2 = set_opt_int_spec(s1, flow_id, b, ky, y);
    lemma_set_opt_int_at(s1, flow_id, b, ky, y);
    let s3 = set_opt_int_spec(s2, flow_id, b, kw, w);
    lemma_set_opt_int_at(s2, flow_id, b, kw, w);
    let s4 = set_opt_int_spec(s3, flow_id, b, kh, h);
    lemma_set_opt_int_at(s3, flow_id, b, kh, h);
    assert(animation_spec(s, flow_id, element_id, n, x, y, w, h) == mark_dirty_spec(s4, flow_id));
}

/// A property change on the compositor pad `sink_{n}` is written to the
/// owning block as `input_{n}_{property}`, with each `-` of the property
/// name written `_`, and the flow waits to be written; every other
/// property of the block is untouched. A change on a pad not named
/// `sink_...` changes nothing.
pub proof fn law_pad_property_target(
    s: FlowStoreView,
    flow_id: Seq<char>,
    element_id: Seq<char>,
    n: nat,
    pad: Seq<char>,
    property: Seq<char>,
    val: PropVal,
)
    requires
        n <= usize::MAX,
        s.flows.contains_key(flow_id),
        first_block_from(s.flows[flow_id].blocks, owning_block(element_id), 0) is Some,
    ensures
        ({
            let b = owning_block(element_id);
            let t = pad_property_spec(s, flow_id, element_id, "sink_"@ + decimal(n), property, val);
            let i = first_block_from(s.flows[flow_id].blocks, b, 0)->0;
            let p0 = s.flows[flow_id].blocks[i].properties;
            let p = t.flows[flow_id].blocks[i].properties;
            let key = "input_"@ + decimal(n) + "_"@ + Seq::new(
                property.len(),
                |k: int| if property[k] == '-' { '_' } else { property[k] },
            );
            &&& t.pending.contains(flow_id)
            &&& first_block_from(t.flows[flow_id].blocks, b, 0) == Some(i)
            &&& p.contains_key(key) && p[key] == val
            &&& forall|k: Seq<char>| k != key ==> p.contains_key(k) == p0.contains_key(k) && p[k] == p0[k]
        }),
        pad.len() < 5 || pad.subrange(0, 5) != "sink_"@ ==> pad_property_spec(s, flow_id, element_id, pad, property, val)
            == s,
{
    reveal_strlit("sink_");
    let pad_n = "sink_"@ + decimal(n);
    crate::text::lemma_parse_decimal(n);
    assert(pad_n.subrange(0, 5) =~= "sink_"@);
    assert(pad_n.subrange(5, pad_n.len() as int) =~= decimal(n));
    assert(pad_input_index(pad_n) == Some(n as usize));
    let key = input_key(n, replace_all(property, '-', '_'));
    assert(key =~= "input_"@ + decimal(n) + "_"@ + Seq::new(
        property.len(),
        |k: int| if property[k] == '-' { '_' } else { property[k] },
    ));
    lemma_set_prop_at(s, flow_id, owning_block(element_id), key, val);
}

/// An integer setting of an AES67 output block (sample rate or channel
/// count) is read from an integer property, converted to `i32`, or from a
/// string property holding the number in decimal, as enum properties
/// arrive: both `sample_rate` and `channels` are read this way.
pub proof fn law_aes67_numeric_settings(props: Map<Seq<char>, PropVal>, flow_name: Seq<char>, n: nat, i: i64)
    requires
        n <= i32::MAX,
    ensures
        ({
            let r = aes67_settings_spec(props, flow_name);
            &&& (props.contains_key("channels"@) && props["channels"@] == PropVal::Str(decimal(n))) ==> r.1 == Some(
                n as i32,
            )
            &&& (props.contains_key("channels"@) && props["channels"@] == PropVal::Int(i)) ==> r.1 == Some(i as i32)
            &&& !props.contains_key("channels"@) ==> r.1 is None
            &&& (props.contains_key("sample_rate"@) && props["sample_rate"@] == PropVal::Str(decimal(n))) ==> r.0
                == Some(n as i32)
            &&& (props.contains_key("sample_rate"@) && props["sample_rate"@] == PropVal::Int(i)) ==> r.0 == Some(
                i as i32,
            )
            &&& !props.contains_key("sample_rate"@) ==> r.0 is None
        }),
{
    lemma_parse_i32_decimal(n);
}

/// The other settings of an AES67 output block: the multicast host is the
/// `host` string, else `239.69.1.1`; the interface is a non-empty
/// `interface` string, else none; RAVENNA extensions are on exactly for a
/// `true` boolean; the session name is the `session_name` string when it
/// starts with a visible character, and the flow's name when it is empty or
/// missing.
pub proof fn law_aes67_text_settings(props: Map<Seq<char>, PropVal>, flow_name: Seq<char>)
    ensures
        ({
            let r = aes67_settings_spec(props, flow_name);
            &&& (props.contains_key("host"@) && props["host"@] is Str) ==> r.2 == props["host"@]->Str_0
            &&& !props.contains_key("host"@) ==> r.2 == "239.69.1.1"@
            &&& (props.contains_key("interface"@) && props["interface"@] is Str && props["interface"@]->Str_0.len() > 0)
                ==> r.3 == Some(props["interface"@]->Str_0)
            &&& (props.contains_key("interface"@) && props["interface"@] == PropVal::Str(Seq::empty())) ==> r.3 is None
            &&& !props.contains_key("interface"@) ==> r.3 is None
            &&& r.4 == (props.contains_key("ravenna_extensions"@) && props["ravenna_extensions"@] == PropVal::Bool(true))
            &&& (props.contains_key("session_name"@) && props["session_name"@] is Str && props["session_name"@]->Str_0.len()
                > 0 && !crate::text::is_white_space(props["session_name"@]->Str_0[0])) ==> r.5
                == props["session_name"@]->Str_0
            &&& (props.contains_key("session_name"@) && props["session_name"@] == PropVal::Str(Seq::empty())) ==> r.5
                == flow_name
            &&& !props.contains_key("session_name"@) ==> r.5 == flow_name
        }),
{
    if props.contains_key("session_name"@) && props["session_name"@] is Str {
        let n = props["session_name"@]->Str_0;
        if n.len() > 0 && !crate::text::is_white_space(n[0]) {
            lemma_trailing_end_past(n, n.len() as int, 0);
            assert(crate::text::leading_space(n, 0) == 0);
            let hi = crate::text::trailing_end(n, n.len() as int);
            assert(0 < hi <= n.len()) by {
                lemma_trailing_end_bound(n, n.len() as int);
            }
            assert(crate::text::trimmed(n) == n.subrange(0, hi));
            assert(crate::text::trimmed(n).len() > 0);
        }
        if n.len() == 0 {
            assert(crate::text::trimmed(n).len() == 0);
        }
    }
}

/// The trimmed end never passes `j`.
proof fn lemma_trailing_end_bound(s: Seq<char>, j: int)
    requires
        0 <= j <= s.len(),
    ensures
        crate::text::trailing_end(s, j) <= j,
    decreases j,
{
    if j > 0 && crate::text::is_white_space(s[j - 1]) {
        lemma_trailing_end_bound(s, j - 1);
    }
}

/// A visible character before `j` keeps the trimmed end past it.
proof fn lemma_trailing_end_past(s: Seq<char>, j: int, k: int)
    requires
        0 <= k < j <= s.len(),
        !crate::text::is_white_space(s[k]),
    ensures
        crate::text::trailing_end(s, j) > k,
    decreases j,
{
    if crate::text::is_white_space(s[j - 1]) {
        lemma_trailing_end_past(s, j - 1, k);
    }
}

/// A decimal numeral within `i32` parses back to its number.
proof fn lemma_parse_i32_decimal(n: nat)
    requires
        n <= i32::MAX,
    ensures
        parse_i32_spec(decimal(n)) == Some(n as i32),
{
    let d = decimal(n);
    crate::text::lemma_decimal_digits(n);
    assert(crate::text::is_digit(d[0]));
    assert(d[0] != '+' && d[0] != '-');
}

/// The first block found from `k` lies at or after `k`, has the id sought,
/// and no block between does.
pub proof fn lemma_first_block_found(bs: Seq<BlockView>, id: Seq<char>, k: int)
    requires
        0 <= k,
    ensures
        match first_block_from(bs, id, k) {
            Some(i) => k <= i < bs.len() && bs[i].id == id && forall|j: int| k <= j < i ==> bs[j].id != id,
            None => forall|j: int| k <= j < bs.len() ==> bs[j].id != id,
        },
    decreases bs.len() - k,
{
    if k < bs.len() && bs[k].id != id {
        lemma_first_block_found(bs, id, k + 1);
    }
}

/// Setting a block property keeps which block is the first with that id.
pub proof fn lemma_set_block_prop_keeps_index(f: FlowView, block_id: Seq<char>, key: Seq<char>, val: PropVal)
    ensures
        first_block_from(set_block_prop(f, block_id, key, val).blocks, block_id, 0) == first_block_from(
            f.blocks,
            block_id,
            0,
        ),
{
    lemma_first_block_found(f.blocks, block_id, 0);
    let g = set_block_prop(f, block_id, key, val);
    lemma_first_block_found(g.blocks, block_id, 0);
    match first_block_from(f.blocks, block_id, 0) {
        Some(i) => {
            assert(g.blocks[i].id == block_id);
            match first_block_from(g.blocks, block_id, 0) {
                Some(j) => {
                    if j < i {
                        assert(g.blocks[j] == f.blocks[j]);
                    }
                    if i < j {
                        assert(g.blocks[i].id == block_id);
                    }
                },
                None => {
                    assert(g.blocks[i].id == block_id);
                },
            }
        },
        None => {},
    }
}

/// Different inputs have different property keys.
pub proof fn lemma_input_key_injective(a: nat, b: nat, name: Seq<char>)
    requires
        a != b,
    ensures
        input_key(a, name) != input_key(b, name),
{
    crate::text::lemma_decimal_digits(a);
    crate::text::lemma_decimal_digits(b);
    let ka = input_key(a, name);
    let kb = input_key(b, name);
    let da = decimal(a);
    let db = decimal(b);
    let rest = "_"@ + name;
    reveal_strlit("input_");
    reveal_strlit("_");
    if ka == kb {
        assert(ka =~= "input_"@ + (da + rest));
        assert(kb =~= "input_"@ + (db + rest));
        assert(ka.subrange(6, ka.len() as int) =~= da + rest);
        assert(kb.subrange(6, kb.len() as int) =~= db + rest);
        assert(rest[0] == '_');
        lemma_digits_then_separator(da, db, rest);
    }
}

/// Two digit strings followed by the same text that starts with a
/// non-digit are equal when the results are.
proof fn lemma_digits_then_separator(da: Seq<char>, db: Seq<char>, rest: Seq<char>)
    requires
        crate::text::all_digits(da),
        crate::text::all_digits(db),
        rest.len() > 0,
        !crate::text::is_digit(rest[0]),
        da + rest == db + rest,
    ensures
        da == db,
{
    if da.len() < db.len() {
        assert((da + rest)[da.len() as int] == rest[0]);
        assert((db + rest)[da.len() as int] == db[da.len() as int]);
        assert(crate::text::is_digit(db[da.len() as int]));
    } else if db.len() < da.len() {
        assert((db + rest)[db.len() as int] == rest[0]);
        assert((da + rest)[db.len() as int] == da[db.len() as int]);
        assert(crate::text::is_digit(da[db.len() as int]));
    } else {
        assert((da + rest).subrange(0, da.len() as int) =~= da);
        assert((db + rest).subrange(0, db.len() as int) =~= db);
    }
}

// ---------------------------------------------------------------------------
// Starting and stopping
// ---------------------------------------------------------------------------

/// Why a flow operation was refused.
#[derive(Debug)]
pub enum FlowError {
    /// The flow named does not exist, or its pipeline does not run.
    InvalidFlow(String),
}

/// The message of the error for an operation on a flow whose pipeline
/// does not run.
pub open spec fn not_running_message(id: Seq<char>) -> Seq<char> {
    "Pipeline not running for flow: "@ + id
}

/// Refuses an operation on a running pipeline (a property change, a
/// transition, a meter reset, a thumbnail) when the flow's pipeline does not
/// run.
pub fn require_running(flow_id: &str, running: bool) -> (r: Result<(), FlowError>)
    ensures
        running ==> r is Ok,
        !running ==> (r matches Err(FlowError::InvalidFlow(m)) && m@ == not_running_message(flow_id@)),
{
    if running {
        Ok(())
    } else {
        Err(FlowError::InvalidFlow(concat2("Pipeline not running for flow: ", flow_id)))
    }
}

/// What starting a flow has to do.
pub enum StartPlan {
    /// The pipeline runs already; the flow is reported as playing.
    AlreadyRunning,
    /// Build and start a pipeline for this copy of the flow.
    Start(Flow),
}

impl StartPlan {
    /// What a start request answers without building anything: `Playing`
    /// when the pipeline runs already; `None` when a pipeline is to be
    /// started.
    pub fn reported_state(&self) -> (r: Option<PipelineState>)
        ensures
            r == (match *self {
                StartPlan::AlreadyRunning => Some(PipelineState::Playing),
                StartPlan::Start(_) => None,
            }),
    {
        match self {
            StartPlan::AlreadyRunning => Some(PipelineState::Playing),
            StartPlan::Start(_) => None,
        }
    }
}

/// What a stop request answers without stopping anything: `Null` when no
/// pipeline runs for the flow (nothing is recorded then); `None` when a
/// pipeline is to be stopped.
pub fn plan_stop(running: bool) -> (r: Option<PipelineState>)
    ensures
        r == (if running { None } else { Some(PipelineState::Null) }),
{
    if running {
        None
    } else {
        Some(PipelineState::Null)
    }
}

/// The message of the error for an unknown flow.
pub open spec fn not_found_message(id: Seq<char>) -> Seq<char> {
    "Flow not found: "@ + id
}

/// A flow as recorded once its pipeline started in `state` at `started_at`:
/// it restarts automatically from now on.
pub open spec fn started_spec(f: FlowView, state: PipelineState, started_at: Seq<char>) -> FlowView {
    FlowView {
        id: f.id,
        name: f.name,
        state: Some(state),
        properties: FlowPropsView {
            ptp_clock: f.properties.ptp_clock,
            ptp_domain: f.properties.ptp_domain,
            auto_restart: true,
            started_at: Some(started_at),
            ptp_info: f.properties.ptp_info,
        },
        blocks: f.blocks,
    }
}

/// A block without its runtime data.
pub open spec fn without_runtime(b: BlockView) -> BlockView {
    BlockView { id: b.id, definition: b.definition, properties: b.properties, runtime_data: None }
}

/// A flow as recorded once its pipeline stopped in `state`: no runtime
/// data on any block, no start time, and no automatic restart.
pub open spec fn stopped_spec(f: FlowView, state: PipelineState) -> FlowView {
    FlowView {
        id: f.id,
        name: f.name,
        state: Some(state),
        properties: FlowPropsView {
            ptp_clock: f.properties.ptp_clock,
            ptp_domain: f.properties.ptp_domain,
            auto_restart: false,
            started_at: None,
            ptp_info: f.properties.ptp_info,
        },
        blocks: f.blocks.map_values(|b: BlockView| without_runtime(b)),
    }
}

/// `s[from..to]` are all ASCII decimal digits.
pub open spec fn digits_between(s: Seq<char>, from: int, to: int) -> bool {
    forall|i: int| from <= i < to ==> crate::text::is_digit(#[trigger] s[i])
}

/// The date and time text that `DateTime::to_rfc3339` writes, with a year
/// part `y` characters long and a fraction part `f` characters long:
/// the year (four digits, or a sign and at least four digits for a year
/// outside 0000-9999), `-MM-DD`, `T`, `hh:mm:ss`, an optional fraction of
/// a second (`.` and 3, 6 or 9 digits) and the offset `+hh:mm` or
/// `-hh:mm`.
pub open spec fn rfc3339_layout(s: Seq<char>, y: int, f: int) -> bool {
    let p = y + 15;
    let q = p + f;
    &&& ((y == 4 && digits_between(s, 0, 4)) || (y > 4 && (s[0] == '+' || s[0] == '-')
        && digits_between(s, 1, y)))
    &&& s[y] == '-' && digits_between(s, y + 1, y + 3)
    &&& s[y + 3] == '-' && digits_between(s, y + 4, y + 6)
    &&& s[y + 6] == 'T' && digits_between(s, y + 7, y + 9)
    &&& s[y + 9] == ':' && digits_between(s, y + 10, y + 12)
    &&& s[y + 12] == ':' && digits_between(s, y + 13, y + 15)
    &&& (f == 0 || ((f == 4 || f == 7 || f == 10) && s[p] == '.' && digits_between(s, p + 1, q)))
    &&& (s[q] == '+' || s[q] == '-') && digits_between(s, q + 1, q + 3)
    &&& s[q + 3] == ':' && digits_between(s, q + 4, q + 6)
    &&& s.len() == q + 6
}

/// `s` is a date and time in the RFC 3339 form `DateTime::to_rfc3339`
/// writes.
pub open spec fn is_rfc3339_text(s: Seq<char>) -> bool {
    exists|y: int, f: int| rfc3339_layout(s, y, f)
}

/// The current local time in RFC 3339 form (`chrono::Local::now` and
/// `DateTime::to_rfc3339`).
///
/// Trusted: `to_rfc3339` writes the year (`{:+05}` for a year outside
/// 0000-9999), two-digit month, day, hour, minute and second, a fraction
/// of 3, 6 or 9 digits only where the nanoseconds are not zero, and the
/// offset rounded to minutes as `+hh:mm`/`-hh:mm`; that shape is what is
/// stated. Which instant and which offset it shows depends on the clock
/// and the machine's time zone, and nothing is stated of them.
#[verifier::external_body]
fn local_now_rfc3339() -> (r: String)
    ensures
        is_rfc3339_text(r@),
{
    chrono::Local::now().to_rfc3339()
}

impl FlowStore {
    /// Decides how to start a flow, given whether its pipeline runs: an
    /// unknown flow is refused, a running one needs nothing, any other is
    /// started from a copy of its stored definition.
    pub fn plan_start(&self, id: &str, running: bool) -> (r: Result<StartPlan, FlowError>)
        ensures
            !self@.flows.contains_key(id@) ==> (r matches Err(FlowError::InvalidFlow(m)) && m@ == not_found_message(id@)),
            self@.flows.contains_key(id@) && running ==> r matches Ok(StartPlan::AlreadyRunning),
            self@.flows.contains_key(id@) && !running ==> (r matches Ok(StartPlan::Start(f)) && f@ == self@.flows[id@]),
            well_keyed(self@.flows),
    {
        proof {
            use_type_invariant(&*self);
        }
        match self.stored_flow(id) {
            None => Err(FlowError::InvalidFlow(concat2("Flow not found: ", id))),
            Some(f) => {
                if running {
                    Ok(StartPlan::AlreadyRunning)
                } else {
                    Ok(StartPlan::Start(f))
                }
            },
        }
    }

    /// Records a started flow (see [`started_spec`]) with the start time
    /// given.
    pub fn apply_flow_started(&mut self, flow: Flow, state: PipelineState, started_at: String)
        ensures
            final(self)@ == upsert_spec(old(self)@, started_spec(flow@, state, started_at@)),
            well_keyed(final(self)@.flows),
    {
        proof {
            use_type_invariant(&*self);
        }
        let mut flow = flow;
        flow.state = Some(state);
        flow.properties.auto_restart = true;
        flow.properties.started_at = Some(started_at);
        let _ = self.upsert_flow(flow);
    }

    /// Records a started flow with the current local time, as RFC 3339
    /// text, as its start time, which it returns.
    pub fn record_flow_started(&mut self, flow: Flow, state: PipelineState) -> (started_at: String)
        ensures
            final(self)@ == upsert_spec(old(self)@, started_spec(flow@, state, started_at@)),
            is_rfc3339_text(started_at@),
            well_keyed(final(self)@.flows),
    {
        proof {
            use_type_invariant(&*self);
        }
        let now = local_now_rfc3339();
        let copy = now.clone();
        self.apply_flow_started(flow, state, copy);
        now
    }

    /// Records a stopped flow (see [`stopped_spec`]) and returns a copy of
    /// it to be saved; nothing where the flow does not exist.
    pub fn apply_flow_stopped(&mut self, id: &str, state: PipelineState) -> (r: Option<Flow>)
        ensures
            old(self)@.flows.contains_key(id@) ==> r is Some && r->0@ == stopped_spec(old(self)@.flows[id@], state)
                && final(self)@ == upsert_spec(old(self)@, stopped_spec(old(self)@.flows[id@], state)),
            !old(self)@.flows.contains_key(id@) ==> r is None && final(self)@ == old(self)@,
            well_keyed(final(self)@.flows),
    {
        proof {
            use_type_invariant(&*self);
        }
        match self.stored_flow(id) {
            Some(f) => {
                let mut f = f;
                let ghost f0 = f@;
                let mut blocks: Vec<BlockInstance> = Vec::new();
                std::mem::swap(&mut blocks, &mut f.blocks);
                let mut i: usize = 0;
                let mut cleared: Vec<BlockInstance> = Vec::new();
                while blocks.len() > 0
                    invariant
                        blocks_view(cleared@) + blocks_view(blocks@).map_values(|b: BlockView| without_runtime(b))
                            == f0.blocks.map_values(|b: BlockView| without_runtime(b)),
                    decreases blocks.len(),
                {
                    let ghost before = blocks@;
                    let ghost c0 = cleared@;
                    let mut b = blocks.remove(0);
                    b.runtime_data = None;
                    cleared.push(b);
                    proof {
                        assert(blocks@ =~= before.subrange(1, before.len() as int));
                        assert(blocks_view(cleared@) =~= blocks_view(c0).push(without_runtime(before[0]@)));
                        assert(blocks_view(before).map_values(|b: BlockView| without_runtime(b)) =~= seq![
                            without_runtime(before[0]@),
                        ] + blocks_view(blocks@).map_values(|b: BlockView| without_runtime(b)));
                        assert(blocks_view(cleared@) + blocks_view(blocks@).map_values(
                            |b: BlockView| without_runtime(b),
                        ) =~= blocks_view(c0) + blocks_view(before).map_values(|b: BlockView| without_runtime(b)));
                    }
                }
                assert(blocks_view(blocks@).map_values(|b: BlockView| without_runtime(b)) =~= Seq::<BlockView>::empty());
                assert(blocks_view(cleared@) =~= f0.blocks.map_values(|b: BlockView| without_runtime(b)));
                f.blocks = cleared;
                f.state = Some(state);
                f.properties.auto_restart = false;
                f.properties.started_at = None;
                let copy = f.duplicate();
                assert(f@ == stopped_spec(f0, state));
                let _ = self.upsert_flow(f);
                Some(copy)
            },
            None => None,
        }
    }
}

/// Stopping a started flow undoes what starting recorded: no start time,
/// no automatic restart, no runtime data; its definition is kept.
pub proof fn law_stop_undoes_start(f: FlowView, s1: PipelineState, t: Seq<char>, s2: PipelineState)
    ensures
        ({
            let g = stopped_spec(started_spec(f, s1, t), s2);
            &&& g.state == Some(s2)
            &&& g.properties.started_at is None
            &&& !g.properties.auto_restart
            &&& g.properties.ptp_clock == f.properties.ptp_clock
            &&& g.properties.ptp_domain == f.properties.ptp_domain
            &&& g.id == f.id && g.name == f.name
            &&& g.blocks.len() == f.blocks.len()
            &&& forall|i: int|
                0 <= i < g.blocks.len() ==> (#[trigger] g.blocks[i]).runtime_data is None && g.blocks[i].id
                    == f.blocks[i].id && g.blocks[i].properties == f.blocks[i].properties
        }),
{
}

// ---------------------------------------------------------------------------
// Runtime data of started blocks
// ---------------------------------------------------------------------------

/// The definition id of AES67 output blocks.
pub open spec fn aes67_output_def() -> Seq<char> {
    "builtin.aes67_output"@
}

/// The definition id of WHEP output blocks.
pub open spec fn whep_output_def() -> Seq<char> {
    "builtin.whep_output"@
}

/// The definition id of WHIP input blocks.
pub open spec fn whip_input_def() -> Seq<char> {
    "builtin.whip_input"@
}

/// The definition id of inter-flow output blocks.
pub open spec fn inter_output_def() -> Seq<char> {
    "builtin.inter_output"@
}

/// The views of a list of string pairs.
pub open spec fn pairs_view(v: Seq<(String, String)>) -> Seq<(Seq<char>, Seq<char>)> {
    v.map_values(|p: (String, String)| (p.0@, p.1@))
}

/// The second part of the first pair whose first part is `k`.
pub open spec fn lookup_first(v: Seq<(Seq<char>, Seq<char>)>, k: Seq<char>) -> Option<Seq<char>>
    decreases v.len(),
{
    if v.len() == 0 {
        None
    } else if v[0].0 == k {
        Some(v[0].1)
    } else {
        lookup_first(v.drop_first(), k)
    }
}

/// Finds the value of the first pair keyed `k` (the endpoint of a block,
/// the SDP of a block).
pub fn lookup_pair(v: &Vec<(String, String)>, k: &str) -> (r: Option<String>)
    ensures
        opt_str(r) == lookup_first(pairs_view(v@), k@),
{
    let ghost pv = pairs_view(v@);
    assert(pv.subrange(0, pv.len() as int) =~= pv);
    let mut i: usize = 0;
    while i < v.len()
        invariant
            i <= v@.len(),
            pv == pairs_view(v@),
            lookup_first(pv, k@) == lookup_first(pv.subrange(i as int, pv.len() as int), k@),
        decreases v.len() - i,
    {
        let ghost tail = pv.subrange(i as int, pv.len() as int);
        assert(tail[0] == (v@[i as int].0@, v@[i as int].1@));
        if str_eq(v[i].0.as_str(), k) {
            return Some(v[i].1.clone());
        }
        assert(tail.drop_first() =~= pv.subrange(i + 1, pv.len() as int));
        i = i + 1;
    }
    None
}

/// A block with one runtime value set (its runtime data created if it
/// had none).
pub open spec fn with_runtime_value(b: BlockView, key: Seq<char>, value: Seq<char>) -> BlockView {
    BlockView {
        id: b.id,
        definition: b.definition,
        properties: b.properties,
        runtime_data: Some(
            match b.runtime_data {
                Some(m) => m,
                None => Map::empty(),
            }.insert(key, value),
        ),
    }
}

/// Sets one runtime value of a block.
pub fn set_runtime_value(block: &mut BlockInstance, key: &str, value: String)
    ensures
        final(block)@ == with_runtime_value(old(block)@, key@, value@),
{
    let mut data = match block.runtime_data.take() {
        Some(m) => m,
        None => StrMap::new(),
    };
    data.insert(string_of(key), value);
    block.runtime_data = Some(data);
}

/// A started block with its runtime data: an AES67 output gets its SDP, a
/// WHEP output or a WHIP input its endpoint id, where one is listed for it.
pub open spec fn block_after_start(
    b: BlockView,
    sdps: Seq<(Seq<char>, Seq<char>)>,
    whep: Seq<(Seq<char>, Seq<char>)>,
    whip: Seq<(Seq<char>, Seq<char>)>,
) -> BlockView {
    let (list, key) = if b.definition == aes67_output_def() {
        (sdps, "sdp"@)
    } else if b.definition == whep_output_def() {
        (whep, "whep_endpoint_id"@)
    } else if b.definition == whip_input_def() {
        (whip, "whip_endpoint_id"@)
    } else {
        (Seq::empty(), Seq::empty())
    };
    match lookup_first(list, b.id) {
        Some(v) => with_runtime_value(b, key, v),
        None => b,
    }
}

/// Gives the blocks of a started flow their runtime data (see
/// [`block_after_start`]); `sdps` pairs AES67 output blocks with their
/// SDP, `whep` and `whip` pair blocks with their endpoint ids.
pub fn attach_runtime_data(
    flow: &mut Flow,
    sdps: &Vec<(String, String)>,
    whep: &Vec<(String, String)>,
    whip: &Vec<(String, String)>,
)
    ensures
        final(flow)@.id == old(flow)@.id,
        final(flow)@.name == old(flow)@.name,
        final(flow)@.state == old(flow)@.state,
        final(flow)@.properties == old(flow)@.properties,
        final(flow)@.blocks == old(flow)@.blocks.map_values(
            |b: BlockView| block_after_start(b, pairs_view(sdps@), pairs_view(whep@), pairs_view(whip@)),
        ),
{
    let ghost f0 = flow@;
    let ghost upd = |b: BlockView| block_after_start(b, pairs_view(sdps@), pairs_view(whep@), pairs_view(whip@));
    let mut i: usize = 0;
    while i < flow.blocks.len()
        invariant
            i <= flow.blocks@.len(),
            flow.blocks@.len() == f0.blocks.len(),
            flow@.id == f0.id,
            flow@.name == f0.name,
            flow@.state == f0.state,
            flow@.properties == f0.properties,
            upd == (|b: BlockView| block_after_start(b, pairs_view(sdps@), pairs_view(whep@), pairs_view(whip@))),
            forall|j: int| 0 <= j < i ==> #[trigger] flow.blocks@[j]@ == upd(f0.blocks[j]),
            forall|j: int| i <= j < flow.blocks@.len() ==> #[trigger] flow.blocks@[j]@ == f0.blocks[j],
        decreases flow.blocks.len() - i,
    {
        let mut b = flow.blocks[i].duplicate();
        let ghost bv = b@;
        let kind = if str_eq(b.block_definition_id.as_str(), "builtin.aes67_output") {
            1u8
        } else if str_eq(b.block_definition_id.as_str(), "builtin.whep_output") {
            2u8
        } else if str_eq(b.block_definition_id.as_str(), "builtin.whip_input") {
            3u8
        } else {
            0u8
        };
        let found = if kind == 1 {
            lookup_pair(sdps, b.id.as_str())
        } else if kind == 2 {
            lookup_pair(whep, b.id.as_str())
        } else if kind == 3 {
            lookup_pair(whip, b.id.as_str())
        } else {
            proof {
                assert(lookup_first(Seq::<(Seq<char>, Seq<char>)>::empty(), bv.id) is None);
            }
            None
        };
        match found {
            Some(v) => {
                if kind == 1 {
                    set_runtime_value(&mut b, "sdp", v);
                } else if kind == 2 {
                    set_runtime_value(&mut b, "whep_endpoint_id", v);
                } else {
                    set_runtime_value(&mut b, "whip_endpoint_id", v);
                }
            },
            None => {},
        }
        assert(b@ == upd(bv));
        flow.blocks.set(i, b);
        i = i + 1;
    }
    assert(blocks_view(flow.blocks@) =~= f0.blocks.map_values(upd));
}

/// The settings an AES67 output's SDP is made from.
pub struct Aes67SdpSettings {
    /// The configured sample rate, if any.
    pub sample_rate: Option<i32>,
    /// The configured number of channels, if any.
    pub channels: Option<i32>,
    /// The multicast destination.
    pub multicast_host: String,
    /// The network interface to announce on and take the origin address
    /// from, when one is named.
    pub interface: Option<String>,
    /// Whether RAVENNA extensions are on.
    pub ravenna_extensions: bool,
    /// The session name, before it is sanitised.
    pub session_name: String,
}

/// An integer-valued block setting: an integer (converted to `i32`,
/// truncating), or a string that parses as an `i32`.
pub open spec fn int_setting(props: Map<Seq<char>, PropVal>, key: Seq<char>) -> Option<i32> {
    if props.contains_key(key) {
        match props[key] {
            PropVal::Int(i) => Some(i as i32),
            PropVal::Str(s) => parse_i32_spec(s),
            _ => None,
        }
    } else {
        None
    }
}

/// A string-valued block setting.
pub open spec fn str_setting(props: Map<Seq<char>, PropVal>, key: Seq<char>) -> Option<Seq<char>> {
    if props.contains_key(key) {
        match props[key] {
            PropVal::Str(s) => Some(s),
            _ => None,
        }
    } else {
        None
    }
}

/// The settings of an AES67 output block of the flow named `flow_name`:
/// the multicast host defaults to `239.69.1.1`; an empty interface counts
/// as none; RAVENNA extensions are on only for a `true` boolean; a session
/// name that is blank counts as none, and the flow's name is used.
pub open spec fn aes67_settings_spec(props: Map<Seq<char>, PropVal>, flow_name: Seq<char>) -> (
    Option<i32>,
    Option<i32>,
    Seq<char>,
    Option<Seq<char>>,
    bool,
    Seq<char>,
) {
    (
        int_setting(props, "sample_rate"@),
        int_setting(props, "channels"@),
        match str_setting(props, "host"@) {
            Some(h) => h,
            None => "239.69.1.1"@,
        },
        match str_setting(props, "interface"@) {
            Some(i) => if i.len() > 0 { Some(i) } else { None },
            None => None,
        },
        props.contains_key("ravenna_extensions"@) && props["ravenna_extensions"@] == PropVal::Bool(true),
        match str_setting(props, "session_name"@) {
            Some(n) => if trimmed(n).len() > 0 { n } else { flow_name },
            None => flow_name,
        },
    )
}

/// Reads an integer-valued setting (see [`int_setting`]).
fn read_int_setting(props: &Properties, key: &str) -> (r: Option<i32>)
    ensures
        r == int_setting(props@, key@),
{
    match props.get(key) {
        Some(PropertyValue::Int(i)) => Some(*i as i32),
        Some(PropertyValue::String(s)) => parse_i32(s.as_str()),
        _ => None,
    }
}

/// Reads the settings of an AES67 output block (see
/// [`aes67_settings_spec`]).
pub fn aes67_sdp_settings(block: &BlockInstance, flow_name: &str) -> (r: Aes67SdpSettings)
    ensures
        aes67_settings_spec(block@.properties, flow_name@) == (
            r.sample_rate,
            r.channels,
            r.multicast_host@,
            opt_str(r.interface),
            r.ravenna_extensions,
            r.session_name@,
        ),
{
    let props = &block.properties;
    let multicast_host = match props.get("host") {
        Some(PropertyValue::String(s)) => s.clone(),
        _ => string_of("239.69.1.1"),
    };
    let interface = match props.get("interface") {
        Some(PropertyValue::String(s)) => {
            if s.as_str().unicode_len() > 0 {
                Some(s.clone())
            } else {
                None
            }
        },
        _ => None,
    };
    let ravenna_extensions = match props.get("ravenna_extensions") {
        Some(PropertyValue::Bool(b)) => *b,
        _ => false,
    };
    let session_name = match props.get("session_name") {
        Some(PropertyValue::String(s)) => {
            let t = trim(s.as_str());
            if t.as_str().unicode_len() > 0 {
                s.clone()
            } else {
                string_of(flow_name)
            }
        },
        _ => string_of(flow_name),
    };
    Aes67SdpSettings {
        sample_rate: read_int_setting(props, "sample_rate"),
        channels: read_int_setting(props, "channels"),
        multicast_host,
        interface,
        ravenna_extensions,
        session_name,
    }
}

// ---------------------------------------------------------------------------
// Inter-flow channels
// ---------------------------------------------------------------------------

/// The channel an inter-flow output publishes on: `strom_{flow}_{block}`.
pub open spec fn inter_channel_name_spec(flow_id: Seq<char>, block_id: Seq<char>) -> Seq<char> {
    "strom_"@ + flow_id + "_"@ + block_id
}

/// Names the channel of an inter-flow output.
pub fn inter_channel_name(flow_id: &str, block_id: &str) -> (r: String)
    ensures
        r@ == inter_channel_name_spec(flow_id@, block_id@),
{
    let mut r = concat2("strom_", flow_id);
    crate::text::push_str(&mut r, "_");
    crate::text::push_str(&mut r, block_id);
    r
}

/// The media an inter-flow output carries: its `media_type` setting
/// `video` or `audio`; anything else is generic.
pub open spec fn inter_media_spec(props: Map<Seq<char>, PropVal>) -> MediaType {
    match str_setting(props, "media_type"@) {
        Some(m) => if m == "video"@ {
            MediaType::Video
        } else if m == "audio"@ {
            MediaType::Audio
        } else {
            MediaType::Generic
        },
        None => MediaType::Generic,
    }
}

/// Reads the media an inter-flow output carries.
pub fn inter_media_type(props: &Properties) -> (r: MediaType)
    ensures
        r == inter_media_spec(props@),
{
    match props.get("media_type") {
        Some(PropertyValue::String(s)) => {
            if str_eq(s.as_str(), "video") {
                MediaType::Video
            } else if str_eq(s.as_str(), "audio") {
                MediaType::Audio
            } else {
                MediaType::Generic
            }
        },
        _ => MediaType::Generic,
    }
}

/// A channel that a started flow publishes.
pub struct ChannelRegistration {
    /// The channel's name.
    pub channel_name: String,
    /// The block that publishes it.
    pub output_name: String,
    /// The media it carries.
    pub media_type: MediaType,
}

/// The inter-flow outputs among some blocks, in order.
pub open spec fn inter_outputs(bs: Seq<BlockView>) -> Seq<BlockView> {
    bs.filter(|b: BlockView| b.definition == inter_output_def())
}

/// The channels a started flow publishes: one per inter-flow output block,
/// in block order.
pub fn channel_registrations(flow_id: &str, flow: &Flow) -> (r: Vec<ChannelRegistration>)
    ensures
        r@.len() == inter_outputs(flow@.blocks).len(),
        forall|i: int|
            0 <= i < r@.len() ==> {
                let b = #[trigger] inter_outputs(flow@.blocks)[i];
                &&& r@[i].channel_name@ == inter_channel_name_spec(flow_id@, b.id)
                &&& r@[i].output_name@ == b.id
                &&& r@[i].media_type == inter_media_spec(b.properties)
            },
{
    let ghost bv = flow@.blocks;
    let mut r: Vec<ChannelRegistration> = Vec::new();
    let mut i: usize = 0;
    while i < flow.blocks.len()
        invariant
            i <= flow.blocks@.len(),
            bv == flow@.blocks,
            r@.len() == inter_outputs(bv.subrange(0, i as int)).len(),
            forall|k: int|
                0 <= k < r@.len() ==> {
                    let b = #[trigger] inter_outputs(bv.subrange(0, i as int))[k];
                    &&& r@[k].channel_name@ == inter_channel_name_spec(flow_id@, b.id)
                    &&& r@[k].output_name@ == b.id
                    &&& r@[k].media_type == inter_media_spec(b.properties)
                },
        decreases flow.blocks.len() - i,
    {
        let b = &flow.blocks[i];
        let ghost pre = bv.subrange(0, i as int);
        assert(bv.subrange(0, i + 1) =~= pre.push(b@));
        proof {
            reveal(Seq::filter);
            assert(pre.push(b@).drop_last() =~= pre);
        }
        if str_eq(b.block_definition_id.as_str(), "builtin.inter_output") {
            r.push(
                ChannelRegistration {
                    channel_name: inter_channel_name(flow_id, b.id.as_str()),
                    output_name: b.id.clone(),
                    media_type: inter_media_type(&b.properties),
                },
            );
        }
        i = i + 1;
    }
    assert(bv.subrange(0, bv.len() as int) =~= bv);
    r
}

/// What stopping a flow undoes for one of its blocks.
pub enum StopAction {
    /// Withdraw the channel of an inter-flow output, published by the block.
    UnregisterChannel { channel_name: String, output_name: String },
    /// Withdraw the SAP announcement of an AES67 output block.
    RemoveAnnouncement { block_id: String },
}

/// The blocks whose publication stopping withdraws, in order.
pub open spec fn published_blocks(bs: Seq<BlockView>) -> Seq<BlockView> {
    bs.filter(|b: BlockView| b.definition == inter_output_def() || b.definition == aes67_output_def())
}

/// What stopping a flow withdraws: for each inter-flow output its channel,
/// for each AES67 output its announcement, in block order.
pub fn stop_actions(flow_id: &str, flow: &Flow) -> (r: Vec<StopAction>)
    ensures
        r@.len() == published_blocks(flow@.blocks).len(),
        forall|i: int|
            0 <= i < r@.len() ==> {
                let b = #[trigger] published_blocks(flow@.blocks)[i];
                if b.definition == inter_output_def() {
                    (r@[i] matches StopAction::UnregisterChannel { channel_name, output_name }
                        && channel_name@ == inter_channel_name_spec(flow_id@, b.id) && output_name@ == b.id)
                } else {
                    (r@[i] matches StopAction::RemoveAnnouncement { block_id } && block_id@ == b.id)
                }
            },
{
    let ghost bv = flow@.blocks;
    let mut r: Vec<StopAction> = Vec::new();
    let mut i: usize = 0;
    while i < flow.blocks.len()
        invariant
            i <= flow.blocks@.len(),
            bv == flow@.blocks,
            r@.len() == published_blocks(bv.subrange(0, i as int)).len(),
            forall|k: int|
                0 <= k < r@.len() ==> {
                    let b = #[trigger] published_blocks(bv.subrange(0, i as int))[k];
                    if b.definition == inter_output_def() {
                        (r@[k] matches StopAction::UnregisterChannel { channel_name, output_name }
                            && channel_name@ == inter_channel_name_spec(flow_id@, b.id) && output_name@ == b.id)
                    } else {
                        (r@[k] matches StopAction::RemoveAnnouncement { block_id } && block_id@ == b.id)
                    }
                },
        decreases flow.blocks.len() - i,
    {
        let b = &flow.blocks[i];
        let ghost pre = bv.subrange(0, i as int);
        assert(bv.subrange(0, i + 1) =~= pre.push(b@));
        proof {
            reveal(Seq::filter);
            assert(pre.push(b@).drop_last() =~= pre);
            reveal_strlit("builtin.inter_output");
            reveal_strlit("builtin.aes67_output");
        }
        if str_eq(b.block_definition_id.as_str(), "builtin.inter_output") {
            r.push(
                StopAction::UnregisterChannel {
                    channel_name: inter_channel_name(flow_id, b.id.as_str()),
                    output_name: b.id.clone(),
                },
            );
        } else if str_eq(b.block_definition_id.as_str(), "builtin.aes67_output") {
            r.push(StopAction::RemoveAnnouncement { block_id: b.id.clone() });
        }
        i = i + 1;
    }
    assert(bv.subrange(0, bv.len() as int) =~= bv);
    r
}

// ---------------------------------------------------------------------------
// Laws of the store
// ---------------------------------------------------------------------------

/// Reading a flow after saving it gives back what was saved, and the other
/// flows are untouched.
pub proof fn law_read_after_upsert(s: FlowStoreView, f: FlowView)
    ensures
        upsert_spec(s, f).flows.contains_key(f.id),
        upsert_spec(s, f).flows[f.id] == f,
        forall|k: Seq<char>|
            k != f.id ==> (#[trigger] upsert_spec(s, f).flows.contains_key(k) == s.flows.contains_key(k) && (
            s.flows.contains_key(k) ==> upsert_spec(s, f).flows[k] == s.flows[k])),
        upsert_spec(s, f).pending == s.pending,
{
}

/// A deleted flow is gone, and the other flows are untouched.
pub proof fn law_deleted_flow_is_gone(s: FlowStoreView, id: Seq<char>)
    ensures
        !remove_spec(s, id).flows.contains_key(id),
        forall|k: Seq<char>|
            k != id ==> (#[trigger] remove_spec(s, id).flows.contains_key(k) == s.flows.contains_key(k) && (
            s.flows.contains_key(k) ==> remove_spec(s, id).flows[k] == s.flows[k])),
{
}

/// A flow marked as changed is written by the next flush exactly when it
/// still exists.
pub proof fn law_dirty_flow_is_flushed(s: FlowStoreView, id: Seq<char>)
    ensures
        flush_set(mark_dirty_spec(s, id)).contains(id) == s.flows.contains_key(id),
{
}

/// After a flush nothing waits: a second flush writes nothing.
pub proof fn law_flush_drains(s: FlowStoreView)
    ensures
        after_flush(s).pending == Set::<Seq<char>>::empty(),
        flush_set(after_flush(s)) == Set::<Seq<char>>::empty(),
        after_flush(s).flows == s.flows,
{
    assert(flush_set(after_flush(s)) =~= Set::<Seq<char>>::empty());
}

} // verus!
