//! The node's counters and gauges, and their Prometheus text rendering.
//!
//! The per-message families (MSUs, translations, errors) are fixed arrays, so a
//! line-rate stream allocates nothing. The labelled, low-frequency families
//! (state gauges, route availability, management events, rule hits, invoke
//! timeouts) are sorted maps. No `tenant` label is exposed.
use crate::sorted_map::{Key, NameMap, SortedMap};
use vstd::prelude::*;
use vstd::string::*;

pub mod count_laws;
pub mod exposition;
pub mod laws;
pub mod lines;

pub use self::exposition::render;

verus! {

/// Why the transfer path decided an inbound MSU was a loop and dropped it.
#[derive(Clone, Copy, PartialEq, Eq, Structural, Debug)]
pub enum LoopKind {
    /// The MSU carries our own point code as its origin.
    OwnOpc,
    /// The resolved egress is the one the MSU arrived on.
    RouteReflect,
    /// The SCCP hop counter reached zero at a translation.
    HopCounter,
}

/// The `kind` label value of a [`LoopKind`].
pub open spec fn loop_kind_label(x: LoopKind) -> Seq<char> {
    match x {
        LoopKind::OwnOpc => "own-opc"@,
        LoopKind::RouteReflect => "route-reflect"@,
        LoopKind::HopCounter => "hop-counter"@,
    }
}

/// The cell of a [`LoopKind`].
pub open spec fn loop_kind_slot(x: LoopKind) -> int {
    match x {
        LoopKind::OwnOpc => 0,
        LoopKind::RouteReflect => 1,
        LoopKind::HopCounter => 2,
    }
}

impl LoopKind {
    /// The `kind` label value.
    pub fn label(self) -> (r: &'static str)
        ensures
            r@ == loop_kind_label(self),
    {
        match self {
            LoopKind::OwnOpc => "own-opc",
            LoopKind::RouteReflect => "route-reflect",
            LoopKind::HopCounter => "hop-counter",
        }
    }

    fn slot(self) -> (r: usize)
        ensures
            r == loop_kind_slot(self),
            r < 3,
    {
        match self {
            LoopKind::OwnOpc => 0,
            LoopKind::RouteReflect => 1,
            LoopKind::HopCounter => 2,
        }
    }
}

/// Why an ISUP MSU was dropped by screening.
#[derive(Clone, Copy, PartialEq, Eq, Structural, Debug)]
pub enum ScreenReason {
    /// It matched an explicit block rule.
    Rule,
    /// No rule matched and the default is to block.
    Default,
    /// It would not decode as ISUP and the default is to block.
    DecodeError,
}

/// The `reason` label value of a [`ScreenReason`].
pub open spec fn screen_reason_label(x: ScreenReason) -> Seq<char> {
    match x {
        ScreenReason::Rule => "rule"@,
        ScreenReason::Default => "default"@,
        ScreenReason::DecodeError => "decode-error"@,
    }
}

/// The cell of a [`ScreenReason`].
pub open spec fn screen_reason_slot(x: ScreenReason) -> int {
    match x {
        ScreenReason::Rule => 0,
        ScreenReason::Default => 1,
        ScreenReason::DecodeError => 2,
    }
}

impl ScreenReason {
    /// The `reason` label value.
    pub fn label(self) -> (r: &'static str)
        ensures
            r@ == screen_reason_label(self),
    {
        match self {
            ScreenReason::Rule => "rule",
            ScreenReason::Default => "default",
            ScreenReason::DecodeError => "decode-error",
        }
    }

    fn slot(self) -> (r: usize)
        ensures
            r == screen_reason_slot(self),
            r < 3,
    {
        match self {
            ScreenReason::Rule => 0,
            ScreenReason::Default => 1,
            ScreenReason::DecodeError => 2,
        }
    }
}

/// The direction an MSU crossed the node.
#[derive(Clone, Copy, PartialEq, Eq, Structural, Debug)]
pub enum Dir {
    /// Received from a peer.
    Rx,
    /// Transmitted to a peer.
    Tx,
}

/// The `dir` label value of a [`Dir`].
pub open spec fn dir_label(x: Dir) -> Seq<char> {
    match x {
        Dir::Rx => "rx"@,
        Dir::Tx => "tx"@,
    }
}

/// The cell of a [`Dir`].
pub open spec fn dir_slot(x: Dir) -> int {
    match x {
        Dir::Rx => 0,
        Dir::Tx => 1,
    }
}

impl Dir {
    /// The `dir` label value.
    pub fn label(self) -> (r: &'static str)
        ensures
            r@ == dir_label(self),
    {
        match self {
            Dir::Rx => "rx",
            Dir::Tx => "tx",
        }
    }

    fn slot(self) -> (r: usize)
        ensures
            r == dir_slot(self),
            r < 2,
    {
        match self {
            Dir::Rx => 0,
            Dir::Tx => 1,
        }
    }
}

/// The kind of result a translation produced.
#[derive(Clone, Copy, PartialEq, Eq, Structural, Debug)]
pub enum GttResultKind {
    /// Terminated locally.
    Local,
    /// A concrete point code and subsystem.
    Dpc,
    /// A member of a group.
    Group,
    /// Handed off to another routing domain.
    Tenant,
}

/// The `result` label value of a [`GttResultKind`].
pub open spec fn gtt_result_label(x: GttResultKind) -> Seq<char> {
    match x {
        GttResultKind::Local => "local"@,
        GttResultKind::Dpc => "dpc"@,
        GttResultKind::Group => "group"@,
        GttResultKind::Tenant => "tenant"@,
    }
}

/// The cell of a [`GttResultKind`].
pub open spec fn gtt_result_slot(x: GttResultKind) -> int {
    match x {
        GttResultKind::Local => 0,
        GttResultKind::Dpc => 1,
        GttResultKind::Group => 2,
        GttResultKind::Tenant => 3,
    }
}

impl GttResultKind {
    /// The `result` label value.
    pub fn label(self) -> (r: &'static str)
        ensures
            r@ == gtt_result_label(self),
    {
        match self {
            GttResultKind::Local => "local",
            GttResultKind::Dpc => "dpc",
            GttResultKind::Group => "group",
            GttResultKind::Tenant => "tenant",
        }
    }

    fn slot(self) -> (r: usize)
        ensures
            r == gtt_result_slot(self),
            r < 4,
    {
        match self {
            GttResultKind::Local => 0,
            GttResultKind::Dpc => 1,
            GttResultKind::Group => 2,
            GttResultKind::Tenant => 3,
        }
    }
}

/// Why a translation failed.
#[derive(Clone, Copy, PartialEq, Eq, Structural, Debug)]
pub enum GttError {
    /// No rule matched the global title.
    NoTranslation,
    /// The subsystem is not ours or is down.
    SsnProhibited,
    /// No MTP3 route reaches the resolved point code.
    NoRoute,
}

/// The `reason` label value of a [`GttError`].
pub open spec fn gtt_error_label(x: GttError) -> Seq<char> {
    match x {
        GttError::NoTranslation => "no-translation"@,
        GttError::SsnProhibited => "ssn-prohibited"@,
        GttError::NoRoute => "no-route"@,
    }
}

/// The cell of a [`GttError`].
pub open spec fn gtt_error_slot(x: GttError) -> int {
    match x {
        GttError::NoTranslation => 0,
        GttError::SsnProhibited => 1,
        GttError::NoRoute => 2,
    }
}

impl GttError {
    /// The `reason` label value.
    pub fn label(self) -> (r: &'static str)
        ensures
            r@ == gtt_error_label(self),
    {
        match self {
            GttError::NoTranslation => "no-translation",
            GttError::SsnProhibited => "ssn-prohibited",
            GttError::NoRoute => "no-route",
        }
    }

    fn slot(self) -> (r: usize)
        ensures
            r == gtt_error_slot(self),
            r < 3,
    {
        match self {
            GttError::NoTranslation => 0,
            GttError::SsnProhibited => 1,
            GttError::NoRoute => 2,
        }
    }
}

/// What aborted a dialogue.
#[derive(Clone, Copy, PartialEq, Eq, Structural, Debug)]
pub enum AbortSource {
    /// The dialogue user.
    User,
    /// The dialogue provider.
    Provider,
    /// The node itself.
    Local,
}

/// The `source` label value of a [`AbortSource`].
pub open spec fn abort_source_label(x: AbortSource) -> Seq<char> {
    match x {
        AbortSource::User => "user"@,
        AbortSource::Provider => "provider"@,
        AbortSource::Local => "local"@,
    }
}

/// The cell of a [`AbortSource`].
pub open spec fn abort_source_slot(x: AbortSource) -> int {
    match x {
        AbortSource::User => 0,
        AbortSource::Provider => 1,
        AbortSource::Local => 2,
    }
}

impl AbortSource {
    /// The `source` label value.
    pub fn label(self) -> (r: &'static str)
        ensures
            r@ == abort_source_label(self),
    {
        match self {
            AbortSource::User => "user",
            AbortSource::Provider => "provider",
            AbortSource::Local => "local",
        }
    }

    fn slot(self) -> (r: usize)
        ensures
            r == abort_source_slot(self),
            r < 3,
    {
        match self {
            AbortSource::User => 0,
            AbortSource::Provider => 1,
            AbortSource::Local => 2,
        }
    }
}

/// The kind of an MTP3 management event.
#[derive(Clone, Copy, PartialEq, Eq, Structural, Debug)]
pub enum Mtp3MgKind {
    /// Transfer prohibited.
    Tfp,
    /// Transfer allowed.
    Tfa,
    /// Route paused.
    Pause,
    /// Route resumed.
    Resume,
    /// Congestion.
    Congestion,
}

/// The `type` label value of a [`Mtp3MgKind`].
pub open spec fn mtp3mg_label(x: Mtp3MgKind) -> Seq<char> {
    match x {
        Mtp3MgKind::Tfp => "tfp"@,
        Mtp3MgKind::Tfa => "tfa"@,
        Mtp3MgKind::Pause => "pause"@,
        Mtp3MgKind::Resume => "resume"@,
        Mtp3MgKind::Congestion => "congestion"@,
    }
}

impl Mtp3MgKind {
    /// The `type` label value.
    pub fn label(self) -> (r: &'static str)
        ensures
            r@ == mtp3mg_label(self),
    {
        match self {
            Mtp3MgKind::Tfp => "tfp",
            Mtp3MgKind::Tfa => "tfa",
            Mtp3MgKind::Pause => "pause",
            Mtp3MgKind::Resume => "resume",
            Mtp3MgKind::Congestion => "congestion",
        }
    }
}

/// The liveness of an M2PA link.
#[derive(Clone, Copy, PartialEq, Eq, Structural, Debug)]
pub enum M2paLinkState {
    /// Out of alignment or failed.
    Failed,
    /// Aligned or proving, not yet carrying.
    Aligned,
    /// In service, carrying MSUs.
    InService,
}

/// The gauge value of a link state.
pub open spec fn link_state_value(s: M2paLinkState) -> i64 {
    match s {
        M2paLinkState::Failed => 0,
        M2paLinkState::Aligned => 1,
        M2paLinkState::InService => 2,
    }
}

impl M2paLinkState {
    /// The gauge value.
    pub fn value(self) -> (r: i64)
        ensures
            r == link_state_value(self),
    {
        match self {
            M2paLinkState::Failed => 0,
            M2paLinkState::Aligned => 1,
            M2paLinkState::InService => 2,
        }
    }
}

/// A pair of label values.
pub type Labels2 = (String, String);

/// All counters and gauges of a node.
#[derive(Debug)]
pub struct Metrics {
    /// Dropped loops by [`LoopKind`].
    pub loops: [u64; 3],
    /// Screened ISUP MSUs by [`ScreenReason`].
    pub screened: [u64; 3],
    /// Received MSUs by service indicator.
    pub msu_rx: [u64; 16],
    /// Transmitted MSUs by service indicator.
    pub msu_tx: [u64; 16],
    /// Translations by [`GttResultKind`].
    pub translations: [u64; 4],
    /// Translation errors by [`GttError`].
    pub errors: [u64; 3],
    /// Open dialogues.
    pub active: i64,
    /// Dialogues aged out.
    pub timeouts: u64,
    /// Aborts by [`AbortSource`].
    pub abort_counts: [u64; 3],
    /// `sigtran_association_state{assoc,adaptation}`.
    pub association_state: SortedMap<Labels2, i64>,
    /// `sigtran_asp_state{asp,as}`.
    pub asp_state: SortedMap<Labels2, i64>,
    /// `sigtran_linkset_available{linkset}`.
    pub linkset_available: NameMap<i64>,
    /// `sigtran_linkset_active_links{linkset}`.
    pub linkset_active_links: NameMap<i64>,
    /// `sigtran_m2pa_link_state{link}`.
    pub m2pa_link_state: NameMap<i64>,
    /// `sigtran_route_available{dpc}`.
    pub route_available: SortedMap<u32, i64>,
    /// `sigtran_mtp3mg_events_total{dpc,type}`.
    pub management_events: SortedMap<(u32, String), u64>,
    /// `sigtran_content_rule_hits_total{rule,action}`.
    pub rule_hits: SortedMap<Labels2, u64>,
    /// `sigtran_invoke_timeouts_total{operation}`.
    pub operation_timeouts: SortedMap<i64, u64>,
}

/// The next value of a counter. It wraps around at the end of its range.
pub open spec fn next(n: u64) -> u64 {
    if n == u64::MAX {
        0
    } else {
        (n + 1) as u64
    }
}

/// The value a counter map holds under a key, 0 if none.
pub open spec fn count_at<K>(m: Map<K, u64>, k: K) -> u64 {
    if m.contains_key(k) {
        m[k]
    } else {
        0
    }
}

fn bump(n: u64) -> (r: u64)
    ensures
        r == next(n),
{
    if n == u64::MAX {
        0
    } else {
        n + 1
    }
}

impl Metrics {
    /// Every labelled family is kept in order.
    pub open spec fn wf(&self) -> bool {
        &&& self.association_state.wf()
        &&& self.asp_state.wf()
        &&& self.linkset_available.wf()
        &&& self.linkset_active_links.wf()
        &&& self.m2pa_link_state.wf()
        &&& self.route_available.wf()
        &&& self.management_events.wf()
        &&& self.rule_hits.wf()
        &&& self.operation_timeouts.wf()
    }

    /// Every counter is 0 and every labelled family empty.
    pub open spec fn is_zero(&self) -> bool {
        &&& forall|i: int| 0 <= i < 3 ==> self.loops@[i] == 0
        &&& forall|i: int| 0 <= i < 3 ==> self.screened@[i] == 0
        &&& forall|i: int| 0 <= i < 16 ==> self.msu_rx@[i] == 0
        &&& forall|i: int| 0 <= i < 16 ==> self.msu_tx@[i] == 0
        &&& forall|i: int| 0 <= i < 4 ==> self.translations@[i] == 0
        &&& forall|i: int| 0 <= i < 3 ==> self.errors@[i] == 0
        &&& self.active == 0
        &&& self.timeouts == 0
        &&& forall|i: int| 0 <= i < 3 ==> self.abort_counts@[i] == 0
        &&& self.association_state.size() == 0
        &&& self.asp_state.size() == 0
        &&& self.linkset_available.size() == 0
        &&& self.linkset_active_links.size() == 0
        &&& self.m2pa_link_state.size() == 0
        &&& self.route_available.size() == 0
        &&& self.management_events.size() == 0
        &&& self.rule_hits.size() == 0
        &&& self.operation_timeouts.size() == 0
    }

    /// The received or transmitted MSUs by service indicator.
    pub open spec fn msu_cells(&self, dir: Dir) -> Seq<u64> {
        match dir {
            Dir::Rx => self.msu_rx@,
            Dir::Tx => self.msu_tx@,
        }
    }

    /// A node's metrics at start.
    pub fn new() -> (r: Metrics)
        ensures
            r.wf(),
            r.is_zero(),
    {
        Metrics {
            loops: [0;3],
            screened: [0;3],
            msu_rx: [0;16],
            msu_tx: [0;16],
            translations: [0;4],
            errors: [0;3],
            active: 0,
            timeouts: 0,
            abort_counts: [0;3],
            association_state: SortedMap::new(),
            asp_state: SortedMap::new(),
            linkset_available: SortedMap::new(),
            linkset_active_links: SortedMap::new(),
            m2pa_link_state: SortedMap::new(),
            route_available: SortedMap::new(),
            management_events: SortedMap::new(),
            rule_hits: SortedMap::new(),
            operation_timeouts: SortedMap::new(),
        }
    }
}

/// Counts one dropped loop of the given kind.
pub fn record_loop(m: &mut Metrics, kind: LoopKind)
    ensures
        final(m).loops@ == old(m).loops@.update(loop_kind_slot(kind), next(old(m).loops@[loop_kind_slot(kind)])),
        *final(m) == (Metrics { loops: final(m).loops, ..*old(m) }),
{
    let i: usize = kind.slot();
    let n: u64 = bump(m.loops[i]);
    m.loops[i] = n;
}

/// The count of dropped loops of the given kind.
pub fn loops_detected(m: &Metrics, kind: LoopKind) -> (r: u64)
    ensures
        r == m.loops@[loop_kind_slot(kind)],
{
    m.loops[kind.slot()]
}

/// Counts one ISUP MSU screened for the given reason.
pub fn record_isup_screened(m: &mut Metrics, reason: ScreenReason)
    ensures
        final(m).screened@ == old(m).screened@.update(screen_reason_slot(reason), next(old(m).screened@[screen_reason_slot(reason)])),
        *final(m) == (Metrics { screened: final(m).screened, ..*old(m) }),
{
    let i: usize = reason.slot();
    let n: u64 = bump(m.screened[i]);
    m.screened[i] = n;
}

/// The count of ISUP MSUs screened for the given reason.
pub fn isup_screened(m: &Metrics, reason: ScreenReason) -> (r: u64)
    ensures
        r == m.screened@[screen_reason_slot(reason)],
{
    m.screened[reason.slot()]
}

/// Counts one MSU crossing the node. The service indicator is taken modulo 16.
pub fn msu(m: &mut Metrics, dir: Dir, si: u8)
    ensures
        final(m).msu_cells(dir) == old(m).msu_cells(dir).update(
            si as int % 16,
            next(old(m).msu_cells(dir)[si as int % 16]),
        ),
        match dir {
            Dir::Rx => *final(m) == (Metrics { msu_rx: final(m).msu_rx, ..*old(m) }),
            Dir::Tx => *final(m) == (Metrics { msu_tx: final(m).msu_tx, ..*old(m) }),
        },
{
    let i: usize = (si % 16) as usize;
    match dir {
        Dir::Rx => {
            let n: u64 = bump(m.msu_rx[i]);
            m.msu_rx[i] = n;
        },
        Dir::Tx => {
            let n: u64 = bump(m.msu_tx[i]);
            m.msu_tx[i] = n;
        },
    }
}

/// The MSU count for a direction and service indicator.
pub fn msu_total(m: &Metrics, dir: Dir, si: u8) -> (r: u64)
    ensures
        r == m.msu_cells(dir)[si as int % 16],
{
    let i: usize = (si % 16) as usize;
    match dir {
        Dir::Rx => m.msu_rx[i],
        Dir::Tx => m.msu_tx[i],
    }
}

/// Counts one successful translation of the given result kind.
pub fn gtt_translation(m: &mut Metrics, kind: GttResultKind)
    ensures
        final(m).translations@ == old(m).translations@.update(gtt_result_slot(kind), next(old(m).translations@[gtt_result_slot(kind)])),
        *final(m) == (Metrics { translations: final(m).translations, ..*old(m) }),
{
    let i: usize = kind.slot();
    let n: u64 = bump(m.translations[i]);
    m.translations[i] = n;
}

/// The count of translations of the given result kind.
pub fn gtt_translations(m: &Metrics, kind: GttResultKind) -> (r: u64)
    ensures
        r == m.translations@[gtt_result_slot(kind)],
{
    m.translations[kind.slot()]
}

/// Counts one translation error of the given reason.
pub fn gtt_error(m: &mut Metrics, reason: GttError)
    ensures
        final(m).errors@ == old(m).errors@.update(gtt_error_slot(reason), next(old(m).errors@[gtt_error_slot(reason)])),
        *final(m) == (Metrics { errors: final(m).errors, ..*old(m) }),
{
    let i: usize = reason.slot();
    let n: u64 = bump(m.errors[i]);
    m.errors[i] = n;
}

/// The count of translation errors with the given reason.
pub fn gtt_errors(m: &Metrics, reason: GttError) -> (r: u64)
    ensures
        r == m.errors@[gtt_error_slot(reason)],
{
    m.errors[reason.slot()]
}

/// Counts one abort from the given source.
pub fn abort(m: &mut Metrics, source: AbortSource)
    ensures
        final(m).abort_counts@ == old(m).abort_counts@.update(abort_source_slot(source), next(old(m).abort_counts@[abort_source_slot(source)])),
        *final(m) == (Metrics { abort_counts: final(m).abort_counts, ..*old(m) }),
{
    let i: usize = source.slot();
    let n: u64 = bump(m.abort_counts[i]);
    m.abort_counts[i] = n;
}

/// The count of aborts from the given source.
pub fn aborts(m: &Metrics, source: AbortSource) -> (r: u64)
    ensures
        r == m.abort_counts@[abort_source_slot(source)],
{
    m.abort_counts[source.slot()]
}

/// Raises the active-dialogue gauge by one. It wraps around at the end of its range.
pub fn dialogue_opened(m: &mut Metrics)
    ensures
        final(m).active == if old(m).active == i64::MAX {
            i64::MIN
        } else {
            (old(m).active + 1) as i64
        },
        *final(m) == (Metrics { active: final(m).active, ..*old(m) }),
{
    m.active = if m.active == i64::MAX {
        i64::MIN
    } else {
        m.active + 1
    };
}

/// Lowers the active-dialogue gauge by one. It wraps around at the end of its range.
pub fn dialogue_closed(m: &mut Metrics)
    ensures
        final(m).active == if old(m).active == i64::MIN {
            i64::MAX
        } else {
            (old(m).active - 1) as i64
        },
        *final(m) == (Metrics { active: final(m).active, ..*old(m) }),
{
    m.active = if m.active == i64::MIN {
        i64::MAX
    } else {
        m.active - 1
    };
}

/// The current number of open dialogues.
pub fn active_dialogues(m: &Metrics) -> (r: i64)
    ensures
        r == m.active,
{
    m.active
}

/// Counts one dialogue that timed out.
pub fn dialogue_timeout(m: &mut Metrics)
    ensures
        final(m).timeouts == next(old(m).timeouts),
        *final(m) == (Metrics { timeouts: final(m).timeouts, ..*old(m) }),
{
    m.timeouts = bump(m.timeouts);
}

/// The count of timed-out dialogues.
pub fn dialogue_timeouts(m: &Metrics) -> (r: u64)
    ensures
        r == m.timeouts,
{
    m.timeouts
}

/// Sets the association gauge (0 down, 1 up but the adaptation inactive, 2 carrying).
pub fn set_association_state(m: &mut Metrics, assoc: &str, adaptation: &str, state: i64)
    requires
        old(m).wf(),
    ensures
        final(m).wf(),
        final(m).association_state@ == old(m).association_state@.insert((assoc@, adaptation@), state),
        *final(m) == (Metrics { association_state: final(m).association_state, ..*old(m) }),
{
    m.association_state.insert((assoc.to_owned(), adaptation.to_owned()), state);
}

/// Sets the ASP gauge (0 inactive, 1 active).
pub fn set_asp_state(m: &mut Metrics, asp: &str, as_name: &str, active: bool)
    requires
        old(m).wf(),
    ensures
        final(m).wf(),
        final(m).asp_state@ == old(m).asp_state@.insert((asp@, as_name@), gauge(active)),
        *final(m) == (Metrics { asp_state: final(m).asp_state, ..*old(m) }),
{
    m.asp_state.insert((asp.to_owned(), as_name.to_owned()), gauge_of(active));
}

/// 1 for yes, 0 for no.
pub open spec fn gauge(b: bool) -> i64 {
    if b {
        1
    } else {
        0
    }
}

fn gauge_of(b: bool) -> (r: i64)
    ensures
        r == gauge(b),
{
    if b {
        1
    } else {
        0
    }
}

/// The gauge value of a count, at most the largest a gauge can show.
pub open spec fn count_gauge(n: nat) -> i64 {
    if n > 0x7FFF_FFFF_FFFF_FFFF {
        0x7FFF_FFFF_FFFF_FFFF
    } else {
        n as i64
    }
}

/// Sets the linkset availability gauge and its active-link count.
pub fn set_linkset(m: &mut Metrics, linkset: &str, available: bool, active_links: usize)
    requires
        old(m).wf(),
    ensures
        final(m).wf(),
        final(m).linkset_available@ == old(m).linkset_available@.insert(linkset@, gauge(available)),
        final(m).linkset_active_links@ == old(m).linkset_active_links@.insert(
            linkset@,
            count_gauge(active_links as nat),
        ),
        *final(m) == (Metrics {
            linkset_available: final(m).linkset_available,
            linkset_active_links: final(m).linkset_active_links,
            ..*old(m)
        }),
{
    m.linkset_available.insert(linkset.to_owned(), gauge_of(available));
    let count: i64 = if active_links as u64 > 0x7FFF_FFFF_FFFF_FFFF {
        0x7FFF_FFFF_FFFF_FFFF
    } else {
        active_links as i64
    };
    m.linkset_active_links.insert(linkset.to_owned(), count);
}

/// Sets the M2PA link gauge.
pub fn set_m2pa_link_state(m: &mut Metrics, link: &str, state: M2paLinkState)
    requires
        old(m).wf(),
    ensures
        final(m).wf(),
        final(m).m2pa_link_state@ == old(m).m2pa_link_state@.insert(link@, link_state_value(state)),
        *final(m) == (Metrics { m2pa_link_state: final(m).m2pa_link_state, ..*old(m) }),
{
    m.m2pa_link_state.insert(link.to_owned(), state.value());
}

/// Sets the route gauge of a point code (0 or 1).
pub fn set_route_available(m: &mut Metrics, dpc: u32, available: bool)
    requires
        old(m).wf(),
    ensures
        final(m).wf(),
        final(m).route_available@ == old(m).route_available@.insert(dpc, gauge(available)),
        *final(m) == (Metrics { route_available: final(m).route_available, ..*old(m) }),
{
    m.route_available.insert(dpc, gauge_of(available));
}

/// Counts one management event affecting a point code.
pub fn mtp3mg_event(m: &mut Metrics, dpc: u32, kind: Mtp3MgKind)
    requires
        old(m).wf(),
    ensures
        final(m).wf(),
        final(m).management_events@ == old(m).management_events@.insert(
            (dpc, mtp3mg_label(kind)),
            next(count_at(old(m).management_events@, (dpc, mtp3mg_label(kind)))),
        ),
        *final(m) == (Metrics { management_events: final(m).management_events, ..*old(m) }),
{
    let key = (dpc, kind.label().to_owned());
    let n: u64 = match m.management_events.get(&key) {
        Some(v) => *v,
        None => 0,
    };
    m.management_events.insert(key, bump(n));
}

/// The count of management events of a kind for a point code.
pub fn mtp3mg_events(m: &Metrics, dpc: u32, kind: Mtp3MgKind) -> (r: u64)
    requires
        m.wf(),
    ensures
        r == count_at(m.management_events@, (dpc, mtp3mg_label(kind))),
{
    match m.management_events.get(&(dpc, kind.label().to_owned())) {
        Some(v) => *v,
        None => 0,
    }
}

/// Counts one content-rule hit by rule name and action.
pub fn content_rule_hit(m: &mut Metrics, rule: &str, action: &str)
    requires
        old(m).wf(),
    ensures
        final(m).wf(),
        final(m).rule_hits@ == old(m).rule_hits@.insert(
            (rule@, action@),
            next(count_at(old(m).rule_hits@, (rule@, action@))),
        ),
        *final(m) == (Metrics { rule_hits: final(m).rule_hits, ..*old(m) }),
{
    let key = (rule.to_owned(), action.to_owned());
    let n: u64 = match m.rule_hits.get(&key) {
        Some(v) => *v,
        None => 0,
    };
    m.rule_hits.insert(key, bump(n));
}

/// The count of content-rule hits for a rule and action.
pub fn content_rule_hits(m: &Metrics, rule: &str, action: &str) -> (r: u64)
    requires
        m.wf(),
    ensures
        r == count_at(m.rule_hits@, (rule@, action@)),
{
    match m.rule_hits.get(&(rule.to_owned(), action.to_owned())) {
        Some(v) => *v,
        None => 0,
    }
}

/// Counts one invoke that timed out awaiting its result.
pub fn invoke_timeout(m: &mut Metrics, operation: i64)
    requires
        old(m).wf(),
    ensures
        final(m).wf(),
        final(m).operation_timeouts@ == old(m).operation_timeouts@.insert(
            operation,
            next(count_at(old(m).operation_timeouts@, operation)),
        ),
        *final(m) == (Metrics { operation_timeouts: final(m).operation_timeouts, ..*old(m) }),
{
    let key = operation;
    let n: u64 = match m.operation_timeouts.get(&key) {
        Some(v) => *v,
        None => 0,
    };
    m.operation_timeouts.insert(key, bump(n));
}

/// The count of invoke timeouts for an operation code.
pub fn invoke_timeouts(m: &Metrics, operation: i64) -> (r: u64)
    requires
        m.wf(),
    ensures
        r == count_at(m.operation_timeouts@, operation),
{
    match m.operation_timeouts.get(&operation) {
        Some(v) => *v,
        None => 0,
    }
}

} // verus!
