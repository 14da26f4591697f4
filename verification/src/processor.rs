//! The realtime orchestrator. Each audio cycle it drains the pending
//! control actions, compiles the sources' statuses, stops and advances on
//! cue exhaustion, pre-fires events the coming beat boundary will cross,
//! collects every source's output directive, post-fires events the beat
//! passed, and emits state notifications. The float mixing the directives
//! describe happens outside the core.

use vstd::prelude::*;
use crate::ltc::TimecodeCore;
use crate::metronome::{MetronomeCore, MetronomeOut};
use crate::model::{Cue, Show};
use crate::playback::{AudioSourceError, PlaybackCore, PlaybackOut};
use crate::protocol::{ControlAction, MessageKind, Notification};
use crate::state::{BeatState, TransportState};
use crate::vlt::{apply_vlt, spec_apply_vlt};

verus! {

/// A named output channel's configuration. The gain is carried in
/// milli-decibels; the float multiplier `10^(gain/20)` is derived from it
/// outside the core.
pub struct SourceConfig {
    pub name: String,
    pub gain_mdb: i32,
}

impl SourceConfig {
    /// A channel at unity gain.
    pub fn new(name: String) -> (r: SourceConfig)
        ensures
            r.name@ == name@,
            r.gain_mdb == 0,
    {
        SourceConfig { name, gain_mdb: 0 }
    }

    /// Cache a new gain. The cached value is exactly the last one set.
    pub fn set_gain(&mut self, gain_mdb: i32)
        ensures
            final(self).gain_mdb == gain_mdb,
            final(self).name@ == old(self).name@,
    {
        self.gain_mdb = gain_mdb;
    }

    /// The cached gain in milli-decibels.
    pub fn get_gain(&self) -> (r: i32)
        ensures
            r == self.gain_mdb,
    {
        self.gain_mdb
    }
}

/// One audio source: the metronome, the timecode generator, or a playback
/// channel.
pub enum SourceCore {
    Metronome(MetronomeCore),
    Timecode(TimecodeCore),
    Playback(PlaybackCore),
}

/// A source with its output channel configuration.
pub struct SourceUnit {
    pub config: SourceConfig,
    pub core: SourceCore,
}

/// What one source asks its output port to carry for a cycle.
pub enum SourceOut {
    /// A frame of silence.
    Silence,
    /// A frame of the downbeat or upbeat click waveform.
    Click { downbeat: bool },
    /// A frame of the timecode waveform, in quarter-polarity units.
    Ltc { samples: Vec<i32> },
    /// A frame of the clip in publication slot `slot` from sample `start`.
    Clip { slot: usize, start: u32 },
}

/// One port's orders for a cycle: what to play, at which cached gain,
/// whether the playrate rule mutes it, and whether the source failed to
/// produce (a failed port carries silence).
pub struct PortDirective {
    pub out: SourceOut,
    pub gain_mdb: i32,
    pub mute: bool,
    pub failed: bool,
}

/// Everything one cycle decided: per-port directives, notifications to
/// ship, actions the processor issues to itself for the next cycle, and
/// whether a source failed.
pub struct CycleResult {
    pub directives: Vec<PortDirective>,
    pub notifications: Vec<Notification>,
    pub loopback: Vec<ControlAction>,
    pub quit: bool,
}

/// The scalar status a control action acts on.
pub struct StatusView {
    pub cue_idx: int,
    pub running: bool,
    pub vlt: bool,
    pub playrate: int,
    pub changed: bool,
}

/// How one control action moves the scalar status, given the number of
/// cues in the show. Loading a cue (directly, relatively, or by reloading
/// the current index) stops the transport; an index outside the show
/// changes nothing. Seek and jump raise the sticky status-changed flag.
/// A zero playrate is rejected.
pub open spec fn spec_status_step(v: StatusView, num_cues: int, action: ControlAction)
    -> StatusView {
    match action {
        ControlAction::TransportStart => StatusView { running: true, ..v },
        ControlAction::TransportStop => StatusView { running: false, ..v },
        ControlAction::TransportSeekBeat(..) => StatusView { changed: true, ..v },
        ControlAction::TransportJumpBeat(..) => StatusView { changed: true, ..v },
        ControlAction::LoadCueByIndex(i) => if (i as int) < num_cues {
            StatusView { cue_idx: i as int, running: false, ..v }
        } else {
            v
        },
        ControlAction::LoadPreviousCue => if v.cue_idx > 0 && v.cue_idx - 1 < num_cues {
            StatusView { cue_idx: v.cue_idx - 1, running: false, ..v }
        } else {
            v
        },
        ControlAction::LoadNextCue => if v.cue_idx + 1 < num_cues {
            StatusView { cue_idx: v.cue_idx + 1, running: false, ..v }
        } else {
            v
        },
        ControlAction::LoadNextCueFromSelfIndex => if v.cue_idx < num_cues {
            StatusView { running: false, ..v }
        } else {
            v
        },
        ControlAction::ChangeJumpMode(a) => StatusView { vlt: spec_apply_vlt(a, v.vlt), ..v },
        ControlAction::ChangePlayrate(p) => if p > 0 {
            StatusView { playrate: p as int, ..v }
        } else {
            v
        },
        _ => v,
    }
}

/// The kinds of notification one control action emits, in order.
pub open spec fn spec_note_kinds(v: StatusView, num_cues: int, action: ControlAction)
    -> Seq<MessageKind> {
    match action {
        ControlAction::DumpStatus => seq![
            MessageKind::CueData,
            MessageKind::ShowData,
            MessageKind::BeatData,
            MessageKind::TransportData,
        ],
        ControlAction::TransportStart => seq![MessageKind::TransportData],
        ControlAction::TransportStop => seq![MessageKind::TransportData],
        ControlAction::ChangeJumpMode(..) => seq![MessageKind::TransportData],
        ControlAction::LoadCueByIndex(i) => if (i as int) < num_cues {
            seq![MessageKind::CueData]
        } else {
            Seq::empty()
        },
        ControlAction::LoadPreviousCue => if v.cue_idx > 0 && v.cue_idx - 1 < num_cues {
            seq![MessageKind::CueData]
        } else {
            Seq::empty()
        },
        ControlAction::LoadNextCue => if v.cue_idx + 1 < num_cues {
            seq![MessageKind::CueData]
        } else {
            Seq::empty()
        },
        ControlAction::LoadNextCueFromSelfIndex => if v.cue_idx < num_cues {
            seq![MessageKind::CueData]
        } else {
            Seq::empty()
        },
        _ => Seq::empty(),
    }
}

/// How one control action moves the cached per-channel gains.
pub open spec fn spec_gains_step(gains: Seq<int>, action: ControlAction) -> Seq<int> {
    match action {
        ControlAction::SetChannelGain(ch, g) => if (ch as int) < gains.len() {
            gains.update(ch as int, g as int)
        } else {
            gains
        },
        _ => gains,
    }
}

/// Law: caching the same gain twice leaves exactly the state one caching
/// leaves, whatever came before — the second application is absorbed.
pub proof fn lemma_set_gain_idempotent(gains: Seq<int>, ch: u8, g: i32)
    ensures
        spec_gains_step(spec_gains_step(gains, ControlAction::SetChannelGain(ch, g)),
            ControlAction::SetChannelGain(ch, g)) == spec_gains_step(
            gains,
            ControlAction::SetChannelGain(ch, g),
        ),
{
    let once = spec_gains_step(gains, ControlAction::SetChannelGain(ch, g));
    if (ch as int) < gains.len() {
        assert(spec_gains_step(once, ControlAction::SetChannelGain(ch, g)) =~= once);
    }
}

/// Law: loading the same cue index twice moves the status exactly where
/// one load moves it, and both loads announce the same notification kind
/// list — repeated loads are deterministic.
pub proof fn lemma_load_cue_idempotent(v: StatusView, num_cues: int, i: u8)
    ensures
        spec_status_step(spec_status_step(v, num_cues, ControlAction::LoadCueByIndex(i)),
            num_cues, ControlAction::LoadCueByIndex(i)) == spec_status_step(
            v,
            num_cues,
            ControlAction::LoadCueByIndex(i),
        ),
        spec_note_kinds(spec_status_step(v, num_cues, ControlAction::LoadCueByIndex(i)),
            num_cues, ControlAction::LoadCueByIndex(i)) == spec_note_kinds(
            v,
            num_cues,
            ControlAction::LoadCueByIndex(i),
        ),
{
}

/// The action the processor hands its sources while it handles one
/// control action: loading a cue (by any route, when the index is in
/// range) zeroes the sources; every other action passes through.
pub open spec fn spec_forwarded_action(v: StatusView, num_cues: int, action: ControlAction)
    -> ControlAction {
    match action {
        ControlAction::LoadCueByIndex(i) => if (i as int) < num_cues {
            ControlAction::TransportZero
        } else {
            action
        },
        ControlAction::LoadPreviousCue => if v.cue_idx > 0 && v.cue_idx - 1 < num_cues {
            ControlAction::TransportZero
        } else {
            action
        },
        ControlAction::LoadNextCue => if v.cue_idx + 1 < num_cues {
            ControlAction::TransportZero
        } else {
            action
        },
        ControlAction::LoadNextCueFromSelfIndex => if v.cue_idx < num_cues {
            ControlAction::TransportZero
        } else {
            action
        },
        _ => action,
    }
}


/// The sources in the layout the engine builds: the metronome, if one
/// stands among the sources, stands first, and at most one timecode
/// source stands anywhere.
pub open spec fn spec_canonical(sources: Seq<SourceUnit>) -> bool {
    &&& forall|k: int| 1 <= k < sources.len() ==> !((#[trigger] sources[k]).core is Metronome)
    &&& forall|j: int, k: int| 0 <= j < k < sources.len() && (#[trigger] sources[j]).core
        is Timecode ==> !((#[trigger] sources[k]).core is Timecode)
}

/// The first metronome among the sources, if any.
pub open spec fn spec_first_metronome(sources: Seq<SourceUnit>) -> Option<MetronomeCore>
    decreases sources.len(),
{
    if sources.len() == 0 {
        None
    } else {
        match sources[0].core {
            SourceCore::Metronome(m) => Some(m),
            _ => spec_first_metronome(sources.drop_first()),
        }
    }
}

/// The first timecode source among the sources, if any.
pub open spec fn spec_first_timecode(sources: Seq<SourceUnit>) -> Option<TimecodeCore>
    decreases sources.len(),
{
    if sources.len() == 0 {
        None
    } else {
        match sources[0].core {
            SourceCore::Timecode(t) => Some(t),
            _ => spec_first_timecode(sources.drop_first()),
        }
    }
}

/// One drained command's effect on the scalar status and on the first
/// metronome: the status steps, and the metronome takes whatever action
/// the processor forwards for this command.
pub open spec fn spec_drain_step(
    v: StatusView,
    m: Option<MetronomeCore>,
    num_cues: int,
    action: ControlAction,
) -> (StatusView, Option<MetronomeCore>) {
    (
        spec_status_step(v, num_cues, action),
        match m {
            Some(mc) => Some(
                MetronomeCore::spec_command(mc, spec_forwarded_action(v, num_cues, action)),
            ),
            None => None,
        },
    )
}

/// A whole command run folded over the scalar status and the first
/// metronome, in order.
pub open spec fn spec_drain(
    v: StatusView,
    m: Option<MetronomeCore>,
    num_cues: int,
    cmds: Seq<ControlAction>,
) -> (StatusView, Option<MetronomeCore>)
    decreases cmds.len(),
{
    if cmds.len() == 0 {
        (v, m)
    } else {
        let stepped = spec_drain_step(v, m, num_cues, cmds.first());
        spec_drain(stepped.0, stepped.1, num_cues, cmds.drop_first())
    }
}

/// The cached gains after a whole command run.
pub open spec fn spec_gains_run(gains: Seq<int>, cmds: Seq<ControlAction>) -> Seq<int>
    decreases cmds.len(),
{
    if cmds.len() == 0 {
        gains
    } else {
        spec_gains_run(spec_gains_step(gains, cmds.first()), cmds.drop_first())
    }
}

/// The notification kinds a whole command run emits, in order.
pub open spec fn spec_drain_note_kinds(v: StatusView, num_cues: int, cmds: Seq<ControlAction>)
    -> Seq<MessageKind>
    decreases cmds.len(),
{
    if cmds.len() == 0 {
        Seq::empty()
    } else {
        spec_note_kinds(v, num_cues, cmds.first()) + spec_drain_note_kinds(
            spec_status_step(v, num_cues, cmds.first()),
            num_cues,
            cmds.drop_first(),
        )
    }
}

/// Draining one more command extends the fold at the end.
proof fn lemma_spec_drain_snoc(
    v: StatusView,
    m: Option<MetronomeCore>,
    num_cues: int,
    cmds: Seq<ControlAction>,
    a: ControlAction,
)
    ensures
        spec_drain(v, m, num_cues, cmds.push(a)) == spec_drain_step(
            spec_drain(v, m, num_cues, cmds).0,
            spec_drain(v, m, num_cues, cmds).1,
            num_cues,
            a,
        ),
        spec_gains_run(spec_gains_step(spec_gains_run(Seq::<int>::empty(), Seq::empty()),
            a), Seq::empty()) == spec_gains_step(Seq::<int>::empty(), a),
    decreases cmds.len(),
{
    reveal_with_fuel(spec_drain, 3);
    if cmds.len() == 0 {
        assert(cmds.push(a).drop_first() =~= Seq::<ControlAction>::empty());
        assert(cmds.push(a).first() == a);
    } else {
        assert(cmds.push(a).first() == cmds.first());
        assert(cmds.push(a).drop_first() =~= cmds.drop_first().push(a));
        let stepped = spec_drain_step(v, m, num_cues, cmds.first());
        lemma_spec_drain_snoc(stepped.0, stepped.1, num_cues, cmds.drop_first(), a);
    }
}

/// Caching one more command's gains extends the fold at the end.
proof fn lemma_spec_gains_run_snoc(gains: Seq<int>, cmds: Seq<ControlAction>, a: ControlAction)
    ensures
        spec_gains_run(gains, cmds.push(a)) == spec_gains_step(
            spec_gains_run(gains, cmds),
            a,
        ),
    decreases cmds.len(),
{
    reveal_with_fuel(spec_gains_run, 3);
    if cmds.len() == 0 {
        assert(cmds.push(a).drop_first() =~= Seq::<ControlAction>::empty());
        assert(cmds.push(a).first() == a);
    } else {
        assert(cmds.push(a).first() == cmds.first());
        assert(cmds.push(a).drop_first() =~= cmds.drop_first().push(a));
        lemma_spec_gains_run_snoc(spec_gains_step(gains, cmds.first()), cmds.drop_first(), a);
    }
}

/// One more command's notifications extend the fold at the end.
proof fn lemma_spec_drain_note_kinds_snoc(
    v: StatusView,
    m: Option<MetronomeCore>,
    num_cues: int,
    cmds: Seq<ControlAction>,
    a: ControlAction,
)
    ensures
        spec_drain_note_kinds(v, num_cues, cmds.push(a)) == spec_drain_note_kinds(
            v,
            num_cues,
            cmds,
        ) + spec_note_kinds(spec_drain(v, m, num_cues, cmds).0, num_cues, a),
    decreases cmds.len(),
{
    reveal_with_fuel(spec_drain_note_kinds, 3);
    reveal_with_fuel(spec_drain, 3);
    if cmds.len() == 0 {
        assert(cmds.push(a).drop_first() =~= Seq::<ControlAction>::empty());
        assert(cmds.push(a).first() == a);
        assert(spec_drain_note_kinds(v, num_cues, cmds.push(a)) =~= spec_drain_note_kinds(
            v,
            num_cues,
            cmds,
        ) + spec_note_kinds(v, num_cues, a));
    } else {
        assert(cmds.push(a).first() == cmds.first());
        assert(cmds.push(a).drop_first() =~= cmds.drop_first().push(a));
        let stepped = spec_drain_step(v, m, num_cues, cmds.first());
        lemma_spec_drain_note_kinds_snoc(
            stepped.0,
            stepped.1,
            num_cues,
            cmds.drop_first(),
            a,
        );
        assert(spec_drain_note_kinds(v, num_cues, cmds.push(a)) =~= spec_drain_note_kinds(
            v,
            num_cues,
            cmds,
        ) + spec_note_kinds(spec_drain(v, m, num_cues, cmds).0, num_cues, a));
    }
}

/// No metronome among the sources means no first metronome.
proof fn lemma_no_metronome(sources: Seq<SourceUnit>)
    requires
        forall|k: int| 0 <= k < sources.len() ==> !((#[trigger] sources[k]).core is Metronome),
    ensures
        spec_first_metronome(sources) is None,
    decreases sources.len(),
{
    if sources.len() > 0 {
        assert(forall|k: int| 0 <= k < sources.drop_first().len()
            ==> (#[trigger] sources.drop_first()[k]) == sources[k + 1]);
        lemma_no_metronome(sources.drop_first());
    }
}

/// The compiled beat state is the first metronome's, or the start-of-cue
/// state if none stands among the sources.
proof fn lemma_beat_state_first_metronome(sources: Seq<SourceUnit>)
    ensures
        ProcessorCore::spec_beat_state(sources) == match spec_first_metronome(sources) {
            Some(m) => m.state,
            None => BeatState {
                beat_idx: 0,
                next_beat_idx: 0,
                requested_vlt_action: crate::vlt::VltAction::Keep,
            },
        },
    decreases sources.len(),
{
    if sources.len() > 0 {
        match sources[0].core {
            SourceCore::Metronome(..) => {}
            _ => {
                lemma_beat_state_first_metronome(sources.drop_first());
            }
        }
    }
}

/// Sources related pairwise by one forwarded action keep their kinds,
/// and the first metronome takes exactly that action.
proof fn lemma_first_metronome_rel(
    pre: Seq<SourceUnit>,
    post: Seq<SourceUnit>,
    action: ControlAction,
)
    requires
        pre.len() == post.len(),
        forall|k: int| 0 <= k < pre.len() ==> ProcessorCore::cmd_source_rel(
            pre[k],
            #[trigger] post[k],
            action,
        ),
        forall|k: int| 0 <= k < pre.len() ==> match (#[trigger] pre[k]).core {
            SourceCore::Timecode(t) => t.wf(),
            _ => true,
        },
    ensures
        spec_first_metronome(post) == match spec_first_metronome(pre) {
            Some(m) => Some(MetronomeCore::spec_command(m, action)),
            None => None::<MetronomeCore>,
        },
        forall|k: int| 0 <= k < pre.len() ==> (((#[trigger] post[k]).core is Metronome) == (
        pre[k].core is Metronome) && ((post[k].core is Timecode) == (pre[k].core
            is Timecode))),
    decreases pre.len(),
{
    assert forall|k: int| 0 <= k < pre.len() implies (((#[trigger] post[k]).core
        is Metronome) == (pre[k].core is Metronome) && ((post[k].core is Timecode) == (
    pre[k].core is Timecode))) by {
        match pre[k].core {
            SourceCore::Metronome(..) => {}
            SourceCore::Timecode(..) => {}
            SourceCore::Playback(..) => {}
        }
    }
    if pre.len() > 0 {
        assert(forall|k: int| 0 <= k < pre.drop_first().len()
            ==> (#[trigger] pre.drop_first()[k]) == pre[k + 1]);
        assert(forall|k: int| 0 <= k < post.drop_first().len()
            ==> (#[trigger] post.drop_first()[k]) == post[k + 1]);
        match pre[0].core {
            SourceCore::Metronome(..) => {}
            _ => {
                lemma_first_metronome_rel(pre.drop_first(), post.drop_first(), action);
            }
        }
    }
}

/// Sources with pointwise equal cores have the same first metronome.
proof fn lemma_first_metronome_cores(pre: Seq<SourceUnit>, post: Seq<SourceUnit>)
    requires
        pre.len() == post.len(),
        forall|k: int| 0 <= k < pre.len() ==> (#[trigger] post[k]).core == pre[k].core,
    ensures
        spec_first_metronome(post) == spec_first_metronome(pre),
    decreases pre.len(),
{
    if pre.len() > 0 {
        assert(forall|k: int| 0 <= k < pre.drop_first().len()
            ==> (#[trigger] pre.drop_first()[k]) == pre[k + 1]);
        assert(forall|k: int| 0 <= k < post.drop_first().len()
            ==> (#[trigger] post.drop_first()[k]) == post[k + 1]);
        match pre[0].core {
            SourceCore::Metronome(..) => {}
            _ => {
                lemma_first_metronome_cores(pre.drop_first(), post.drop_first());
            }
        }
    }
}

/// Replacing one source with one of the same kind moves neither the
/// canonical shape nor, unless it is the replaced one, the first
/// metronome.
proof fn lemma_kinds_update(sources: Seq<SourceUnit>, k: int, u: SourceUnit)
    requires
        0 <= k < sources.len(),
        (u.core is Metronome) == (sources[k].core is Metronome),
        (u.core is Timecode) == (sources[k].core is Timecode),
        spec_canonical(sources),
    ensures
        spec_canonical(sources.update(k, u)),
{
}

/// Replacing one non-metronome source, or a metronome with itself,
/// keeps the first metronome.
proof fn lemma_first_metronome_update(sources: Seq<SourceUnit>, k: int, u: SourceUnit)
    requires
        0 <= k < sources.len(),
        sources[k].core is Metronome ==> u == sources[k],
        !(sources[k].core is Metronome) ==> !(u.core is Metronome),
    ensures
        spec_first_metronome(sources.update(k, u)) == spec_first_metronome(sources),
    decreases sources.len(),
{
    if k == 0 {
        match sources[0].core {
            SourceCore::Metronome(..) => {
                assert(sources.update(0, u) =~= sources);
            }
            _ => {
                assert(sources.update(0, u).drop_first() =~= sources.drop_first());
            }
        }
    } else {
        assert(sources.update(k, u)[0] == sources[0]);
        match sources[0].core {
            SourceCore::Metronome(..) => {}
            _ => {
                assert(sources.update(k, u).drop_first() =~= sources.drop_first().update(
                    k - 1,
                    u,
                ));
                lemma_first_metronome_update(sources.drop_first(), k - 1, u);
            }
        }
    }
}

/// The realtime processor's state.
pub struct ProcessorCore {
    pub show: Show,
    pub cue_idx: usize,
    pub transport: TransportState,
    pub status_changed_flag: bool,
    pub sources: Vec<SourceUnit>,
}

impl ProcessorCore {
    /// Well-formed: a well-formed show and transport, every timecode
    /// source well-formed, and a cue count small enough to index.
    pub open spec fn wf(self) -> bool {
        &&& self.show.wf()
        &&& self.transport.wf()
        &&& self.show.cues@.len() < 0x1000_0000
        &&& forall|k: int| 0 <= k < self.sources@.len()
            ==> match (#[trigger] self.sources@[k]).core {
                SourceCore::Timecode(t) => t.wf(),
                SourceCore::Metronome(m) => m.last_beat_time < 0x4000_0000_0000_0000,
                _ => true,
            }
    }

    /// The scalar status the control actions act on.
    pub open spec fn status_view(self) -> StatusView {
        StatusView {
            cue_idx: self.cue_idx as int,
            running: self.transport.running,
            vlt: self.transport.vlt,
            playrate: self.transport.playrate_percent as int,
            changed: self.status_changed_flag,
        }
    }

    /// The cached per-channel gains, in source order.
    pub open spec fn gains_view(self) -> Seq<int> {
        self.sources@.map_values(|u: SourceUnit| u.config.gain_mdb as int)
    }

    /// A stopped processor at cue zero with the given show and sources.
    pub fn new(show: Show, sources: Vec<SourceUnit>) -> (r: ProcessorCore)
        requires
            show.wf(),
            show.cues@.len() < 0x1000_0000,
            forall|k: int| 0 <= k < sources@.len() ==> match (#[trigger] sources@[k]).core {
                SourceCore::Timecode(t) => t.wf(),
                SourceCore::Metronome(m) => m.last_beat_time < 0x4000_0000_0000_0000,
                _ => true,
            },
        ensures
            r.wf(),
            r.cue_idx == 0,
            !r.transport.running,
            !r.status_changed_flag,
            r.show.eqv(show),
            r.sources@ == sources@,
    {
        ProcessorCore {
            show,
            cue_idx: 0,
            transport: TransportState::new(),
            status_changed_flag: false,
            sources,
        }
    }

    /// The current cue: a copy of the cue at the current index, or an
    /// empty cue when the index runs past the show.
    pub fn current_cue(&self) -> (r: Cue)
        requires
            self.wf(),
        ensures
            r.wf(),
            (self.cue_idx as int) < self.show.cues@.len() ==> r.eqv(
                self.show.cues@[self.cue_idx as int],
            ),
            (self.cue_idx as int) >= self.show.cues@.len() ==> r.beats@.len() == 0,
    {
        if self.cue_idx < self.show.cues.len() {
            proof {
                assert(self.show.cues@[self.cue_idx as int].wf());
            }
            self.show.cues[self.cue_idx].clone()
        } else {
            Cue::empty()
        }
    }

    /// What forwarding one transport action does to one source: the
    /// channel configuration never moves; a metronome takes the command
    /// exactly as its own transition says; a transport-zero leaves every
    /// playback device disarmed and every timecode source at frame
    /// start; actions no source handles leave the source untouched.
    pub open spec fn cmd_source_rel(pre: SourceUnit, post: SourceUnit, action: ControlAction)
        -> bool {
        &&& post.config == pre.config
        &&& (match pre.core {
            SourceCore::Metronome(m0) => post.core == SourceCore::Metronome(
                MetronomeCore::spec_command(m0, action),
            ),
            SourceCore::Timecode(t0) => t0.wf() ==> match post.core {
                SourceCore::Timecode(t) => t.wf(),
                _ => false,
            },
            SourceCore::Playback(..) => post.core is Playback,
        })
        &&& (action == ControlAction::TransportZero ==> match post.core {
            SourceCore::Metronome(m) => m.state.beat_idx == 0 && m.state.next_beat_idx == 0
                && m.last_beat_time == 0,
            SourceCore::Playback(p) => !p.active,
            SourceCore::Timecode(t) => t.current_time.frame_progress == 0,
        })
        &&& (match action {
            ControlAction::TransportStart | ControlAction::TransportStop
                | ControlAction::TransportZero | ControlAction::TransportSeekBeat(..)
                | ControlAction::TransportJumpBeat(..) => true,
            _ => post == pre,
        })
    }

    /// An action no source reacts to relates a source to itself.
    proof fn lemma_cmd_source_rel_inert(u: SourceUnit, action: ControlAction)
        requires
            match action {
                ControlAction::TransportStop | ControlAction::TransportZero
                    | ControlAction::TransportSeekBeat(..)
                    | ControlAction::TransportJumpBeat(..) => false,
                _ => true,
            },
        ensures
            Self::cmd_source_rel(u, u, action),
    {
        match u.core {
            SourceCore::Metronome(m) => {
                assert(MetronomeCore::spec_command(m, action) == m);
            }
            _ => {}
        }
    }

    /// Forward one action to every source, handing the transport-level
    /// ones to each source's own command handler.
    fn forward_to_sources(&mut self, cue: &Cue, sample_rate: usize, action: ControlAction)
        requires
            old(self).wf(),
            cue.wf(),
            sample_rate <= 1_000_000,
        ensures
            final(self).show == old(self).show,
            final(self).cue_idx == old(self).cue_idx,
            final(self).transport == old(self).transport,
            final(self).status_changed_flag == old(self).status_changed_flag,
            final(self).wf(),
            final(self).sources@.len() == old(self).sources@.len(),
            forall|k: int| 0 <= k < old(self).sources@.len() ==> Self::cmd_source_rel(
                old(self).sources@[k],
                #[trigger] final(self).sources@[k],
                action,
            ),
    {
        let us_to_next: u32 = self.transport.us_to_next_beat;
        let n = self.sources.len();
        let mut k: usize = 0;
        while k < n
            invariant
                n == self.sources@.len(),
                k <= n,
                cue.wf(),
                sample_rate <= 1_000_000,
                self.show == old(self).show,
                self.cue_idx == old(self).cue_idx,
                self.transport == old(self).transport,
                self.status_changed_flag == old(self).status_changed_flag,
                self.show.wf(),
                self.transport.wf(),
                self.show.cues@.len() < 0x1000_0000,
                forall|j: int| 0 <= j < k ==> Self::cmd_source_rel(
                    old(self).sources@[j],
                    #[trigger] self.sources@[j],
                    action,
                ),
                forall|j: int| k <= j < n ==> #[trigger] self.sources@[j] == old(self).sources@[j],
                forall|j: int| 0 <= j < n ==> match (#[trigger] self.sources@[j]).core {
                    SourceCore::Timecode(t) => t.wf(),
                    SourceCore::Metronome(m) => m.last_beat_time < 0x4000_0000_0000_0000,
                    _ => true,
                },
            decreases n - k,
        {
            let unit = &mut self.sources[k];
            match &mut unit.core {
                SourceCore::Metronome(m) => {
                    m.command(action);
                }
                SourceCore::Timecode(t) => {
                    t.command(cue, us_to_next, action);
                }
                SourceCore::Playback(p) => {
                    p.command(cue, us_to_next, sample_rate, action);
                }
            }
            k += 1;
        }
    }

    /// Load the cue at an index: remember it, stop the transport, zero
    /// every source, and announce the cue.
    fn load_cue(&mut self, idx: usize, sample_rate: usize) -> (note: Notification)
        requires
            old(self).wf(),
            (idx as int) < old(self).show.cues@.len(),
            sample_rate <= 1_000_000,
        ensures
            final(self).wf(),
            final(self).show == old(self).show,
            final(self).cue_idx == idx,
            !final(self).transport.running,
            final(self).transport.vlt == old(self).transport.vlt,
            final(self).transport.playrate_percent == old(self).transport.playrate_percent,
            final(self).transport.ltc == old(self).transport.ltc,
            final(self).transport.us_to_next_beat == old(self).transport.us_to_next_beat,
            final(self).status_changed_flag == old(self).status_changed_flag,
            final(self).sources@.len() == old(self).sources@.len(),
            forall|k: int| 0 <= k < old(self).sources@.len() ==> Self::cmd_source_rel(
                old(self).sources@[k],
                #[trigger] final(self).sources@[k],
                ControlAction::TransportZero,
            ),
            note matches Notification::CueData { cue_idx, cue } && cue_idx == idx && cue.eqv(
                old(self).show.cues@[idx as int],
            ),
    {
        self.cue_idx = idx;
        self.transport.running = false;
        let cue = self.current_cue();
        self.forward_to_sources(&cue, sample_rate, ControlAction::TransportZero);
        Notification::CueData { cue_idx: idx, cue }
    }

    /// Apply one control action: mutate the scalar status exactly as
    /// `spec_status_step` says, cache gains exactly as `spec_gains_step`
    /// says, forward the transport actions to every source, and return
    /// the notifications of exactly the kinds `spec_note_kinds` lists.
    /// Loading a cue zeroes every source; a load whose index runs past
    /// the show changes nothing at all.
    pub fn handle_command(&mut self, sample_rate: usize, action: ControlAction) -> (notes: Vec<
        Notification,
    >)
        requires
            old(self).wf(),
            sample_rate <= 1_000_000,
        ensures
            final(self).wf(),
            final(self).show == old(self).show,
            final(self).transport.ltc == old(self).transport.ltc,
            final(self).transport.us_to_next_beat == old(self).transport.us_to_next_beat,
            final(self).sources@.len() == old(self).sources@.len(),
            final(self).status_view() == spec_status_step(
                old(self).status_view(),
                old(self).show.cues@.len() as int,
                action,
            ),
            final(self).gains_view() == spec_gains_step(old(self).gains_view(), action),
            notes@.map_values(|n: Notification| n.spec_kind()) == spec_note_kinds(
                old(self).status_view(),
                old(self).show.cues@.len() as int,
                action,
            ),
            !(action matches ControlAction::SetChannelGain(..)) ==> forall|k: int|
                0 <= k < old(self).sources@.len() ==> Self::cmd_source_rel(
                    old(self).sources@[k],
                    #[trigger] final(self).sources@[k],
                    spec_forwarded_action(
                        old(self).status_view(),
                        old(self).show.cues@.len() as int,
                        action,
                    ),
                ),
            action matches ControlAction::SetChannelGain(..) ==> forall|k: int|
                0 <= k < old(self).sources@.len() ==> (#[trigger] final(self).sources@[k]).core
                    == old(self).sources@[k].core,
            forall|k: int| 0 <= k < old(self).sources@.len()
                ==> (#[trigger] final(self).sources@[k]).config.name@
                    == old(self).sources@[k].config.name@,
            (action matches ControlAction::LoadCueByIndex(i) && (i as int) >= old(self).show.cues@.len()) ==> *final(self) == *old(self),
            forall|j: int| 0 <= j < notes@.len() ==> {
                &&& ((#[trigger] notes@[j]) matches Notification::TransportData(t) ==> t
                    == final(self).transport)
                &&& (notes@[j] matches Notification::CueData { cue_idx, cue } ==> cue_idx
                    == final(self).cue_idx && ((cue_idx as int) < old(self).show.cues@.len()
                    ==> cue.eqv(old(self).show.cues@[cue_idx as int])))
                &&& (notes@[j] matches Notification::ShowData { name, num_cues } ==> name@
                    == old(self).show.name@ && num_cues == old(self).show.cues@.len())
                &&& (notes@[j] matches Notification::BeatData(b) ==> b
                    == Self::spec_beat_state(final(self).sources@))
            },
    {
        let num_cues = self.show.cues.len();
        let mut notes: Vec<Notification> = Vec::new();
        match action {
            ControlAction::DumpStatus => {
                notes.push(
                    Notification::CueData { cue_idx: self.cue_idx, cue: self.current_cue() },
                );
                let name = self.show.name.clone();
                proof {
                    assert(name@ =~= self.show.name@);
                }
                notes.push(Notification::ShowData { name, num_cues });
                notes.push(Notification::BeatData(self.beat_state()));
                notes.push(Notification::TransportData(self.transport));
            }
            ControlAction::TransportStart => {
                self.transport.running = true;
                notes.push(Notification::TransportData(self.transport));
                let cue = self.current_cue();
                self.forward_to_sources(&cue, sample_rate, action);
            }
            ControlAction::TransportStop => {
                self.transport.running = false;
                notes.push(Notification::TransportData(self.transport));
                let cue = self.current_cue();
                self.forward_to_sources(&cue, sample_rate, action);
            }
            ControlAction::TransportZero => {
                let cue = self.current_cue();
                self.forward_to_sources(&cue, sample_rate, action);
            }
            ControlAction::TransportSeekBeat(..) => {
                self.status_changed_flag = true;
                let cue = self.current_cue();
                self.forward_to_sources(&cue, sample_rate, action);
            }
            ControlAction::TransportJumpBeat(..) => {
                self.status_changed_flag = true;
                let cue = self.current_cue();
                self.forward_to_sources(&cue, sample_rate, action);
            }
            ControlAction::LoadCueByIndex(i) => {
                if (i as usize) < num_cues {
                    let note = self.load_cue(i as usize, sample_rate);
                    notes.push(note);
                }
            }
            ControlAction::LoadPreviousCue => {
                if self.cue_idx > 0 && self.cue_idx - 1 < num_cues {
                    let target = self.cue_idx - 1;
                    let note = self.load_cue(target, sample_rate);
                    notes.push(note);
                }
            }
            ControlAction::LoadNextCue => {
                if self.cue_idx < num_cues && self.cue_idx + 1 < num_cues {
                    let target = self.cue_idx + 1;
                    let note = self.load_cue(target, sample_rate);
                    notes.push(note);
                }
            }
            ControlAction::LoadNextCueFromSelfIndex => {
                if self.cue_idx < num_cues {
                    let target = self.cue_idx;
                    let note = self.load_cue(target, sample_rate);
                    notes.push(note);
                }
            }
            ControlAction::SetChannelGain(ch, g) => {
                if (ch as usize) < self.sources.len() {
                    let unit = &mut self.sources[ch as usize];
                    unit.config.set_gain(g);
                    proof {
                        assert(self.gains_view() =~= spec_gains_step(
                            old(self).gains_view(),
                            action,
                        ));
                    }
                }
            }
            ControlAction::ChangeJumpMode(a) => {
                self.transport.vlt = apply_vlt(a, self.transport.vlt);
                notes.push(Notification::TransportData(self.transport));
            }
            ControlAction::ChangePlayrate(p) => {
                if p > 0 {
                    self.transport.playrate_percent = p;
                }
            }
            ControlAction::SetChannelMute(..) => {}
        }
        proof {
            assert(notes@.map_values(|n: Notification| n.spec_kind()) =~= spec_note_kinds(
                old(self).status_view(),
                old(self).show.cues@.len() as int,
                action,
            ));
            if !(action matches ControlAction::SetChannelGain(..)) {
                assert(self.gains_view() =~= old(self).gains_view());
                let fwd = spec_forwarded_action(
                    old(self).status_view(),
                    old(self).show.cues@.len() as int,
                    action,
                );
                assert forall|k: int| 0 <= k < old(self).sources@.len()
                    implies Self::cmd_source_rel(
                    old(self).sources@[k],
                    #[trigger] self.sources@[k],
                    fwd,
                ) by {
                    if self.sources@[k] == old(self).sources@[k] && (match fwd {
                        ControlAction::TransportStop | ControlAction::TransportZero
                            | ControlAction::TransportSeekBeat(..)
                            | ControlAction::TransportJumpBeat(..) => false,
                        _ => true,
                    }) {
                        Self::lemma_cmd_source_rel_inert(old(self).sources@[k], fwd);
                    }
                }
            }
        }
        notes
    }

    /// The beat state of the first metronome among the sources, or the
    /// start-of-cue state if there is none.
    pub open spec fn spec_beat_state(sources: Seq<SourceUnit>) -> BeatState
        decreases sources.len(),
    {
        if sources.len() == 0 {
            BeatState {
                beat_idx: 0,
                next_beat_idx: 0,
                requested_vlt_action: crate::vlt::VltAction::Keep,
            }
        } else {
            match sources[0].core {
                SourceCore::Metronome(m) => m.state,
                _ => Self::spec_beat_state(sources.drop_first()),
            }
        }
    }

    /// The first metronome's beat state.
    pub fn beat_state(&self) -> (r: BeatState)
        ensures
            r == Self::spec_beat_state(self.sources@),
    {
        let n = self.sources.len();
        proof {
            assert(self.sources@.subrange(0, n as int) =~= self.sources@);
        }
        let mut k: usize = 0;
        while k < n
            invariant
                n == self.sources@.len(),
                k <= n,
                Self::spec_beat_state(self.sources@.subrange(k as int, n as int))
                    == Self::spec_beat_state(self.sources@),
            decreases n - k,
        {
            proof {
                assert(self.sources@.subrange(k as int, n as int).drop_first()
                    =~= self.sources@.subrange(k + 1 as int, n as int));
            }
            if let SourceCore::Metronome(m) = &self.sources[k].core {
                return m.state;
            }
            k += 1;
        }
        BeatState::new()
    }
    /// Whether the sources stand in the canonical layout, so a caller
    /// can test the cycle's shape requirement on sources it was handed.
    pub fn sources_canonical(sources: &Vec<SourceUnit>) -> (r: bool)
        ensures
            r == spec_canonical(sources@),
    {
        let n = sources.len();
        let mut seen_timecode: bool = false;
        let mut ok: bool = true;
        let mut k: usize = 0;
        while k < n
            invariant
                n == sources@.len(),
                k <= n,
                seen_timecode == (exists|j: int| 0 <= j < k && (#[trigger] sources@[j]).core
                    is Timecode),
                ok == ((forall|j: int| 1 <= j < k ==> !((#[trigger] sources@[j]).core
                    is Metronome)) && (forall|i: int, j: int| 0 <= i < j < k
                    && (#[trigger] sources@[i]).core is Timecode
                    ==> !((#[trigger] sources@[j]).core is Timecode))),
            decreases n - k,
        {
            match &sources[k].core {
                SourceCore::Metronome(..) => {
                    if k >= 1 {
                        ok = false;
                    }
                }
                SourceCore::Timecode(..) => {
                    if seen_timecode {
                        ok = false;
                    }
                    proof {
                        assert(sources@[k as int].core is Timecode);
                    }
                    seen_timecode = true;
                }
                SourceCore::Playback(..) => {}
            }
            k += 1;
        }
        ok
    }

    /// The first timecode source's running instant, if one stands among
    /// the sources.
    fn first_timecode_instant(&self) -> (r: Option<crate::timecode::TimecodeInstant>)
        requires
            self.wf(),
        ensures
            r == match spec_first_timecode(self.sources@) {
                Some(t) => Some(t.current_time),
                None => None::<crate::timecode::TimecodeInstant>,
            },
            r matches Some(ltc) ==> ltc.wf(),
    {
        let n = self.sources.len();
        proof {
            assert(self.sources@.subrange(0, n as int) =~= self.sources@);
        }
        let mut k: usize = 0;
        while k < n
            invariant
                self.wf(),
                n == self.sources@.len(),
                k <= n,
                spec_first_timecode(self.sources@.subrange(k as int, n as int))
                    == spec_first_timecode(self.sources@),
            decreases n - k,
        {
            proof {
                assert(self.sources@.subrange(k as int, n as int).drop_first()
                    =~= self.sources@.subrange(k + 1 as int, n as int));
            }
            if let SourceCore::Timecode(t) = &self.sources[k].core {
                return Some(t.current_time);
            }
            k += 1;
        }
        None
    }

    /// One realtime cycle, in strict order: drain the given commands
    /// (status, gains and the metronome move exactly by the command
    /// fold), adopt the first timecode source's instant and apply the
    /// first metronome's pending VLT action and beat-clock distance onto
    /// the transport, stop and self-schedule the next cue exactly when
    /// the drained position exhausts the current cue, pre-fire the
    /// events the coming beat boundary will cross, collect every
    /// source's output directive (muting every non-first port while the
    /// playrate is off 100%), post-fire the events of a beat that fired,
    /// and append a beat notification exactly when one fired and a
    /// transport notification exactly when running or after a
    /// status-changing command. `quit` reports exactly that some port's
    /// directive failed.
    #[verifier::rlimit(100)]
    #[verifier::spinoff_prover]
    #[verifier::loop_isolation(false)]
    pub fn cycle(
        &mut self,
        jack_time: u64,
        frame_size: usize,
        sample_rate: usize,
        commands: Vec<ControlAction>,
    ) -> (r: CycleResult)
        requires
            old(self).wf(),
            spec_canonical(old(self).sources@),
            4800 <= sample_rate <= 98304,
            frame_size <= sample_rate / 30,
            jack_time < 0x4000_0000_0000_0000,
        ensures
            final(self).wf(),
            spec_canonical(final(self).sources@),
            final(self).show == old(self).show,
            r.directives@.len() == final(self).sources@.len(),
            final(self).sources@.len() == old(self).sources@.len(),
            forall|k: int| 0 <= k < r.directives@.len() ==> {
                &&& (#[trigger] r.directives@[k]).gain_mdb == final(self).sources@[k].config.gain_mdb
                &&& r.directives@[k].mute == (final(self).transport.playrate_percent != 100
                    && k != 0)
                &&& (r.directives@[k].failed ==> r.directives@[k].out is Silence)
            },
            !final(self).status_changed_flag,
            r.quit == (exists|k: int| 0 <= k < r.directives@.len()
                && (#[trigger] r.directives@[k]).failed),
            final(self).gains_view() == spec_gains_run(old(self).gains_view(), commands@),
            ({
                let n = old(self).show.cues@.len() as int;
                let drained = spec_drain(
                    old(self).status_view(),
                    spec_first_metronome(old(self).sources@),
                    n,
                    commands@,
                );
                let sv = drained.0;
                let m_d = drained.1;
                let bs_d = match m_d {
                    Some(m) => m.state,
                    None => BeatState {
                        beat_idx: 0,
                        next_beat_idx: 0,
                        requested_vlt_action: crate::vlt::VltAction::Keep,
                    },
                };
                let cue_len = if 0 <= sv.cue_idx < n {
                    old(self).show.cues@[sv.cue_idx].beats@.len() as int
                } else {
                    0int
                };
                let exhausted = sv.running && !(bs_d.beat_idx + 1 < cue_len) && bs_d.beat_idx
                    < 32767;
                let running2 = sv.running && !exhausted;
                let fired = match m_d {
                    Some(m) => 0 <= sv.cue_idx < n && m.spec_tick_fires(
                        old(self).show.cues@[sv.cue_idx],
                        running2,
                        jack_time,
                        sv.playrate as u16,
                    ),
                    None => false,
                };
                let dk = spec_drain_note_kinds(old(self).status_view(), n, commands@);
                &&& final(self).cue_idx as int == sv.cue_idx
                &&& final(self).transport.playrate_percent as int == sv.playrate
                &&& final(self).transport.running == running2
                &&& final(self).transport.vlt == (match m_d {
                    Some(m) => spec_apply_vlt(m.state.requested_vlt_action, sv.vlt),
                    None => sv.vlt,
                })
                &&& final(self).transport.us_to_next_beat as int == (match m_d {
                    Some(m) => if 0 <= sv.cue_idx < n {
                        m.spec_us_to_next(
                            old(self).show.cues@[sv.cue_idx],
                            jack_time,
                            sv.playrate as u16,
                        )
                    } else {
                        0int
                    },
                    None => old(self).transport.us_to_next_beat as int,
                })
                &&& commands@.len() == 0 ==> final(self).transport.ltc == (match
                    spec_first_timecode(old(self).sources@) {
                    Some(t) => t.current_time,
                    None => old(self).transport.ltc,
                })
                &&& r.loopback@ == if exhausted {
                    seq![
                        ControlAction::TransportStop,
                        ControlAction::LoadNextCue,
                        ControlAction::TransportZero,
                    ]
                } else {
                    Seq::<ControlAction>::empty()
                }
                &&& r.notifications@.map_values(|nt: Notification| nt.spec_kind()) == dk + (
                if fired {
                    seq![MessageKind::BeatData]
                } else {
                    Seq::<MessageKind>::empty()
                }) + (if running2 || sv.changed {
                    seq![MessageKind::TransportData]
                } else {
                    Seq::<MessageKind>::empty()
                })
                &&& (running2 || sv.changed) ==> r.notifications@.len() > 0
                    && r.notifications@[r.notifications@.len() - 1]
                    == Notification::TransportData(final(self).transport)
                &&& fired ==> (r.notifications@[dk.len() as int] matches Notification::BeatData(
                    b,
                ) && b == Self::spec_beat_state(final(self).sources@))
            }),
    {
        let ghost v0 = old(self).status_view();
        let ghost m0 = spec_first_metronome(old(self).sources@);
        let ghost g0 = old(self).gains_view();
        let ghost n_spec = old(self).show.cues@.len() as int;

        let mut notifications: Vec<Notification> = Vec::new();
        let mut loopback: Vec<ControlAction> = Vec::new();

        // 1. Drain commands: status, gains, metronome and notification
        // kinds all follow the command fold, step by step.
        let mut c: usize = 0;
        while c < commands.len()
            invariant
                self.wf(),
                spec_canonical(self.sources@),
                self.show == old(self).show,
                self.sources@.len() == old(self).sources@.len(),
                4800 <= sample_rate <= 98304,
                c <= commands@.len(),
                self.status_view() == spec_drain(v0, m0, n_spec, commands@.subrange(0,
                    c as int)).0,
                spec_first_metronome(self.sources@) == spec_drain(v0, m0, n_spec,
                    commands@.subrange(0, c as int)).1,
                self.gains_view() == spec_gains_run(g0, commands@.subrange(0, c as int)),
                notifications@.map_values(|nt: Notification| nt.spec_kind())
                    == spec_drain_note_kinds(v0, n_spec, commands@.subrange(0, c as int)),
                self.transport.ltc == old(self).transport.ltc,
                self.transport.us_to_next_beat == old(self).transport.us_to_next_beat,
                c == 0 ==> self.sources@ == old(self).sources@,
            decreases commands@.len() - c,
        {
            let ghost pre_sources = self.sources@;
            let ghost pre_v = self.status_view();
            let ghost pre_notes = notifications@;
            let cmd = commands[c];
            let mut extra = self.handle_command(sample_rate, cmd);
            let ghost extra_view = extra@;
            proof {
                assert(commands@.subrange(0, c + 1 as int) =~= commands@.subrange(0,
                    c as int).push(cmd));
                lemma_spec_drain_snoc(v0, m0, n_spec, commands@.subrange(0, c as int), cmd);
                lemma_spec_gains_run_snoc(g0, commands@.subrange(0, c as int), cmd);
                lemma_spec_drain_note_kinds_snoc(v0, m0, n_spec, commands@.subrange(0,
                    c as int), cmd);
                if !(cmd matches ControlAction::SetChannelGain(..)) {
                    assert(forall|k: int| 0 <= k < pre_sources.len()
                        ==> Self::cmd_source_rel(pre_sources[k], #[trigger] self.sources@[k],
                        spec_forwarded_action(pre_v, n_spec, cmd)));
                    lemma_first_metronome_rel(
                        pre_sources,
                        self.sources@,
                        spec_forwarded_action(pre_v, n_spec, cmd),
                    );
                } else {
                    lemma_first_metronome_cores(pre_sources, self.sources@);
                }
                assert(spec_canonical(self.sources@)) by {
                    assert(forall|k: int| 0 <= k < pre_sources.len()
                        ==> (((#[trigger] self.sources@[k]).core is Metronome) == (
                    pre_sources[k].core is Metronome) && ((self.sources@[k].core
                        is Timecode) == (pre_sources[k].core is Timecode))));
                }
            }
            notifications.append(&mut extra);
            proof {
                assert(notifications@.map_values(|nt: Notification| nt.spec_kind())
                    =~= pre_notes.map_values(|nt: Notification| nt.spec_kind())
                    + extra_view.map_values(|nt: Notification| nt.spec_kind()));
            }
            c += 1;
        }
        proof {
            assert(commands@.subrange(0, commands@.len() as int) =~= commands@);
        }
        let ghost drained = spec_drain(v0, m0, n_spec, commands@);
        let ghost dk = spec_drain_note_kinds(v0, n_spec, commands@);
        let ghost cfg_d = self.sources@;
        let ghost flag_d = self.status_changed_flag;
        let ghost cue_idx_d = self.cue_idx;

        let cue = self.current_cue();
        let playrate: u16 = self.transport.playrate_percent;

        // 2. Adopt the first timecode source's running instant.
        if let Some(ltc) = self.first_timecode_instant() {
            self.transport.ltc = ltc;
        }

        // 3. Compile the first metronome onto the transport: the time to
        // the next beat, and the pending VLT action applied post-hoc.
        let mut vlt_act: crate::vlt::VltAction = crate::vlt::VltAction::Keep;
        let mut us_val: u32 = self.transport.us_to_next_beat;
        if self.sources.len() > 0 {
            let ghost pre_sources = self.sources@;
            let unit = &mut self.sources[0];
            match &mut unit.core {
                SourceCore::Metronome(m) => {
                    us_val = m.us_to_next(&cue, jack_time, playrate);
                    vlt_act = m.take_vlt_action();
                }
                _ => {}
            }
            proof {
                assert(self.sources@ =~= pre_sources.update(0, self.sources@[0]));
                lemma_kinds_update(pre_sources, 0, self.sources@[0]);
                if pre_sources[0].core is Metronome {
                } else {
                    assert(self.sources@ =~= pre_sources);
                    assert(forall|k: int| 0 <= k < self.sources@.len()
                        ==> !((#[trigger] self.sources@[k]).core is Metronome));
                    lemma_no_metronome(self.sources@);
                }
                assert(forall|j: int| 0 <= j < self.sources@.len()
                    ==> (#[trigger] self.sources@[j]).config == cfg_d[j].config);
            }
        } else {
            proof {
                assert(spec_first_metronome(self.sources@) is None);
            }
        }
        self.transport.us_to_next_beat = us_val;
        self.transport.vlt = apply_vlt(vlt_act, self.transport.vlt);
        proof {
            match drained.1 {
                Some(m) => {
                    if 0 <= drained.0.cue_idx < n_spec {
                        assert(m.spec_us_to_next(cue, jack_time, playrate)
                            == m.spec_us_to_next(
                            old(self).show.cues@[drained.0.cue_idx],
                            jack_time,
                            playrate,
                        ));
                    }
                }
                None => {}
            }
        }
        let ghost fm = spec_first_metronome(self.sources@);
        let ghost t_compiled = self.transport;

        // 4. Cue exhaustion: stop and schedule the next cue.
        proof {
            lemma_beat_state_first_metronome(self.sources@);
        }
        let bs = self.beat_state();
        if self.transport.running && !((bs.beat_idx as usize) + 1 < cue.beats.len())
            && bs.beat_idx < 32767 {
            self.transport.running = false;
            loopback.push(ControlAction::TransportStop);
            loopback.push(ControlAction::LoadNextCue);
            loopback.push(ControlAction::TransportZero);
            proof {
                assert(loopback@ =~= seq![
                    ControlAction::TransportStop,
                    ControlAction::LoadNextCue,
                    ControlAction::TransportZero,
                ]);
            }
        }

        // 5. Pre-fire events the coming beat boundary will cross.
        let overrun = crate::state::will_overrun_frame(
            self.transport.us_to_next_beat,
            sample_rate,
            frame_size,
        );
        if overrun {
            let ghost t1 = self.transport;
            let events = cue.events.events_at(bs.next_beat_idx);
            let mut e: usize = 0;
            while e < events.len()
                invariant
                    self.sources@.len() == old(self).sources@.len(),
                    cfg_d.len() == self.sources@.len(),
                    e <= events@.len(),
                    self.wf(),
                    spec_canonical(self.sources@),
                    spec_first_metronome(self.sources@) == fm,
                    self.show == old(self).show,
                    self.transport == t1,
                    self.status_changed_flag == flag_d,
                    self.cue_idx == cue_idx_d,
                    forall|j: int| 0 <= j < self.sources@.len()
                        ==> (#[trigger] self.sources@[j]).config == cfg_d[j].config,
                decreases events@.len() - e,
            {
                let ev = events[e];
                let mut k2: usize = 0;
                while k2 < self.sources.len()
                    invariant
                        self.sources@.len() == old(self).sources@.len(),
                        cfg_d.len() == self.sources@.len(),
                        k2 <= self.sources@.len(),
                        self.wf(),
                        spec_canonical(self.sources@),
                        spec_first_metronome(self.sources@) == fm,
                        self.show == old(self).show,
                        self.transport == t1,
                        self.status_changed_flag == flag_d,
                        self.cue_idx == cue_idx_d,
                        forall|j: int| 0 <= j < self.sources@.len()
                            ==> (#[trigger] self.sources@[j]).config == cfg_d[j].config,
                    decreases self.sources@.len() - k2,
                {
                    let ghost pre_sources = self.sources@;
                    let unit = &mut self.sources[k2];
                    match &mut unit.core {
                        SourceCore::Metronome(..) => {}
                        SourceCore::Timecode(t) => {
                            t.event_will_occur(&ev);
                        }
                        SourceCore::Playback(p) => {
                            p.event_will_occur(true, &ev);
                        }
                    }
                    proof {
                        lemma_kinds_update(
                            pre_sources,
                            k2 as int,
                            self.sources@[k2 as int],
                        );
                        lemma_first_metronome_update(
                            pre_sources,
                            k2 as int,
                            self.sources@[k2 as int],
                        );
                        assert(self.sources@ =~= pre_sources.update(k2 as int,
                            self.sources@[k2 as int]));
                    }
                    k2 += 1;
                }
                e += 1;
            }
        }

        // 6. Produce every source's directive for this cycle.
        proof {
            if self.sources@.len() > 0 {
                match self.sources@[0].core {
                    SourceCore::Metronome(..) => {}
                    _ => {
                        assert(forall|k: int| 0 <= k < self.sources@.len()
                            ==> !((#[trigger] self.sources@[k]).core is Metronome));
                        lemma_no_metronome(self.sources@);
                    }
                }
            }
        }
        let running: bool = self.transport.running;
        let ghost fired_g = match fm {
            Some(mc) => mc.spec_tick_fires(cue, running, jack_time, playrate),
            None => false,
        };
        let mut directives: Vec<PortDirective> = Vec::new();
        let mut beat_changed: bool = false;
        let mut quit: bool = false;
        let ghost cfgs = self.sources@;
        proof {
            assert(forall|j: int| 0 <= j < cfgs.len() ==> (#[trigger] cfgs[j]).config
                == cfg_d[j].config);
        }
        let ghost t3 = self.transport;
        let n = self.sources.len();
        let mut k3: usize = 0;
        while k3 < n
            invariant
                n == self.sources@.len(),
                self.sources@.len() == old(self).sources@.len(),
                k3 <= n,
                cue.wf(),
                self.wf(),
                spec_canonical(self.sources@),
                self.show == old(self).show,
                0 < playrate,
                self.transport == t3,
                self.status_changed_flag == flag_d,
                self.cue_idx == cue_idx_d,
                playrate == self.transport.playrate_percent,
                self.transport.running == running,
                jack_time < 0x4000_0000_0000_0000,
                4800 <= sample_rate <= 98304,
                frame_size <= sample_rate / 30,
                cfgs.len() == n,
                directives@.len() == k3,
                beat_changed == (k3 >= 1 && fired_g),
                quit == (exists|j: int| 0 <= j < k3 && (#[trigger] directives@[j]).failed),
                k3 == 0 ==> spec_first_metronome(self.sources@) == fm,
                forall|j: int| 0 <= j < k3 ==> {
                    &&& (#[trigger] directives@[j]).gain_mdb
                        == self.sources@[j].config.gain_mdb
                    &&& directives@[j].mute == (playrate != 100 && j != 0)
                    &&& (directives@[j].failed ==> directives@[j].out is Silence)
                },
                forall|j: int| 0 <= j < n ==> (#[trigger] self.sources@[j]).config
                    == cfgs[j].config,
            decreases n - k3,
        {
            let gain_mdb: i32 = self.sources[k3].config.get_gain();
            let mute: bool = playrate != 100 && k3 != 0;
            let mut failed: bool = false;
            let ghost pre_sources = self.sources@;
            let unit = &mut self.sources[k3];
            let out: SourceOut = match &mut unit.core {
                SourceCore::Metronome(m) => {
                    match m.tick(&cue, running, jack_time, playrate) {
                        MetronomeOut::Silence => SourceOut::Silence,
                        MetronomeOut::Click { downbeat } => {
                            beat_changed = true;
                            SourceOut::Click { downbeat }
                        }
                    }
                }
                SourceCore::Timecode(t) => {
                    proof {
                        vstd::arithmetic::div_mod::lemma_div_is_ordered_by_denominator(
                            sample_rate as int,
                            t.rate() as int,
                            30int,
                        );
                        vstd::arithmetic::div_mod::lemma_div_is_ordered_by_denominator(
                            sample_rate as int,
                            24int,
                            t.rate() as int,
                        );
                        vstd::arithmetic::div_mod::lemma_div_is_ordered(
                            4800int,
                            sample_rate as int,
                            30int,
                        );
                        vstd::arithmetic::div_mod::lemma_div_is_ordered(
                            sample_rate as int,
                            98304int,
                            24int,
                        );
                    }
                    match t.send_buffer(running, frame_size, sample_rate) {
                        Some(samples) => SourceOut::Ltc { samples },
                        None => SourceOut::Silence,
                    }
                }
                SourceCore::Playback(p) => {
                    match p.send_buffer(running, frame_size) {
                        Ok(PlaybackOut::Silence) => SourceOut::Silence,
                        Ok(PlaybackOut::Clip { slot, start }) => SourceOut::Clip { slot, start },
                        Err(AudioSourceError::ClipIndexOutOfRange) => {
                            quit = true;
                            failed = true;
                            SourceOut::Silence
                        }
                    }
                }
            };
            let ghost pre_dirs = directives@;
            proof {
                assert(self.sources@ =~= pre_sources.update(k3 as int,
                    self.sources@[k3 as int]));
                lemma_kinds_update(pre_sources, k3 as int, self.sources@[k3 as int]);
                if k3 == 0 {
                    match pre_sources[0].core {
                        SourceCore::Metronome(m_head) => {
                            assert(fm == Some(m_head));
                        }
                        _ => {
                            assert(forall|j: int| 0 <= j < pre_sources.len()
                                ==> !((#[trigger] pre_sources[j]).core is Metronome));
                            lemma_no_metronome(pre_sources);
                            assert(fm is None);
                            assert(!fired_g);
                        }
                    }
                } else {
                    assert(!(pre_sources[k3 as int].core is Metronome));
                }
            }
            directives.push(PortDirective { out, gain_mdb, mute, failed });
            proof {
                assert(forall|j: int| 0 <= j < k3 ==> (#[trigger] directives@[j])
                    == pre_dirs[j]);
                if failed {
                    assert(directives@[k3 as int].failed);
                }
                if quit && !failed {
                    let w = choose|j: int| 0 <= j < k3 && (#[trigger] pre_dirs[j]).failed;
                    assert(directives@[w].failed);
                }
            }
            k3 += 1;
        }

        // 7. Post-fire the events of the beat that just fired.
        if beat_changed {
            let ghost t2 = self.transport;
            let bs2 = self.beat_state();
            let vlt_now: bool = self.transport.vlt;
            let events = cue.events.events_at(bs2.beat_idx);
            let mut e2: usize = 0;
            while e2 < events.len()
                invariant
                    n == self.sources@.len(),
                    self.sources@.len() == old(self).sources@.len(),
                    e2 <= events@.len(),
                    self.wf(),
                    spec_canonical(self.sources@),
                    self.show == old(self).show,
                    self.transport == t2,
                    self.status_changed_flag == flag_d,
                    self.cue_idx == cue_idx_d,
                    cfgs.len() == n,
                    directives@.len() == n,
                    forall|j: int| 0 <= j < n ==> (#[trigger] self.sources@[j]).config
                        == cfgs[j].config,
                    forall|j: int| 0 <= j < n ==> (#[trigger] directives@[j]).gain_mdb
                        == self.sources@[j].config.gain_mdb,
                decreases events@.len() - e2,
            {
                let ev = events[e2];
                let mut k4: usize = 0;
                while k4 < n
                    invariant
                        n == self.sources@.len(),
                        self.sources@.len() == old(self).sources@.len(),
                        k4 <= n,
                        self.wf(),
                        spec_canonical(self.sources@),
                        self.show == old(self).show,
                        self.transport == t2,
                        self.status_changed_flag == flag_d,
                        self.cue_idx == cue_idx_d,
                        cfgs.len() == n,
                        directives@.len() == n,
                        forall|j: int| 0 <= j < n ==> (#[trigger] self.sources@[j]).config
                            == cfgs[j].config,
                        forall|j: int| 0 <= j < n ==> (#[trigger] directives@[j]).gain_mdb
                            == self.sources@[j].config.gain_mdb,
                    decreases n - k4,
                {
                    let ghost pre_sources = self.sources@;
                    let unit = &mut self.sources[k4];
                    match &mut unit.core {
                        SourceCore::Metronome(m) => {
                            m.event_occured(vlt_now, &ev);
                        }
                        SourceCore::Timecode(..) => {}
                        SourceCore::Playback(..) => {}
                    }
                    proof {
                        lemma_kinds_update(pre_sources, k4 as int,
                            self.sources@[k4 as int]);
                        assert(self.sources@ =~= pre_sources.update(k4 as int,
                            self.sources@[k4 as int]));
                    }
                    k4 += 1;
                }
                e2 += 1;
            }
            let bs3 = self.beat_state();
            let ghost pre_notes = notifications@;
            notifications.push(Notification::BeatData(bs3));
            proof {
                assert(notifications@.map_values(|nt: Notification| nt.spec_kind())
                    =~= pre_notes.map_values(|nt: Notification| nt.spec_kind()).push(
                    MessageKind::BeatData));
            }
        }

        // 8. Announce the transport while running or after a change.
        if self.transport.running || self.status_changed_flag {
            let ghost pre_notes = notifications@;
            notifications.push(Notification::TransportData(self.transport));
            proof {
                assert(notifications@.map_values(|nt: Notification| nt.spec_kind())
                    =~= pre_notes.map_values(|nt: Notification| nt.spec_kind()).push(
                    MessageKind::TransportData));
            }
        }
        self.status_changed_flag = false;

        proof {
            let fired = match drained.1 {
                Some(m) => 0 <= drained.0.cue_idx < n_spec && m.spec_tick_fires(
                    old(self).show.cues@[drained.0.cue_idx],
                    self.transport.running,
                    jack_time,
                    drained.0.playrate as u16,
                ),
                None => false,
            };
            match fm {
                Some(mc) => {
                    match drained.1 {
                        Some(m) => {
                            if 0 <= drained.0.cue_idx < n_spec {
                                assert(mc.spec_tick_fires(cue, running, jack_time, playrate)
                                    == m.spec_tick_fires(
                                    old(self).show.cues@[drained.0.cue_idx],
                                    running,
                                    jack_time,
                                    playrate,
                                ));
                            } else {
                                assert(cue.beats@.len() == 0);
                                assert(!mc.spec_tick_fires(cue, running, jack_time,
                                    playrate));
                            }
                        }
                        None => {}
                    }
                }
                None => {}
            }
            assert(fired_g == fired);
            assert(self.gains_view() =~= cfg_d.map_values(
                |u: SourceUnit| u.config.gain_mdb as int,
            ));
            if loopback@.len() == 0 {
                assert(loopback@ =~= Seq::<ControlAction>::empty());
            }
            assert(notifications@.map_values(|nt: Notification| nt.spec_kind()) =~= dk + (
            if fired {
                seq![MessageKind::BeatData]
            } else {
                Seq::<MessageKind>::empty()
            }) + (if self.transport.running || drained.0.changed {
                seq![MessageKind::TransportData]
            } else {
                Seq::<MessageKind>::empty()
            }));
        }
        CycleResult { directives, notifications, loopback, quit }
    }
}

} // verus!
