//! A HIRC item: type, size, ID and the item-specific payload.

use vstd::prelude::*;
use crate::bytes::{encoded_at, group_bytes, spec_u32_to_le_bytes};
use crate::error::Result;
use super::super::reader::BinaryReader;
use super::super::writer::BinaryWriter;
use super::super::wire::Wire;
use super::super::types::{lemma_hirc_type_byte_roundtrip, lemma_hirc_type_bytes, spec_hirc_type_byte, spec_hirc_type_from_u8, HircType};
use super::super::params::decision_tree::{tree_bytes, tree_read_end, tree_writable};
use super::super::params::music::{MusicNodeParams, MusicTransNodeParams};
use super::action::ActionValues;
use super::bus::{AttenuationValues, BusValues, StateValues};
use super::containers::{LayerCntrValues, RanSeqCntrValues, SwitchCntrValues};
use super::fx::{
    dialogue_event_bytes, le32_at, tree_block_read_as, tree_block_readable, tree_size_pos,
    DialogueEventValues, FxBaseValues,
};
use super::misc::{FeedbackNodeValues, ModulatorValues};
use super::music::{
    marker_pos, markers_read_as, music_ranseq_bytes, music_switch_bytes, playlist_parse,
    playlist_read_as, segment_bytes, segment_tail_readable, segment_writable, MusicRanSeqValues,
    MusicSegmentValues, MusicSwitchValues, MusicTrackValues,
};
use super::sound::{ActorMixerValues, EventValues, SoundValues};

verus! {

broadcast use group_bytes, BinaryReader::lemma_pos_nonneg;

/// A parsed HIRC item (type + ID + data).
#[derive(Debug)]
pub struct HircItem {
    pub hirc_type: HircType,
    pub id: u32,
    pub body: HircBody,
}

/// The item-specific payload.
#[derive(Debug)]
pub enum HircBody {
    Sound(SoundValues),
    Action(ActionValues),
    Event(EventValues),
    RanSeqCntr(RanSeqCntrValues),
    SwitchCntr(SwitchCntrValues),
    ActorMixer(ActorMixerValues),
    Bus(BusValues),
    LayerCntr(LayerCntrValues),
    State(StateValues),
    Attenuation(AttenuationValues),
    DialogueEvent(DialogueEventValues),
    Fx(FxBaseValues),
    MusicSegment(MusicSegmentValues),
    MusicTrack(MusicTrackValues),
    MusicSwitch(MusicSwitchValues),
    MusicRanSeq(MusicRanSeqValues),
    FeedbackNode(FeedbackNodeValues),
    Modulator(ModulatorValues),
    /// Fallback for unknown/unimplemented types.
    Unknown(Vec<u8>),
}

/// The body kind that an item of type byte `t` holds.
pub open spec fn body_kind_matches(t: u8, b: HircBody) -> bool {
    match spec_hirc_type_from_u8(t) {
        Some(HircType::Sound) => b is Sound,
        Some(HircType::Action) => b is Action,
        Some(HircType::Event) => b is Event,
        Some(HircType::RanSeqCntr) => b is RanSeqCntr,
        Some(HircType::SwitchCntr) => b is SwitchCntr,
        Some(HircType::ActorMixer) => b is ActorMixer,
        Some(HircType::Bus) | Some(HircType::FeedbackBus) | Some(HircType::AuxBus) => b is Bus,
        Some(HircType::LayerCntr) => b is LayerCntr,
        Some(HircType::State) => b is State,
        Some(HircType::Attenuation) => b is Attenuation,
        Some(HircType::DialogueEvent) => b is DialogueEvent,
        Some(HircType::FxShareSet) | Some(HircType::FxCustom) | Some(HircType::AudioDevice) => b is Fx,
        Some(HircType::MusicSegment) => b is MusicSegment,
        Some(HircType::MusicTrack) => b is MusicTrack,
        Some(HircType::MusicSwitch) => b is MusicSwitch,
        Some(HircType::MusicRanSeq) => b is MusicRanSeq,
        Some(HircType::FeedbackNode) => b is FeedbackNode,
        Some(HircType::LfoModulator) | Some(HircType::EnvelopeModulator) => b is Modulator,
        _ => b is Unknown,
    }
}

/// `b` is the body read at `q` (an unknown body reads `remaining` raw
/// bytes), and where reading it ends.
pub open spec fn body_read_at(b: HircBody, d: Seq<u8>, q: int, has_feedback: bool, remaining: int) -> (bool, int) {
    match b {
        HircBody::Sound(v) => (v.wf() && v.ctx_ok(has_feedback) && v.decodes_at(d, q), q + v.spec_bytes().len()),
        HircBody::Action(v) => (v.wf() && v.decodes_at(d, q), q + v.spec_bytes().len()),
        HircBody::Event(v) => (v.wf() && v.decodes_at(d, q), q + v.spec_bytes().len()),
        HircBody::RanSeqCntr(v) => (v.wf() && v.ctx_ok(has_feedback) && v.decodes_at(d, q), q + v.spec_bytes().len()),
        HircBody::SwitchCntr(v) => (v.wf() && v.ctx_ok(has_feedback) && v.decodes_at(d, q), q + v.spec_bytes().len()),
        HircBody::ActorMixer(v) => (v.wf() && v.ctx_ok(has_feedback) && v.decodes_at(d, q), q + v.spec_bytes().len()),
        HircBody::Bus(v) => (v.wf() && v.ctx_ok(has_feedback) && v.decodes_at(d, q), q + v.spec_bytes().len()),
        HircBody::LayerCntr(v) => (v.wf() && v.ctx_ok(has_feedback) && v.decodes_at(d, q), q + v.spec_bytes().len()),
        HircBody::State(v) => (v.wf() && v.decodes_at(d, q), q + v.spec_bytes().len()),
        HircBody::Attenuation(v) => (v.wf() && v.decodes_at(d, q), q + v.spec_bytes().len()),
        HircBody::DialogueEvent(v) => {
            let t = tree_size_pos(d, q + 1);
            let end = tree_read_end(d, t + 5, v.tree_depth, v.tree_data_size);
            (
                q + 1 <= d.len() && v.probability == d[q] && tree_block_read_as(
                    v.tree_depth,
                    v.arguments@,
                    v.tree_data_size,
                    v.tree_mode,
                    v.decision_tree,
                    d,
                    q + 1,
                    end,
                ),
                end,
            )
        },
        HircBody::Fx(v) => (v.wf() && v.decodes_at(d, q), q + v.spec_bytes().len()),
        HircBody::MusicSegment(v) => {
            let s = q + v.music_node_params.spec_bytes().len();
            (
                v.music_node_params.wf() && v.music_node_params.ctx_ok(has_feedback)
                    && v.music_node_params.decodes_at(d, q) && segment_tail_readable(d, s)
                    && v.duration == crate::bytes::spec_u64_from_le_bytes(d.subrange(s, s + 8))
                    && v.markers@.len() == le32_at(d, s + 8) && markers_read_as(v.markers@, d, s + 12),
                marker_pos(d, s + 12, v.markers@.len() as int),
            )
        },
        HircBody::MusicTrack(v) => (v.wf() && v.ctx_ok(has_feedback) && v.decodes_at(d, q), q + v.spec_bytes().len()),
        HircBody::MusicSwitch(v) => {
            let s = q + v.music_trans_node_params.spec_bytes().len();
            let t = tree_size_pos(d, s + 1);
            let end = tree_read_end(d, t + 5, v.tree_depth, v.tree_data_size);
            (
                v.music_trans_node_params.wf() && v.music_trans_node_params.ctx_ok(has_feedback)
                    && v.music_trans_node_params.decodes_at(d, q) && s + 1 <= d.len()
                    && v.is_continue_playback == d[s] && tree_block_read_as(
                    v.tree_depth,
                    v.arguments@,
                    v.tree_data_size,
                    v.tree_mode,
                    v.decision_tree,
                    d,
                    s + 1,
                    end,
                ),
                end,
            )
        },
        HircBody::MusicRanSeq(v) => {
            let s = q + v.music_trans_node_params.spec_bytes().len();
            (
                v.music_trans_node_params.wf() && v.music_trans_node_params.ctx_ok(has_feedback)
                    && v.music_trans_node_params.decodes_at(d, q) && s + 4 <= d.len()
                    && v.num_playlist_items == le32_at(d, s) && v.playlist@.len() == 1
                    && playlist_parse(d, s + 4, 1).0 && playlist_read_as(v.playlist@, d, s + 4),
                playlist_parse(d, s + 4, 1).1,
            )
        },
        HircBody::FeedbackNode(v) => (v.wf() && v.ctx_ok(has_feedback) && v.decodes_at(d, q), q + v.spec_bytes().len()),
        HircBody::Modulator(v) => (v.wf() && v.decodes_at(d, q), q + v.spec_bytes().len()),
        HircBody::Unknown(data) => (q + remaining <= d.len() && data@ == d.subrange(q, q + remaining), q + remaining),
    }
}

/// The body of an item of type `t` can be read at `q`: some writable value
/// of its kind is encoded there (for the bank's feedback flag), or, for an
/// unknown type, `remaining` bytes are there.
pub open spec fn body_readable(t: Option<HircType>, d: Seq<u8>, q: int, has_feedback: bool, remaining: int) -> bool {
    match t {
        Some(HircType::Sound) => exists|w: SoundValues|
            #[trigger] w.decodes_at(d, q) && w.wf() && w.ctx_ok(has_feedback),
        Some(HircType::RanSeqCntr) => exists|w: RanSeqCntrValues|
            #[trigger] w.decodes_at(d, q) && w.wf() && w.ctx_ok(has_feedback),
        Some(HircType::SwitchCntr) => exists|w: SwitchCntrValues|
            #[trigger] w.decodes_at(d, q) && w.wf() && w.ctx_ok(has_feedback),
        Some(HircType::ActorMixer) => exists|w: ActorMixerValues|
            #[trigger] w.decodes_at(d, q) && w.wf() && w.ctx_ok(has_feedback),
        Some(HircType::Bus) | Some(HircType::FeedbackBus) | Some(HircType::AuxBus) => exists|w: BusValues|
            #[trigger] w.decodes_at(d, q) && w.wf() && w.ctx_ok(has_feedback),
        Some(HircType::LayerCntr) => exists|w: LayerCntrValues|
            #[trigger] w.decodes_at(d, q) && w.wf() && w.ctx_ok(has_feedback),
        Some(HircType::FeedbackNode) => exists|w: FeedbackNodeValues|
            #[trigger] w.decodes_at(d, q) && w.wf() && w.ctx_ok(has_feedback),
        Some(HircType::MusicTrack) => exists|w: MusicTrackValues|
            #[trigger] w.decodes_at(d, q) && w.wf() && w.ctx_ok(has_feedback),
        Some(HircType::Action) => exists|w: ActionValues| #[trigger] w.decodes_at(d, q) && w.wf(),
        Some(HircType::Event) => exists|w: EventValues| #[trigger] w.decodes_at(d, q) && w.wf(),
        Some(HircType::State) => exists|w: StateValues| #[trigger] w.decodes_at(d, q) && w.wf(),
        Some(HircType::Attenuation) => exists|w: AttenuationValues| #[trigger] w.decodes_at(d, q) && w.wf(),
        Some(HircType::FxShareSet) | Some(HircType::FxCustom) | Some(HircType::AudioDevice) => exists|
            w: FxBaseValues,
        | #[trigger] w.decodes_at(d, q) && w.wf(),
        Some(HircType::LfoModulator) | Some(HircType::EnvelopeModulator) => exists|w: ModulatorValues|
            #[trigger] w.decodes_at(d, q) && w.wf(),
        Some(HircType::DialogueEvent) => q + 1 <= d.len() && tree_block_readable(d, q + 1),
        Some(HircType::MusicSegment) => exists|w: MusicNodeParams|
            #[trigger] w.decodes_at(d, q) && w.wf() && w.ctx_ok(has_feedback) && segment_tail_readable(
                d,
                q + w.spec_bytes().len(),
            ),
        Some(HircType::MusicSwitch) => exists|w: MusicTransNodeParams|
            #[trigger] w.decodes_at(d, q) && w.wf() && w.ctx_ok(has_feedback) && q + w.spec_bytes().len() + 1
                <= d.len() && tree_block_readable(d, q + w.spec_bytes().len() + 1),
        Some(HircType::MusicRanSeq) => exists|w: MusicTransNodeParams|
            #[trigger] w.decodes_at(d, q) && w.wf() && w.ctx_ok(has_feedback) && q + w.spec_bytes().len() + 4
                <= d.len() && playlist_parse(d, q + w.spec_bytes().len() + 4, 1).0,
        None => q + remaining <= d.len(),
    }
}

/// The body an item holds and the type recorded for it, by its Wwise type
/// byte: 1 a State, 2 a Sound, 3 an Action, 4 an Event, 5 a random/sequence
/// container, 6 a switch container, 7 an actor-mixer, 8, 16 and 20 a bus, 9
/// a layer container, 10 to 13 the music items, 14 an attenuation, 15 a
/// dialogue event, 17 a feedback node, 18, 19 and 23 an effect, 21 and 22 a
/// modulator; any other byte is kept as raw bytes, recorded as State.
pub proof fn lemma_item_body_by_type_byte(t: u8, b: HircBody)
    requires
        body_kind_matches(t, b),
    ensures
        t == 1 ==> b is State,
        t == 2 ==> b is Sound,
        t == 3 ==> b is Action,
        t == 4 ==> b is Event,
        t == 5 ==> b is RanSeqCntr,
        t == 6 ==> b is SwitchCntr,
        t == 7 ==> b is ActorMixer,
        t == 8 ==> b is Bus,
        t == 9 ==> b is LayerCntr,
        t == 10 ==> b is MusicSegment,
        t == 11 ==> b is MusicTrack,
        t == 12 ==> b is MusicSwitch,
        t == 13 ==> b is MusicRanSeq,
        t == 14 ==> b is Attenuation,
        t == 15 ==> b is DialogueEvent,
        t == 16 ==> b is Bus,
        t == 17 ==> b is FeedbackNode,
        t == 18 ==> b is Fx,
        t == 19 ==> b is Fx,
        t == 20 ==> b is Bus,
        t == 21 ==> b is Modulator,
        t == 22 ==> b is Modulator,
        t == 23 ==> b is Fx,
        (t == 0 || t > 23) ==> b is Unknown,
        t == 1 ==> recorded_type(t) == HircType::State,
        t == 2 ==> recorded_type(t) == HircType::Sound,
        t == 3 ==> recorded_type(t) == HircType::Action,
        t == 4 ==> recorded_type(t) == HircType::Event,
        t == 5 ==> recorded_type(t) == HircType::RanSeqCntr,
        t == 6 ==> recorded_type(t) == HircType::SwitchCntr,
        t == 7 ==> recorded_type(t) == HircType::ActorMixer,
        t == 8 ==> recorded_type(t) == HircType::Bus,
        t == 9 ==> recorded_type(t) == HircType::LayerCntr,
        t == 10 ==> recorded_type(t) == HircType::MusicSegment,
        t == 11 ==> recorded_type(t) == HircType::MusicTrack,
        t == 12 ==> recorded_type(t) == HircType::MusicSwitch,
        t == 13 ==> recorded_type(t) == HircType::MusicRanSeq,
        t == 14 ==> recorded_type(t) == HircType::Attenuation,
        t == 15 ==> recorded_type(t) == HircType::DialogueEvent,
        t == 16 ==> recorded_type(t) == HircType::FeedbackBus,
        t == 17 ==> recorded_type(t) == HircType::FeedbackNode,
        t == 18 ==> recorded_type(t) == HircType::FxShareSet,
        t == 19 ==> recorded_type(t) == HircType::FxCustom,
        t == 20 ==> recorded_type(t) == HircType::AuxBus,
        t == 21 ==> recorded_type(t) == HircType::LfoModulator,
        t == 22 ==> recorded_type(t) == HircType::EnvelopeModulator,
        t == 23 ==> recorded_type(t) == HircType::AudioDevice,
        (t == 0 || t > 23) ==> recorded_type(t) == HircType::State,
{
    lemma_hirc_type_bytes();
}

/// The type recorded for an item of type byte `t`: its type, or `State`
/// for an unknown byte.
pub open spec fn recorded_type(t: u8) -> HircType {
    match spec_hirc_type_from_u8(t) {
        Some(ht) => ht,
        None => HircType::State,
    }
}

/// Where reading an item ends: at the end its size declares when the body
/// ended before it and the data reaches it, else where the body ended.
pub open spec fn item_end(body_end: int, declared_end: int, len: int) -> int {
    if body_end < declared_end && declared_end <= len {
        declared_end
    } else {
        body_end
    }
}

/// The node-like types, whose bodies depend on the bank's feedback flag.
pub open spec fn is_node_type(t: HircType) -> bool {
    t is Sound || t is RanSeqCntr || t is SwitchCntr || t is ActorMixer || t is Bus || t is FeedbackBus
        || t is AuxBus || t is LayerCntr || t is FeedbackNode
}

/// The event, action, state, attenuation, effect and modulator types.
pub open spec fn is_event_type(t: HircType) -> bool {
    t is Action || t is Event || t is State || t is Attenuation || t is FxShareSet || t is FxCustom
        || t is AudioDevice || t is LfoModulator || t is EnvelopeModulator
}

/// The bytes the writer produces for a body.
pub open spec fn body_bytes(b: HircBody) -> Seq<u8> {
    match b {
        HircBody::Sound(v) => v.spec_bytes(),
        HircBody::Action(v) => v.spec_bytes(),
        HircBody::Event(v) => v.spec_bytes(),
        HircBody::RanSeqCntr(v) => v.spec_bytes(),
        HircBody::SwitchCntr(v) => v.spec_bytes(),
        HircBody::ActorMixer(v) => v.spec_bytes(),
        HircBody::Bus(v) => v.spec_bytes(),
        HircBody::LayerCntr(v) => v.spec_bytes(),
        HircBody::State(v) => v.spec_bytes(),
        HircBody::Attenuation(v) => v.spec_bytes(),
        HircBody::DialogueEvent(v) => dialogue_event_bytes(v),
        HircBody::Fx(v) => v.spec_bytes(),
        HircBody::MusicSegment(v) => segment_bytes(v),
        HircBody::MusicTrack(v) => v.spec_bytes(),
        HircBody::MusicSwitch(v) => music_switch_bytes(v),
        HircBody::MusicRanSeq(v) => music_ranseq_bytes(v),
        HircBody::FeedbackNode(v) => v.spec_bytes(),
        HircBody::Modulator(v) => v.spec_bytes(),
        HircBody::Unknown(data) => data@,
    }
}

/// A body can be written.
pub open spec fn body_writable(b: HircBody) -> bool {
    match b {
        HircBody::Sound(v) => v.wf(),
        HircBody::Action(v) => v.wf(),
        HircBody::Event(v) => v.wf(),
        HircBody::RanSeqCntr(v) => v.wf(),
        HircBody::SwitchCntr(v) => v.wf(),
        HircBody::ActorMixer(v) => v.wf(),
        HircBody::Bus(v) => v.wf(),
        HircBody::LayerCntr(v) => v.wf(),
        HircBody::State(v) => v.wf(),
        HircBody::Attenuation(v) => v.wf(),
        HircBody::DialogueEvent(v) => tree_writable(v.decision_tree),
        HircBody::Fx(v) => v.wf(),
        HircBody::MusicSegment(v) => segment_writable(v),
        HircBody::MusicTrack(v) => v.wf(),
        HircBody::MusicSwitch(v) => v.music_trans_node_params.wf() && tree_writable(v.decision_tree),
        HircBody::MusicRanSeq(v) => v.music_trans_node_params.wf(),
        HircBody::FeedbackNode(v) => v.wf(),
        HircBody::Modulator(v) => v.wf(),
        HircBody::Unknown(data) => true,
    }
}

/// The bytes the writer produces for an item: its type byte, the size of
/// what follows, its ID and its body.
pub open spec fn item_bytes(it: HircItem) -> Seq<u8> {
    seq![spec_hirc_type_byte(it.hirc_type)] + spec_u32_to_le_bytes((4 + body_bytes(it.body).len()) as u32)
        + spec_u32_to_le_bytes(it.id) + body_bytes(it.body)
}

/// Reads the body of an item of type `hirc_type`; an unknown type reads
/// `remaining` raw bytes. Node-like bodies here, the rest below.
#[verifier::spinoff_prover]
#[verifier::rlimit(100)]
fn read_body(r: &mut BinaryReader, hirc_type: Option<HircType>, has_feedback: bool, remaining: u32) -> (res: Result<HircBody>)
    ensures
        final(r).data() == old(r).data(),
        res is Ok <==> body_readable(hirc_type, old(r).data(), old(r).pos(), has_feedback, remaining as int),
        res matches Ok(b) ==> {
            let body = body_read_at(b, old(r).data(), old(r).pos(), has_feedback, remaining as int);
            &&& body.0
            &&& final(r).pos() == body.1
            &&& match hirc_type {
                Some(t) => body_kind_matches(spec_hirc_type_byte(t), b),
                None => b is Unknown,
            }
        },
{
    proof {
        if let Some(t) = hirc_type {
            lemma_hirc_type_byte_roundtrip(t);
        }
    }
    let body = match hirc_type {
        Some(HircType::Sound) => HircBody::Sound(SoundValues::read(r, has_feedback)?),
        Some(HircType::RanSeqCntr) => HircBody::RanSeqCntr(RanSeqCntrValues::read(r, has_feedback)?),
        Some(HircType::SwitchCntr) => HircBody::SwitchCntr(SwitchCntrValues::read(r, has_feedback)?),
        Some(HircType::ActorMixer) => HircBody::ActorMixer(ActorMixerValues::read(r, has_feedback)?),
        Some(HircType::Bus) | Some(HircType::FeedbackBus) | Some(HircType::AuxBus) => HircBody::Bus(
            BusValues::read(r, has_feedback)?,
        ),
        Some(HircType::LayerCntr) => HircBody::LayerCntr(LayerCntrValues::read(r, has_feedback)?),
        Some(HircType::FeedbackNode) => HircBody::FeedbackNode(FeedbackNodeValues::read(r, has_feedback)?),
        _ => {
            read_event_body(r, hirc_type, has_feedback, remaining)?
        },
    };
    Ok(body)
}

/// Reads an event, action, state, attenuation, effect or modulator body,
/// or passes on to the music bodies.
#[verifier::spinoff_prover]
#[verifier::rlimit(100)]
fn read_event_body(r: &mut BinaryReader, hirc_type: Option<HircType>, has_feedback: bool, remaining: u32) -> (res: Result<HircBody>)
    requires
        !(hirc_type matches Some(t) && is_node_type(t)),
    ensures
        final(r).data() == old(r).data(),
        res is Ok <==> body_readable(hirc_type, old(r).data(), old(r).pos(), has_feedback, remaining as int),
        res matches Ok(b) ==> {
            let body = body_read_at(b, old(r).data(), old(r).pos(), has_feedback, remaining as int);
            &&& body.0
            &&& final(r).pos() == body.1
            &&& match hirc_type {
                Some(t) => body_kind_matches(spec_hirc_type_byte(t), b),
                None => b is Unknown,
            }
        },
{
    proof {
        if let Some(t) = hirc_type {
            lemma_hirc_type_byte_roundtrip(t);
        }
    }
    let body = match hirc_type {
        Some(HircType::Action) => HircBody::Action(ActionValues::read(r)?),
        Some(HircType::Event) => HircBody::Event(EventValues::read(r)?),
        Some(HircType::State) => HircBody::State(StateValues::read(r)?),
        Some(HircType::Attenuation) => HircBody::Attenuation(AttenuationValues::read(r)?),
        Some(HircType::FxShareSet) | Some(HircType::FxCustom) | Some(HircType::AudioDevice) => HircBody::Fx(
            FxBaseValues::read(r)?,
        ),
        Some(HircType::LfoModulator) | Some(HircType::EnvelopeModulator) => HircBody::Modulator(
            ModulatorValues::read(r)?,
        ),
        _ => {
            read_music_body(r, hirc_type, has_feedback, remaining)?
        },
    };
    Ok(body)
}

/// Reads a dialogue event or music body; any other type reads `remaining`
/// raw bytes.
#[verifier::spinoff_prover]
#[verifier::rlimit(100)]
fn read_music_body(r: &mut BinaryReader, hirc_type: Option<HircType>, has_feedback: bool, remaining: u32) -> (res: Result<HircBody>)
    requires
        !(hirc_type matches Some(t) && (is_node_type(t) || is_event_type(t))),
    ensures
        final(r).data() == old(r).data(),
        res is Ok <==> body_readable(hirc_type, old(r).data(), old(r).pos(), has_feedback, remaining as int),
        res matches Ok(b) ==> {
            let body = body_read_at(b, old(r).data(), old(r).pos(), has_feedback, remaining as int);
            &&& body.0
            &&& final(r).pos() == body.1
            &&& match hirc_type {
                Some(t) => body_kind_matches(spec_hirc_type_byte(t), b),
                None => b is Unknown,
            }
        },
{
    proof {
        if let Some(t) = hirc_type {
            lemma_hirc_type_byte_roundtrip(t);
        }
    }
    let body = match hirc_type {
        Some(HircType::DialogueEvent) => {
            let v = DialogueEventValues::read(r)?;
            assert(body_read_at(HircBody::DialogueEvent(v), old(r).data(), old(r).pos(), has_feedback, remaining as int).0);
            assert(r.pos() == body_read_at(HircBody::DialogueEvent(v), old(r).data(), old(r).pos(), has_feedback, remaining as int).1);
            HircBody::DialogueEvent(v)
        },
        Some(HircType::MusicSegment) => {
            let v = MusicSegmentValues::read(r, has_feedback)?;
            assert(body_read_at(HircBody::MusicSegment(v), old(r).data(), old(r).pos(), has_feedback, remaining as int).0);
            assert(r.pos() == body_read_at(HircBody::MusicSegment(v), old(r).data(), old(r).pos(), has_feedback, remaining as int).1);
            HircBody::MusicSegment(v)
        },
        Some(HircType::MusicTrack) => HircBody::MusicTrack(MusicTrackValues::read(r, has_feedback)?),
        Some(HircType::MusicSwitch) => {
            let v = MusicSwitchValues::read(r, has_feedback)?;
            assert(body_read_at(HircBody::MusicSwitch(v), old(r).data(), old(r).pos(), has_feedback, remaining as int).0);
            assert(r.pos() == body_read_at(HircBody::MusicSwitch(v), old(r).data(), old(r).pos(), has_feedback, remaining as int).1);
            HircBody::MusicSwitch(v)
        },
        Some(HircType::MusicRanSeq) => {
            let v = MusicRanSeqValues::read(r, has_feedback)?;
            assert(body_read_at(HircBody::MusicRanSeq(v), old(r).data(), old(r).pos(), has_feedback, remaining as int).0);
            HircBody::MusicRanSeq(v)
        },
        _ => {
            let data = r.read_bytes(remaining as usize)?;
            HircBody::Unknown(vstd::slice::slice_to_vec(data))
        },
    };
    Ok(body)
}

/// Writes a body.
#[verifier::spinoff_prover]
#[verifier::rlimit(100)]
fn write_body(w: &mut BinaryWriter, body: &HircBody)
    requires
        body_writable(*body),
    ensures
        final(w)@ == old(w)@ + body_bytes(*body),
{
    match body {
        HircBody::Sound(v) => v.write(w),
        HircBody::Action(v) => v.write(w),
        HircBody::Event(v) => v.write(w),
        HircBody::RanSeqCntr(v) => v.write(w),
        HircBody::SwitchCntr(v) => v.write(w),
        HircBody::ActorMixer(v) => v.write(w),
        HircBody::Bus(v) => v.write(w),
        HircBody::LayerCntr(v) => v.write(w),
        HircBody::State(v) => v.write(w),
        HircBody::Attenuation(v) => v.write(w),
        HircBody::DialogueEvent(v) => v.write(w),
        HircBody::Fx(v) => v.write(w),
        HircBody::MusicSegment(v) => v.write(w),
        HircBody::MusicTrack(v) => v.write(w),
        HircBody::MusicSwitch(v) => v.write(w),
        HircBody::MusicRanSeq(v) => v.write(w),
        HircBody::FeedbackNode(v) => v.write(w),
        HircBody::Modulator(v) => v.write(w),
        HircBody::Unknown(data) => w.write_bytes(data.as_slice()),
    }
}

impl HircItem {
    /// Read a single HIRC item (type + size + id + body). The reader then
    /// skips to the end the size declares, when the body ended before it
    /// and the data reaches it.
    #[verifier::spinoff_prover]
    #[verifier::rlimit(100)]
    pub fn read(r: &mut BinaryReader, has_feedback: bool) -> (res: Result<Self>)
        ensures
            final(r).data() == old(r).data(),
            res is Ok <==> {
                let d = old(r).data();
                let p = old(r).pos();
                let size = le32_at(d, p + 1);
                &&& p + 9 <= d.len()
                &&& body_readable(
                    spec_hirc_type_from_u8(d[p]),
                    d,
                    p + 9,
                    has_feedback,
                    if size >= 4 { size - 4 } else { 0 },
                )
            },
            res matches Ok(item) ==> {
                let d = old(r).data();
                let p = old(r).pos();
                let t = d[p];
                let size = le32_at(d, p + 1);
                let remaining = if size >= 4 { size - 4 } else { 0 };
                let body = body_read_at(item.body, d, p + 9, has_feedback, remaining);
                &&& p + 9 <= d.len()
                &&& item.id == le32_at(d, p + 5)
                &&& item.hirc_type == recorded_type(t)
                &&& body_kind_matches(t, item.body)
                &&& body.0
                &&& final(r).pos() == item_end(body.1, p + 5 + size, d.len() as int)
            },
    {
        let ghost d = r.data();
        let ghost p = r.pos();
        let type_byte = r.read_u8()?;
        let section_size = r.read_u32()?;
        let start_pos = r.position();
        let id = r.read_u32()?;
        let remaining = if section_size >= 4 { section_size - 4 } else { 0 };
        let hirc_type_opt = HircType::from_u8(type_byte);
        proof {
            if let Some(x) = hirc_type_opt {
                lemma_hirc_type_byte_roundtrip(x);
            }
        }
        let body = read_body(r, hirc_type_opt, has_feedback, remaining)?;
        let ghost bpos = r.pos();
        proof {
            let size = le32_at(d, p + 1);
            let rem = if size >= 4 { size - 4 } else { 0 };
            assert(section_size == size);
            assert(remaining == rem);
            assert(body_read_at(body, d, p + 9, has_feedback, rem).0);
            assert(bpos == body_read_at(body, d, p + 9, has_feedback, rem).1);
            assert(body_kind_matches(d[p], body));
            assert(id == le32_at(d, p + 5));
        }
        let hirc_type = match hirc_type_opt {
            Some(t) => t,
            None => HircType::State,
        };
        // Skip to the end the size declares.
        let pos = r.position();
        let len = r.len();
        assert(len as int == d.len());
        assert(len <= u64::MAX) by {
            assert(usize::MAX <= u64::MAX);
        }
        if let Some(expected_end) = (start_pos as u64).checked_add(section_size as u64) {
            if (pos as u64) < expected_end && expected_end <= len as u64 {
                let skip = (expected_end - pos as u64) as usize;
                let _ = r.read_bytes(skip);
            }
        }
        proof {
            let size = le32_at(d, p + 1);
            assert(hirc_type == recorded_type(d[p]));
            assert(r.pos() == item_end(bpos, p + 5 + size, d.len() as int));
        }
        Ok(HircItem { hirc_type, id, body })
    }

    /// Write this HIRC item (type + size + id + body).
    pub fn write(&self, w: &mut BinaryWriter)
        requires
            body_writable(self.body),
        ensures
            final(w)@ == old(w)@ + item_bytes(*self),
    {
        w.write_u8(self.hirc_type.to_u8());
        // Reserve space for the size.
        let size_pos = w.position();
        w.write_u32(0);
        let content_start = w.position();
        w.write_u32(self.id);
        let ghost body_start = w@;
        write_body(w, &self.body);
        assert(w@ == body_start + body_bytes(self.body));
        let content_end = w.position();
        let size = (content_end - content_start) as u32;
        w.patch_u32(size_pos, size);
        assert(final(w)@ =~= old(w)@ + item_bytes(*self));
    }
}


/// An item whose written bytes read back: its body is of the kind its type
/// names, can be written, fits the size field, matches the bank's feedback
/// flag, and is a fixed-layout body (not a dialogue event, music segment,
/// music switch or music playlist, whose trees and marker names are read by
/// rules of their own, nor a raw unknown body, which is written under the
/// `State` type byte).
pub open spec fn item_reads_back(it: HircItem, has_feedback: bool) -> bool {
    &&& body_kind_matches(spec_hirc_type_byte(it.hirc_type), it.body)
    &&& body_writable(it.body)
    &&& 4 + body_bytes(it.body).len() <= u32::MAX
    &&& match it.body {
        HircBody::Sound(v) => v.ctx_ok(has_feedback),
        HircBody::RanSeqCntr(v) => v.ctx_ok(has_feedback),
        HircBody::SwitchCntr(v) => v.ctx_ok(has_feedback),
        HircBody::ActorMixer(v) => v.ctx_ok(has_feedback),
        HircBody::Bus(v) => v.ctx_ok(has_feedback),
        HircBody::LayerCntr(v) => v.ctx_ok(has_feedback),
        HircBody::FeedbackNode(v) => v.ctx_ok(has_feedback),
        HircBody::MusicTrack(v) => v.ctx_ok(has_feedback),
        HircBody::Action(_) | HircBody::Event(_) | HircBody::State(_) | HircBody::Attenuation(_)
        | HircBody::Fx(_) | HircBody::Modulator(_) => true,
        _ => false,
    }
}

#[verifier::spinoff_prover]
#[verifier::rlimit(100)]
proof fn lemma_written_node_body(it: HircItem, has_feedback: bool, d: Seq<u8>, q: int, rem: int)
    requires
        item_reads_back(it, has_feedback),
        encoded_at(d, q, body_bytes(it.body)),
        is_node_type(it.hirc_type) || it.hirc_type is MusicTrack,
    ensures
        body_readable(Some(it.hirc_type), d, q, has_feedback, rem),
{
    lemma_hirc_type_byte_roundtrip(it.hirc_type);
    match it.hirc_type {
        HircType::Sound => {
            let v = it.body->Sound_0;
            v.lemma_canonical(d, q);
            assert(v.decodes_at(d, q));
        },
        HircType::RanSeqCntr => {
            let v = it.body->RanSeqCntr_0;
            v.lemma_canonical(d, q);
            assert(v.decodes_at(d, q));
        },
        HircType::SwitchCntr => {
            let v = it.body->SwitchCntr_0;
            v.lemma_canonical(d, q);
            assert(v.decodes_at(d, q));
        },
        HircType::ActorMixer => {
            let v = it.body->ActorMixer_0;
            v.lemma_canonical(d, q);
            assert(v.decodes_at(d, q));
        },
        HircType::Bus => {
            let v = it.body->Bus_0;
            v.lemma_canonical(d, q);
            assert(v.decodes_at(d, q));
        },
        HircType::FeedbackBus => {
            let v = it.body->Bus_0;
            v.lemma_canonical(d, q);
            assert(v.decodes_at(d, q));
        },
        HircType::AuxBus => {
            let v = it.body->Bus_0;
            v.lemma_canonical(d, q);
            assert(v.decodes_at(d, q));
        },
        HircType::LayerCntr => {
            let v = it.body->LayerCntr_0;
            v.lemma_canonical(d, q);
            assert(v.decodes_at(d, q));
        },
        HircType::FeedbackNode => {
            let v = it.body->FeedbackNode_0;
            v.lemma_canonical(d, q);
            assert(v.decodes_at(d, q));
        },
        HircType::MusicTrack => {
            let v = it.body->MusicTrack_0;
            v.lemma_canonical(d, q);
            assert(v.decodes_at(d, q));
        },
        _ => {},
    }
}

#[verifier::spinoff_prover]
#[verifier::rlimit(100)]
proof fn lemma_written_event_body(it: HircItem, has_feedback: bool, d: Seq<u8>, q: int, rem: int)
    requires
        item_reads_back(it, has_feedback),
        encoded_at(d, q, body_bytes(it.body)),
        is_event_type(it.hirc_type),
    ensures
        body_readable(Some(it.hirc_type), d, q, has_feedback, rem),
{
    lemma_hirc_type_byte_roundtrip(it.hirc_type);
    match it.hirc_type {
        HircType::Action => {
            let v = it.body->Action_0;
            v.lemma_canonical(d, q);
            assert(v.decodes_at(d, q));
        },
        HircType::Event => {
            let v = it.body->Event_0;
            v.lemma_canonical(d, q);
            assert(v.decodes_at(d, q));
        },
        HircType::State => {
            let v = it.body->State_0;
            v.lemma_canonical(d, q);
            assert(v.decodes_at(d, q));
        },
        HircType::Attenuation => {
            let v = it.body->Attenuation_0;
            v.lemma_canonical(d, q);
            assert(v.decodes_at(d, q));
        },
        HircType::FxShareSet => {
            let v = it.body->Fx_0;
            v.lemma_canonical(d, q);
            assert(v.decodes_at(d, q));
        },
        HircType::FxCustom => {
            let v = it.body->Fx_0;
            v.lemma_canonical(d, q);
            assert(v.decodes_at(d, q));
        },
        HircType::AudioDevice => {
            let v = it.body->Fx_0;
            v.lemma_canonical(d, q);
            assert(v.decodes_at(d, q));
        },
        HircType::LfoModulator => {
            let v = it.body->Modulator_0;
            v.lemma_canonical(d, q);
            assert(v.decodes_at(d, q));
        },
        HircType::EnvelopeModulator => {
            let v = it.body->Modulator_0;
            v.lemma_canonical(d, q);
            assert(v.decodes_at(d, q));
        },
        _ => {},
    }
}

/// The bytes written for an item read back: reading them succeeds, with the
/// item's ID, its type, and a body of its kind read from the same bytes as
/// the item's own body.
pub proof fn lemma_item_round_trip(it: HircItem, has_feedback: bool, d: Seq<u8>, p: int)
    requires
        item_reads_back(it, has_feedback),
        encoded_at(d, p, item_bytes(it)),
    ensures
        ({
            let size = le32_at(d, p + 1);
            &&& p + 9 <= d.len()
            &&& recorded_type(d[p]) == it.hirc_type
            &&& le32_at(d, p + 5) == it.id
            &&& size == 4 + body_bytes(it.body).len()
            &&& body_readable(
                spec_hirc_type_from_u8(d[p]),
                d,
                p + 9,
                has_feedback,
                if size >= 4 { size - 4 } else { 0 },
            )
        }),
{
    let bb = body_bytes(it.body);
    let ib = item_bytes(it);
    let q = p + 9;
    lemma_hirc_type_byte_roundtrip(it.hirc_type);
    assert(d[p] == ib[0]);
    assert(d.subrange(p + 1, p + 5) =~= spec_u32_to_le_bytes((4 + bb.len()) as u32));
    assert(d.subrange(p + 5, p + 9) =~= spec_u32_to_le_bytes(it.id));
    assert(d.subrange(q, q + bb.len()) =~= bb);
    let size = le32_at(d, p + 1);
    let rem = if size >= 4 { size - 4 } else { 0 };
    if is_event_type(it.hirc_type) {
        lemma_written_event_body(it, has_feedback, d, q, rem);
    } else {
        lemma_written_node_body(it, has_feedback, d, q, rem);
    }
}

} // verus!
