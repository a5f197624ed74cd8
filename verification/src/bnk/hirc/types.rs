//! HIRC enums and type definitions.

use vstd::prelude::*;

verus! {

/// HIRC item type identifier.
#[derive(Debug, Clone, Copy, PartialEq, Eq, Structural, Hash)]
pub enum HircType {
    State,
    Sound,
    Action,
    Event,
    RanSeqCntr,
    SwitchCntr,
    ActorMixer,
    Bus,
    LayerCntr,
    MusicSegment,
    MusicTrack,
    MusicSwitch,
    MusicRanSeq,
    Attenuation,
    DialogueEvent,
    FeedbackBus,
    FeedbackNode,
    FxShareSet,
    FxCustom,
    AuxBus,
    LfoModulator,
    EnvelopeModulator,
    AudioDevice,
}

/// The type byte of each HIRC item type (1 to 23, in declaration order).
pub open spec fn spec_hirc_type_byte(t: HircType) -> u8 {
    match t {
        HircType::State => 1,
        HircType::Sound => 2,
        HircType::Action => 3,
        HircType::Event => 4,
        HircType::RanSeqCntr => 5,
        HircType::SwitchCntr => 6,
        HircType::ActorMixer => 7,
        HircType::Bus => 8,
        HircType::LayerCntr => 9,
        HircType::MusicSegment => 10,
        HircType::MusicTrack => 11,
        HircType::MusicSwitch => 12,
        HircType::MusicRanSeq => 13,
        HircType::Attenuation => 14,
        HircType::DialogueEvent => 15,
        HircType::FeedbackBus => 16,
        HircType::FeedbackNode => 17,
        HircType::FxShareSet => 18,
        HircType::FxCustom => 19,
        HircType::AuxBus => 20,
        HircType::LfoModulator => 21,
        HircType::EnvelopeModulator => 22,
        HircType::AudioDevice => 23,
    }
}

/// The item type with type byte `v`, if any.
pub open spec fn spec_hirc_type_from_u8(v: u8) -> Option<HircType> {
    if 1 <= v <= 23 {
        Some(choose|t: HircType| spec_hirc_type_byte(t) == v)
    } else {
        None
    }
}

/// The name of each HIRC item type.
pub open spec fn spec_hirc_type_name(t: HircType) -> Seq<char> {
    match t {
        HircType::State => "State"@,
        HircType::Sound => "Sound"@,
        HircType::Action => "Action"@,
        HircType::Event => "Event"@,
        HircType::RanSeqCntr => "RanSeqCntr"@,
        HircType::SwitchCntr => "SwitchCntr"@,
        HircType::ActorMixer => "ActorMixer"@,
        HircType::Bus => "Bus"@,
        HircType::LayerCntr => "LayerCntr"@,
        HircType::MusicSegment => "MusicSegment"@,
        HircType::MusicTrack => "MusicTrack"@,
        HircType::MusicSwitch => "MusicSwitch"@,
        HircType::MusicRanSeq => "MusicRanSeq"@,
        HircType::Attenuation => "Attenuation"@,
        HircType::DialogueEvent => "DialogueEvent"@,
        HircType::FeedbackBus => "FeedbackBus"@,
        HircType::FeedbackNode => "FeedbackNode"@,
        HircType::FxShareSet => "FxShareSet"@,
        HircType::FxCustom => "FxCustom"@,
        HircType::AuxBus => "AuxBus"@,
        HircType::LfoModulator => "LfoModulator"@,
        HircType::EnvelopeModulator => "EnvelopeModulator"@,
        HircType::AudioDevice => "AudioDevice"@,
    }
}

impl HircType {
    /// Try to convert a raw `u8` to a `HircType`.
    pub fn from_u8(v: u8) -> (t: Option<Self>)
        ensures
            t is Some <==> 1 <= v <= 23,
            t matches Some(x) ==> spec_hirc_type_byte(x) == v,
    {
        match v {
            1 => Some(Self::State),
            2 => Some(Self::Sound),
            3 => Some(Self::Action),
            4 => Some(Self::Event),
            5 => Some(Self::RanSeqCntr),
            6 => Some(Self::SwitchCntr),
            7 => Some(Self::ActorMixer),
            8 => Some(Self::Bus),
            9 => Some(Self::LayerCntr),
            10 => Some(Self::MusicSegment),
            11 => Some(Self::MusicTrack),
            12 => Some(Self::MusicSwitch),
            13 => Some(Self::MusicRanSeq),
            14 => Some(Self::Attenuation),
            15 => Some(Self::DialogueEvent),
            16 => Some(Self::FeedbackBus),
            17 => Some(Self::FeedbackNode),
            18 => Some(Self::FxShareSet),
            19 => Some(Self::FxCustom),
            20 => Some(Self::AuxBus),
            21 => Some(Self::LfoModulator),
            22 => Some(Self::EnvelopeModulator),
            23 => Some(Self::AudioDevice),
            _ => None,
        }
    }

    /// The type byte of this item type.
    pub fn to_u8(self) -> (v: u8)
        ensures
            v == spec_hirc_type_byte(self),
    {
        match self {
            Self::State => 1,
            Self::Sound => 2,
            Self::Action => 3,
            Self::Event => 4,
            Self::RanSeqCntr => 5,
            Self::SwitchCntr => 6,
            Self::ActorMixer => 7,
            Self::Bus => 8,
            Self::LayerCntr => 9,
            Self::MusicSegment => 10,
            Self::MusicTrack => 11,
            Self::MusicSwitch => 12,
            Self::MusicRanSeq => 13,
            Self::Attenuation => 14,
            Self::DialogueEvent => 15,
            Self::FeedbackBus => 16,
            Self::FeedbackNode => 17,
            Self::FxShareSet => 18,
            Self::FxCustom => 19,
            Self::AuxBus => 20,
            Self::LfoModulator => 21,
            Self::EnvelopeModulator => 22,
            Self::AudioDevice => 23,
        }
    }

    /// The display name of this item type.
    pub fn name(self) -> (s: &'static str)
        ensures
            s@ == spec_hirc_type_name(self),
    {
        match self {
            Self::State => "State",
            Self::Sound => "Sound",
            Self::Action => "Action",
            Self::Event => "Event",
            Self::RanSeqCntr => "RanSeqCntr",
            Self::SwitchCntr => "SwitchCntr",
            Self::ActorMixer => "ActorMixer",
            Self::Bus => "Bus",
            Self::LayerCntr => "LayerCntr",
            Self::MusicSegment => "MusicSegment",
            Self::MusicTrack => "MusicTrack",
            Self::MusicSwitch => "MusicSwitch",
            Self::MusicRanSeq => "MusicRanSeq",
            Self::Attenuation => "Attenuation",
            Self::DialogueEvent => "DialogueEvent",
            Self::FeedbackBus => "FeedbackBus",
            Self::FeedbackNode => "FeedbackNode",
            Self::FxShareSet => "FxShareSet",
            Self::FxCustom => "FxCustom",
            Self::AuxBus => "AuxBus",
            Self::LfoModulator => "LfoModulator",
            Self::EnvelopeModulator => "EnvelopeModulator",
            Self::AudioDevice => "AudioDevice",
        }
    }
}

/// Reading an item type's byte back gives the item type.
pub proof fn lemma_hirc_type_byte_roundtrip(t: HircType)
    ensures
        spec_hirc_type_from_u8(spec_hirc_type_byte(t)) == Some(t),
{
    let v = spec_hirc_type_byte(t);
    let c = choose|x: HircType| spec_hirc_type_byte(x) == v;
    assert(spec_hirc_type_byte(t) == v);
    assert(c == t);
}

/// The Wwise type byte of every HIRC item type: State 1, Sound 2, Action 3,
/// Event 4, random/sequence container 5, switch container 6, actor-mixer 7,
/// bus 8, layer container 9, music segment 10, music track 11, music switch
/// 12, music random/sequence 13, attenuation 14, dialogue event 15, feedback
/// bus 16, feedback node 17, effect share set 18, custom effect 19, auxiliary
/// bus 20, LFO modulator 21, envelope modulator 22, audio device 23; and the
/// byte of each is read as that type.
pub proof fn lemma_hirc_type_bytes()
    ensures
        spec_hirc_type_byte(HircType::State) == 1,
        spec_hirc_type_byte(HircType::Sound) == 2,
        spec_hirc_type_byte(HircType::Action) == 3,
        spec_hirc_type_byte(HircType::Event) == 4,
        spec_hirc_type_byte(HircType::RanSeqCntr) == 5,
        spec_hirc_type_byte(HircType::SwitchCntr) == 6,
        spec_hirc_type_byte(HircType::ActorMixer) == 7,
        spec_hirc_type_byte(HircType::Bus) == 8,
        spec_hirc_type_byte(HircType::LayerCntr) == 9,
        spec_hirc_type_byte(HircType::MusicSegment) == 10,
        spec_hirc_type_byte(HircType::MusicTrack) == 11,
        spec_hirc_type_byte(HircType::MusicSwitch) == 12,
        spec_hirc_type_byte(HircType::MusicRanSeq) == 13,
        spec_hirc_type_byte(HircType::Attenuation) == 14,
        spec_hirc_type_byte(HircType::DialogueEvent) == 15,
        spec_hirc_type_byte(HircType::FeedbackBus) == 16,
        spec_hirc_type_byte(HircType::FeedbackNode) == 17,
        spec_hirc_type_byte(HircType::FxShareSet) == 18,
        spec_hirc_type_byte(HircType::FxCustom) == 19,
        spec_hirc_type_byte(HircType::AuxBus) == 20,
        spec_hirc_type_byte(HircType::LfoModulator) == 21,
        spec_hirc_type_byte(HircType::EnvelopeModulator) == 22,
        spec_hirc_type_byte(HircType::AudioDevice) == 23,
        spec_hirc_type_from_u8(1u8) == Some(HircType::State),
        spec_hirc_type_from_u8(2u8) == Some(HircType::Sound),
        spec_hirc_type_from_u8(3u8) == Some(HircType::Action),
        spec_hirc_type_from_u8(4u8) == Some(HircType::Event),
        spec_hirc_type_from_u8(5u8) == Some(HircType::RanSeqCntr),
        spec_hirc_type_from_u8(6u8) == Some(HircType::SwitchCntr),
        spec_hirc_type_from_u8(7u8) == Some(HircType::ActorMixer),
        spec_hirc_type_from_u8(8u8) == Some(HircType::Bus),
        spec_hirc_type_from_u8(9u8) == Some(HircType::LayerCntr),
        spec_hirc_type_from_u8(10u8) == Some(HircType::MusicSegment),
        spec_hirc_type_from_u8(11u8) == Some(HircType::MusicTrack),
        spec_hirc_type_from_u8(12u8) == Some(HircType::MusicSwitch),
        spec_hirc_type_from_u8(13u8) == Some(HircType::MusicRanSeq),
        spec_hirc_type_from_u8(14u8) == Some(HircType::Attenuation),
        spec_hirc_type_from_u8(15u8) == Some(HircType::DialogueEvent),
        spec_hirc_type_from_u8(16u8) == Some(HircType::FeedbackBus),
        spec_hirc_type_from_u8(17u8) == Some(HircType::FeedbackNode),
        spec_hirc_type_from_u8(18u8) == Some(HircType::FxShareSet),
        spec_hirc_type_from_u8(19u8) == Some(HircType::FxCustom),
        spec_hirc_type_from_u8(20u8) == Some(HircType::AuxBus),
        spec_hirc_type_from_u8(21u8) == Some(HircType::LfoModulator),
        spec_hirc_type_from_u8(22u8) == Some(HircType::EnvelopeModulator),
        spec_hirc_type_from_u8(23u8) == Some(HircType::AudioDevice),
        spec_hirc_type_from_u8(0u8) == None::<HircType>,
{
    lemma_hirc_type_byte_roundtrip(HircType::State);
    lemma_hirc_type_byte_roundtrip(HircType::Sound);
    lemma_hirc_type_byte_roundtrip(HircType::Action);
    lemma_hirc_type_byte_roundtrip(HircType::Event);
    lemma_hirc_type_byte_roundtrip(HircType::RanSeqCntr);
    lemma_hirc_type_byte_roundtrip(HircType::SwitchCntr);
    lemma_hirc_type_byte_roundtrip(HircType::ActorMixer);
    lemma_hirc_type_byte_roundtrip(HircType::Bus);
    lemma_hirc_type_byte_roundtrip(HircType::LayerCntr);
    lemma_hirc_type_byte_roundtrip(HircType::MusicSegment);
    lemma_hirc_type_byte_roundtrip(HircType::MusicTrack);
    lemma_hirc_type_byte_roundtrip(HircType::MusicSwitch);
    lemma_hirc_type_byte_roundtrip(HircType::MusicRanSeq);
    lemma_hirc_type_byte_roundtrip(HircType::Attenuation);
    lemma_hirc_type_byte_roundtrip(HircType::DialogueEvent);
    lemma_hirc_type_byte_roundtrip(HircType::FeedbackBus);
    lemma_hirc_type_byte_roundtrip(HircType::FeedbackNode);
    lemma_hirc_type_byte_roundtrip(HircType::FxShareSet);
    lemma_hirc_type_byte_roundtrip(HircType::FxCustom);
    lemma_hirc_type_byte_roundtrip(HircType::AuxBus);
    lemma_hirc_type_byte_roundtrip(HircType::LfoModulator);
    lemma_hirc_type_byte_roundtrip(HircType::EnvelopeModulator);
    lemma_hirc_type_byte_roundtrip(HircType::AudioDevice);
}

/// Action type (u16 in the binary format).
#[derive(Debug, Clone, Copy, PartialEq, Eq, Structural, Hash)]
pub struct ActionType(pub u16);

/// Action category — determines which params struct an action uses.
#[derive(Debug, Clone, Copy, PartialEq, Eq, Structural)]
pub enum ActionCategory {
    /// Actions that carry no parameters (named `NoParams` so as not to clash
    /// with `Option::None`).
    NoParams,
    PlayEvent,
    Play,
    Active,
    State,
    Switch,
    GameParam,
    Value,
    BypassFX,
    Seek,
    Event,
    Unknown,
}

pub open spec fn spec_is_stop(v: u16) -> bool {
    v == 0x0102 || v == 0x0103 || v == 0x0104 || v == 0x0105 || v == 0x0108 || v == 0x0109
}

pub open spec fn spec_is_pause(v: u16) -> bool {
    v == 0x0202 || v == 0x0203 || v == 0x0204 || v == 0x0205 || v == 0x0208 || v == 0x0209
}

pub open spec fn spec_is_resume(v: u16) -> bool {
    v == 0x0302 || v == 0x0303 || v == 0x0304 || v == 0x0305 || v == 0x0308 || v == 0x0309
}

pub open spec fn spec_is_active(v: u16) -> bool {
    spec_is_stop(v) || spec_is_pause(v) || spec_is_resume(v)
}

pub open spec fn spec_is_seek(v: u16) -> bool {
    v == 0x1E02 || v == 0x1E03 || v == 0x1E04 || v == 0x1E05 || v == 0x1E08 || v == 0x1E09
}

pub open spec fn spec_is_game_param(v: u16) -> bool {
    v == 0x1302 || v == 0x1303 || v == 0x1402 || v == 0x1403
}

pub open spec fn spec_is_value(v: u16) -> bool {
    // Mute/Unmute
    ||| v == 0x0602 || v == 0x0603 || v == 0x0702 || v == 0x0703 || v == 0x0704 || v == 0x0705
        || v == 0x0708 || v == 0x0709
    // SetVolume/ResetVolume
    ||| v == 0x0A02 || v == 0x0A03 || v == 0x0B02 || v == 0x0B03 || v == 0x0B04 || v == 0x0B05
        || v == 0x0B08 || v == 0x0B09
    // SetPitch/ResetPitch
    ||| v == 0x0802 || v == 0x0803 || v == 0x0902 || v == 0x0903 || v == 0x0904 || v == 0x0905
        || v == 0x0908 || v == 0x0909
    // SetLPF/ResetLPF
    ||| v == 0x0E02 || v == 0x0E03 || v == 0x0F02 || v == 0x0F03 || v == 0x0F04 || v == 0x0F05
        || v == 0x0F08 || v == 0x0F09
    // SetHPF/ResetHPF
    ||| v == 0x2002 || v == 0x2003 || v == 0x3002 || v == 0x3003 || v == 0x3004 || v == 0x3005
        || v == 0x3008 || v == 0x3009
    // SetBusVolume/ResetBusVolume
    ||| v == 0x0C02 || v == 0x0C03 || v == 0x0D02 || v == 0x0D03 || v == 0x0D04 || v == 0x0D08
}

pub open spec fn spec_is_bypass_fx(v: u16) -> bool {
    ||| v == 0x1A02 || v == 0x1A03 || v == 0x1B02 || v == 0x1B03 || v == 0x1B04 || v == 0x1B05
    ||| v == 0x1B08 || v == 0x1B09 || v == 0x3302 || v == 0x3303 || v == 0x3402 || v == 0x3403
    ||| v == 0x3404 || v == 0x3405 || v == 0x3502 || v == 0x3503 || v == 0x3602 || v == 0x3603
    ||| v == 0x3604 || v == 0x3605 || v == 0x3702 || v == 0x3703 || v == 0x3704 || v == 0x3705
}

pub open spec fn spec_is_none_params(v: u16) -> bool {
    // UseState/UnuseState, Break
    ||| v == 0x1002 || v == 0x1102 || v == 0x1C02 || v == 0x1C03
    // Trigger
    ||| v == 0x1D00 || v == 0x1D01 || v == 0x1D02 || v == 0x1D03 || v == 0x1B00 || v == 0x1B01
    // Duck, Release, ResetPlaylist
    ||| v == 0x1820 || v == 0x1F02 || v == 0x1F03 || v == 0x2202 || v == 0x2203
    // SetFX
    ||| v == 0x3102 || v == 0x3202 || v == 0x3204
    // StopEvent/PauseEvent/ResumeEvent, NoOp/None
    ||| v == 0x1511 || v == 0x1611 || v == 0x1711 || v == 0x4000 || v == 0x0000
}

/// The category of an action type, tested in this order: PlayEvent, Play,
/// Active, State, Switch, GameParam, Value, BypassFX, Seek, NoParams; else Unknown.
pub open spec fn spec_category(v: u16) -> ActionCategory {
    if v == 0x2103 {
        ActionCategory::PlayEvent
    } else if v == 0x0403 || v == 0x0503 || v == 0x2303 {
        ActionCategory::Play
    } else if spec_is_active(v) {
        ActionCategory::Active
    } else if v == 0x1204 {
        ActionCategory::State
    } else if v == 0x1901 {
        ActionCategory::Switch
    } else if spec_is_game_param(v) {
        ActionCategory::GameParam
    } else if spec_is_value(v) {
        ActionCategory::Value
    } else if spec_is_bypass_fx(v) {
        ActionCategory::BypassFX
    } else if spec_is_seek(v) {
        ActionCategory::Seek
    } else if spec_is_none_params(v) {
        ActionCategory::NoParams
    } else {
        ActionCategory::Unknown
    }
}

/// Which Wwise action types fall in each category: Play Event is 0x2103;
/// Play is 0x0403, 0x0503 and 0x2303; the Stop (0x01xx), Pause (0x02xx) and
/// Resume (0x03xx) actions with scopes 02 to 05, 08 and 09 are Active; Set
/// State is 0x1204 and Set Switch 0x1901; the game-parameter actions are
/// 0x1302, 0x1303, 0x1402 and 0x1403; the Seek actions (0x1Exx) are Seek; and
/// each action type falls in exactly one category.
pub proof fn lemma_action_categories(v: u16)
    ensures
        spec_category(v) == ActionCategory::PlayEvent <==> v == 0x2103,
        spec_category(v) == ActionCategory::Play <==> (v == 0x0403 || v == 0x0503 || v == 0x2303),
        spec_category(v) == ActionCategory::Active <==> (
        // Stop
        v == 0x0102 || v == 0x0103 || v == 0x0104 || v == 0x0105 || v == 0x0108 || v == 0x0109
        // Pause
        || v == 0x0202 || v == 0x0203 || v == 0x0204 || v == 0x0205 || v == 0x0208 || v == 0x0209
        // Resume
        || v == 0x0302 || v == 0x0303 || v == 0x0304 || v == 0x0305 || v == 0x0308 || v == 0x0309),
        spec_category(v) == ActionCategory::State <==> v == 0x1204,
        spec_category(v) == ActionCategory::Switch <==> v == 0x1901,
        spec_category(v) == ActionCategory::GameParam <==> (v == 0x1302 || v == 0x1303 || v == 0x1402
            || v == 0x1403),
        spec_category(v) == ActionCategory::Seek <==> (v == 0x1E02 || v == 0x1E03 || v == 0x1E04
            || v == 0x1E05 || v == 0x1E08 || v == 0x1E09),
        spec_category(v) == ActionCategory::Value <==> (
        // Mute/Unmute
        v == 0x0602 || v == 0x0603 || v == 0x0702 || v == 0x0703 || v == 0x0704 || v == 0x0705
        || v == 0x0708 || v == 0x0709
        // SetVolume/ResetVolume
        || v == 0x0A02 || v == 0x0A03 || v == 0x0B02 || v == 0x0B03 || v == 0x0B04 || v == 0x0B05
        || v == 0x0B08 || v == 0x0B09
        // SetPitch/ResetPitch
        || v == 0x0802 || v == 0x0803 || v == 0x0902 || v == 0x0903 || v == 0x0904 || v == 0x0905
        || v == 0x0908 || v == 0x0909
        // SetLPF/ResetLPF
        || v == 0x0E02 || v == 0x0E03 || v == 0x0F02 || v == 0x0F03 || v == 0x0F04 || v == 0x0F05
        || v == 0x0F08 || v == 0x0F09
        // SetHPF/ResetHPF
        || v == 0x2002 || v == 0x2003 || v == 0x3002 || v == 0x3003 || v == 0x3004 || v == 0x3005
        || v == 0x3008 || v == 0x3009
        // SetBusVolume/ResetBusVolume
        || v == 0x0C02 || v == 0x0C03 || v == 0x0D02 || v == 0x0D03 || v == 0x0D04 || v == 0x0D08),
        spec_category(v) == ActionCategory::BypassFX <==> (
        v == 0x1A02 || v == 0x1A03 || v == 0x1B02 || v == 0x1B03 || v == 0x1B04 || v == 0x1B05
        || v == 0x1B08 || v == 0x1B09 || v == 0x3302 || v == 0x3303 || v == 0x3402 || v == 0x3403
        || v == 0x3404 || v == 0x3405 || v == 0x3502 || v == 0x3503 || v == 0x3602 || v == 0x3603
        || v == 0x3604 || v == 0x3605 || v == 0x3702 || v == 0x3703 || v == 0x3704 || v == 0x3705),
        spec_category(v) == ActionCategory::NoParams <==> (
        // UseState/UnuseState, Break
        v == 0x1002 || v == 0x1102 || v == 0x1C02 || v == 0x1C03
        // Trigger
        || v == 0x1D00 || v == 0x1D01 || v == 0x1D02 || v == 0x1D03 || v == 0x1B00 || v == 0x1B01
        // Duck, Release, ResetPlaylist
        || v == 0x1820 || v == 0x1F02 || v == 0x1F03 || v == 0x2202 || v == 0x2203
        // SetFX
        || v == 0x3102 || v == 0x3202 || v == 0x3204
        // StopEvent/PauseEvent/ResumeEvent, NoOp/None
        || v == 0x1511 || v == 0x1611 || v == 0x1711 || v == 0x4000 || v == 0x0000),
{
}

// Well-known action type values.
impl ActionType {
    pub const NONE: u16 = 0x0000;
    pub const PLAY: u16 = 0x0403;
    pub const PLAY_AND_CONTINUE: u16 = 0x0503;
    pub const PLAY_EVENT: u16 = 0x2103;
    pub const PLAY_EVENT_UNKNOWN_O: u16 = 0x2303;
    pub const SET_STATE: u16 = 0x1204;
    pub const SET_SWITCH: u16 = 0x1901;
    pub const DUCK: u16 = 0x1820;
    pub const NO_OP: u16 = 0x4000;
    pub const STOP_EVENT: u16 = 0x1511;
    pub const PAUSE_EVENT: u16 = 0x1611;
    pub const RESUME_EVENT: u16 = 0x1711;

    /// Determine the action category for dispatch.
    pub fn category(self) -> (c: ActionCategory)
        ensures
            c == spec_category(self.0),
    {
        // PlayEvent must be checked BEFORE Play
        if self.0 == Self::PLAY_EVENT {
            return ActionCategory::PlayEvent;
        }
        if self.0 == 0x0403 || self.0 == 0x0503 || self.0 == 0x2303 {
            return ActionCategory::Play;
        }
        if self.is_active() {
            return ActionCategory::Active;
        }
        if self.0 == Self::SET_STATE {
            return ActionCategory::State;
        }
        if self.0 == Self::SET_SWITCH {
            return ActionCategory::Switch;
        }
        if self.is_game_param() {
            return ActionCategory::GameParam;
        }
        if self.is_value() {
            return ActionCategory::Value;
        }
        if self.is_bypass_fx() {
            return ActionCategory::BypassFX;
        }
        if self.is_seek() {
            return ActionCategory::Seek;
        }
        if self.is_none_params() {
            return ActionCategory::NoParams;
        }
        ActionCategory::Unknown
    }

    fn is_stop(self) -> (b: bool)
        ensures
            b == spec_is_stop(self.0),
    {
        let v = self.0;
        v == 0x0102 || v == 0x0103 || v == 0x0104 || v == 0x0105 || v == 0x0108 || v == 0x0109
    }

    fn is_pause(self) -> (b: bool)
        ensures
            b == spec_is_pause(self.0),
    {
        let v = self.0;
        v == 0x0202 || v == 0x0203 || v == 0x0204 || v == 0x0205 || v == 0x0208 || v == 0x0209
    }

    fn is_resume(self) -> (b: bool)
        ensures
            b == spec_is_resume(self.0),
    {
        let v = self.0;
        v == 0x0302 || v == 0x0303 || v == 0x0304 || v == 0x0305 || v == 0x0308 || v == 0x0309
    }

    fn is_active(self) -> (b: bool)
        ensures
            b == spec_is_active(self.0),
    {
        self.is_stop() || self.is_pause() || self.is_resume()
    }

    fn is_seek(self) -> (b: bool)
        ensures
            b == spec_is_seek(self.0),
    {
        let v = self.0;
        v == 0x1E02 || v == 0x1E03 || v == 0x1E04 || v == 0x1E05 || v == 0x1E08 || v == 0x1E09
    }

    fn is_game_param(self) -> (b: bool)
        ensures
            b == spec_is_game_param(self.0),
    {
        let v = self.0;
        v == 0x1302 || v == 0x1303 || v == 0x1402 || v == 0x1403
    }

    fn is_value(self) -> (b: bool)
        ensures
            b == spec_is_value(self.0),
    {
        let v = self.0;
        (v == 0x0602 || v == 0x0603 || v == 0x0702 || v == 0x0703 || v == 0x0704 || v == 0x0705
            || v == 0x0708 || v == 0x0709) || (v == 0x0A02 || v == 0x0A03 || v == 0x0B02 || v
            == 0x0B03 || v == 0x0B04 || v == 0x0B05 || v == 0x0B08 || v == 0x0B09) || (v == 0x0802
            || v == 0x0803 || v == 0x0902 || v == 0x0903 || v == 0x0904 || v == 0x0905 || v
            == 0x0908 || v == 0x0909) || (v == 0x0E02 || v == 0x0E03 || v == 0x0F02 || v == 0x0F03
            || v == 0x0F04 || v == 0x0F05 || v == 0x0F08 || v == 0x0F09) || (v == 0x2002 || v
            == 0x2003 || v == 0x3002 || v == 0x3003 || v == 0x3004 || v == 0x3005 || v == 0x3008
            || v == 0x3009) || (v == 0x0C02 || v == 0x0C03 || v == 0x0D02 || v == 0x0D03 || v
            == 0x0D04 || v == 0x0D08)
    }

    fn is_bypass_fx(self) -> (b: bool)
        ensures
            b == spec_is_bypass_fx(self.0),
    {
        let v = self.0;
        (v == 0x1A02 || v == 0x1A03 || v == 0x1B02 || v == 0x1B03 || v == 0x1B04 || v == 0x1B05)
            || (v == 0x1B08 || v == 0x1B09 || v == 0x3302 || v == 0x3303 || v == 0x3402 || v
            == 0x3403) || (v == 0x3404 || v == 0x3405 || v == 0x3502 || v == 0x3503 || v == 0x3602
            || v == 0x3603) || (v == 0x3604 || v == 0x3605 || v == 0x3702 || v == 0x3703 || v
            == 0x3704 || v == 0x3705)
    }

    fn is_none_params(self) -> (b: bool)
        ensures
            b == spec_is_none_params(self.0),
    {
        let v = self.0;
        (v == 0x1002 || v == 0x1102 || v == 0x1C02 || v == 0x1C03) || (v == 0x1D00 || v == 0x1D01
            || v == 0x1D02 || v == 0x1D03 || v == 0x1B00 || v == 0x1B01) || (v == 0x1820 || v
            == 0x1F02 || v == 0x1F03 || v == 0x2202 || v == 0x2203) || (v == 0x3102 || v == 0x3202
            || v == 0x3204) || (v == 0x1511 || v == 0x1611 || v == 0x1711 || v == 0x4000 || v
            == 0x0000)
    }
}

} // verus!
