//! Turning incoming MIDI messages into what the pedal is sent: program changes
//! pass through, mapped control changes become SysEx parameter edits or the
//! tuner control change, everything else is dropped.
use vstd::prelude::*;
use vstd::slice::{slice_subrange, slice_to_vec};

use crate::config::{
    action_in_range, validate_defined, lemma_validated_mapping, lemma_validated_unmapped,
    settings_well_formed, spec_map_action, spec_validate, MappedCcAction, RawConfigView, Settings,
    SettingsView, CC_COUNT,
};
use crate::text::{byte_list_text, push_byte_list, push_text};

verus! {

/// The high nibble of a program change status byte.
pub const PROGRAM_CHANGE: u8 = 0xC;

/// The high nibble of a control change status byte.
pub const CONTROL_CHANGE: u8 = 0xB;

/// The control change number that switches the pedal's tuner.
pub const TUNER_CC: u8 = 0x4A;

/// A message to send: either a borrowed part of the incoming message, or a
/// generated one, of which the first `len` bytes are sent.
#[derive(Debug)]
pub enum TranslatedMessage<'a> {
    Forward(&'a [u8]),
    Generated { bytes: [u8; 10], len: usize },
}

/// Why an incoming message could not be read; the longer ones keep the message.
#[derive(Debug)]
pub enum TranslateError {
    EmptyMessage,
    ProgramChangeTooShort(Vec<u8>),
    ControlChangeTooShort(Vec<u8>),
}

/// The kinds of `TranslateError`.
pub enum TranslateFailure {
    EmptyMessage,
    ProgramChangeTooShort,
    ControlChangeTooShort,
}

/// What becomes of an incoming message.
pub enum Translation {
    /// The message is malformed.
    Rejected(TranslateFailure),
    /// Nothing is sent.
    Ignored,
    /// These bytes of the message are sent as they are.
    Forwarded(Seq<u8>),
    /// A message is generated: `len` of these ten bytes are sent.
    Generated { bytes: Seq<u8>, len: nat },
}

/// Translates incoming messages for one channel and one table of mappings.
pub struct Translator {
    listen_channel_zero_based: u8,
    cc_actions: [Option<MappedCcAction>; 128],
}

/// The channel and the mapping table of a `Translator`.
pub struct TranslatorView {
    pub listen_channel_zero_based: u8,
    pub cc_actions: Seq<Option<MappedCcAction>>,
}

impl View for Translator {
    type V = TranslatorView;

    closed spec fn view(&self) -> TranslatorView {
        TranslatorView {
            listen_channel_zero_based: self.listen_channel_zero_based,
            cc_actions: self.cc_actions@,
        }
    }
}

impl<'a> TranslatedMessage<'a> {
    /// The bytes that are sent for this message.
    pub open spec fn sent_bytes(&self) -> Seq<u8> {
        match self {
            TranslatedMessage::Forward(b) => b@,
            TranslatedMessage::Generated { bytes, len } => bytes@.take(*len as int),
        }
    }
}

impl TranslateError {
    /// The kind of this error.
    pub open spec fn failure(&self) -> TranslateFailure {
        match self {
            TranslateError::EmptyMessage => TranslateFailure::EmptyMessage,
            TranslateError::ProgramChangeTooShort(_) => TranslateFailure::ProgramChangeTooShort,
            TranslateError::ControlChangeTooShort(_) => TranslateFailure::ControlChangeTooShort,
        }
    }

    /// The message that this error keeps (nothing for an empty one).
    pub open spec fn received(&self) -> Seq<u8> {
        match self {
            TranslateError::EmptyMessage => Seq::empty(),
            TranslateError::ProgramChangeTooShort(v) => v@,
            TranslateError::ControlChangeTooShort(v) => v@,
        }
    }
}

/// The text that reports a translation error.
pub open spec fn translate_error_text(e: TranslateError) -> Seq<char> {
    match e {
        TranslateError::EmptyMessage => "received empty MIDI message"@,
        TranslateError::ProgramChangeTooShort(v) => "program change message too short: "@
            + byte_list_text(v@),
        TranslateError::ControlChangeTooShort(v) => "control change message too short: "@
            + byte_list_text(v@),
    }
}

impl TranslateError {
    /// The text that reports this error.
    pub fn message(&self) -> (text: String)
        ensures
            text@ == translate_error_text(*self),
    {
        let mut s = String::new();
        match self {
            TranslateError::EmptyMessage => push_text(&mut s, "received empty MIDI message"),
            TranslateError::ProgramChangeTooShort(v) => {
                push_text(&mut s, "program change message too short: ");
                push_byte_list(&mut s, v.as_slice());
            },
            TranslateError::ControlChangeTooShort(v) => {
                push_text(&mut s, "control change message too short: ");
                push_byte_list(&mut s, v.as_slice());
            },
        }
        s
    }
}

/// The channel of a status byte (its low nibble).
pub open spec fn status_channel(status: u8) -> u8 {
    status % 16
}

/// The message type of a status byte (its high nibble).
pub open spec fn status_kind(status: u8) -> u8 {
    status / 16
}

/// The edit-mode SysEx that the pedal expects before it accepts parameter edits.
pub open spec fn startup_message_spec() -> Seq<u8> {
    seq![0xF0u8, 0x52u8, 0x00u8, 0x58u8, 0x50u8, 0xF7u8]
}

/// The SysEx that sets parameter `param_num` of the effect in slot
/// `effect_position` to `param_value`.
pub open spec fn effect_param_sysex(effect_position: u8, param_num: u8, param_value: u8) -> Seq<
    u8,
> {
    seq![0xF0u8, 0x52u8, 0x00u8, 0x58u8, 0x31u8, effect_position, param_num, param_value, 0x00u8, 0xF7u8]
}

/// The on/off value of an effect switch: off up to 64, on above.
pub open spec fn on_off_value(cc_value: u8) -> u8 {
    if cc_value <= 64 {
        0
    } else {
        1
    }
}

/// The tuner control change on `channel`, padded with zeros to ten bytes.
pub open spec fn tuner_message(channel: u8, cc_value: u8) -> Seq<u8> {
    seq![0xB0u8 | channel, TUNER_CC, cc_value, 0u8, 0u8, 0u8, 0u8, 0u8, 0u8, 0u8]
}

/// The ten generated bytes, and how many of them are sent, for an action.
pub open spec fn action_output(action: MappedCcAction, cc_value: u8, channel: u8) -> (Seq<u8>, nat) {
    match action {
        MappedCcAction::ChangeEffectParam { effect_position, param_num } => (
            effect_param_sysex(effect_position, param_num, cc_value),
            10,
        ),
        MappedCcAction::EffectOnOff { effect_position } => (
            effect_param_sysex(effect_position, 0, on_off_value(cc_value)),
            10,
        ),
        MappedCcAction::TunerOnOff => (tuner_message(channel, cc_value), 3),
    }
}

/// The messages on which translation is defined: a control change on the
/// channel listened to must name a control change number below 128.
pub open spec fn translate_defined(listen_channel: u8, msg: Seq<u8>) -> bool {
    msg.len() >= 3 && status_channel(msg[0]) == listen_channel && status_kind(msg[0])
        == CONTROL_CHANGE ==> msg[1] < CC_COUNT
}

/// What becomes of `msg` on a translator that listens to `listen_channel` with
/// the mapping table `actions`.
pub open spec fn spec_translate(
    listen_channel: u8,
    actions: Seq<Option<MappedCcAction>>,
    msg: Seq<u8>,
) -> Translation {
    if msg.len() == 0 {
        Translation::Rejected(TranslateFailure::EmptyMessage)
    } else if status_channel(msg[0]) != listen_channel {
        Translation::Ignored
    } else if status_kind(msg[0]) == PROGRAM_CHANGE {
        if msg.len() < 2 {
            Translation::Rejected(TranslateFailure::ProgramChangeTooShort)
        } else {
            Translation::Forwarded(msg.take(2))
        }
    } else if status_kind(msg[0]) == CONTROL_CHANGE {
        if msg.len() < 3 {
            Translation::Rejected(TranslateFailure::ControlChangeTooShort)
        } else {
            match actions[msg[1] as int] {
                None => Translation::Ignored,
                Some(action) => {
                    let (bytes, len) = action_output(action, msg[2], status_channel(msg[0]));
                    Translation::Generated { bytes, len }
                },
            }
        }
    } else {
        Translation::Ignored
    }
}

/// Whether `res` is what `t` says, for the incoming message `msg`.
pub open spec fn result_matches<'a>(
    res: Result<Option<TranslatedMessage<'a>>, TranslateError>,
    t: Translation,
    msg: Seq<u8>,
) -> bool {
    match t {
        Translation::Rejected(kind) => res matches Err(e) && e.failure() == kind && (kind
            !is EmptyMessage ==> e.received() == msg),
        Translation::Ignored => res matches Ok(None),
        Translation::Forwarded(b) => res matches Ok(Some(m)) && m is Forward && m.sent_bytes()
            == b,
        Translation::Generated { bytes, len } => res matches Ok(Some(m)) && m matches TranslatedMessage::Generated {
            bytes: out,
            len: n,
        } && out@ == bytes && n == len,
    }
}


/// A MIDI message as the pedal reads it: a status byte, then data bytes below
/// 0x80; a SysEx (status 0xF0) ends with 0xF7 instead.
pub open spec fn midi_well_formed(b: Seq<u8>) -> bool {
    &&& b.len() > 0
    &&& b[0] >= 0x80
    &&& if b[0] == 0xF0 {
        &&& b.len() >= 2
        &&& b.last() == 0xF7
        &&& forall|j: int| 1 <= j < b.len() - 1 ==> #[trigger] b[j] < 0x80
    } else {
        forall|j: int| 1 <= j < b.len() ==> #[trigger] b[j] < 0x80
    }
}

/// A message whose bytes after the first are data bytes (below 0x80).
pub open spec fn data_bytes_in_range(msg: Seq<u8>) -> bool {
    forall|j: int| 1 <= j < msg.len() ==> #[trigger] msg[j] < 0x80
}

/// A message on a channel other than the one listened to is ignored.
pub proof fn lemma_other_channel_ignored(
    listen_channel: u8,
    actions: Seq<Option<MappedCcAction>>,
    msg: Seq<u8>,
)
    requires
        msg.len() > 0,
        status_channel(msg[0]) != listen_channel,
    ensures
        spec_translate(listen_channel, actions, msg) == Translation::Ignored,
{
}

/// A program change on the channel listened to is forwarded unchanged: its
/// status and program bytes, and nothing more.
pub proof fn lemma_program_change_forwarded(
    listen_channel: u8,
    actions: Seq<Option<MappedCcAction>>,
    msg: Seq<u8>,
)
    requires
        msg.len() >= 2,
        status_channel(msg[0]) == listen_channel,
        status_kind(msg[0]) == PROGRAM_CHANGE,
    ensures
        spec_translate(listen_channel, actions, msg) == Translation::Forwarded(seq![msg[0], msg[1]]),
{
    assert(msg.take(2) =~= seq![msg[0], msg[1]]);
}

/// An effect switch turns the effect off for values up to 64 and on above.
pub proof fn lemma_effect_on_off_threshold(effect_position: u8, cc_value: u8, channel: u8)
    ensures
        action_output(MappedCcAction::EffectOnOff { effect_position }, cc_value, channel).0[7]
            == (if cc_value <= 64 {
            0u8
        } else {
            1u8
        }),
        action_output(MappedCcAction::EffectOnOff { effect_position }, cc_value, channel).1 == 10,
{
}

/// With the settings of an accepted configuration, a control change on the
/// configured channel whose number some mapping names is translated into that
/// mapping's message.
pub proof fn lemma_configured_cc_translated(raw: RawConfigView, i: int, cc_value: u8)
    requires
        validate_defined(raw),
        spec_validate(raw) is Ok,
        0 <= i < raw.maps.len(),
    ensures
        ({
            let settings = spec_validate(raw)->Ok_0;
            let channel = settings.listen_channel_zero_based;
            let (bytes, len) = action_output(spec_map_action(raw.maps[i])->Ok_0, cc_value, channel);
            &&& channel == raw.channel - 1
            &&& spec_translate(
                channel,
                settings.cc_actions,
                seq![0xB0u8 | channel, raw.maps[i].cc_num, cc_value],
            ) == Translation::Generated { bytes, len }
        }),
{
    lemma_validated_mapping(raw, i);
    let channel = spec_validate(raw)->Ok_0.listen_channel_zero_based;
    let status = 0xB0u8 | channel;
    assert(channel < 16);
    assert(status % 16 == channel && status / 16 == 0xB) by (bit_vector)
        requires
            channel < 16,
            status == 0xB0u8 | channel,
    ;
}

/// With the settings of an accepted configuration, a control change on the
/// configured channel whose number no mapping names is ignored.
pub proof fn lemma_unconfigured_cc_ignored(raw: RawConfigView, cc_num: u8, cc_value: u8)
    requires
        validate_defined(raw),
        spec_validate(raw) is Ok,
        cc_num < CC_COUNT,
        forall|i: int| 0 <= i < raw.maps.len() ==> (#[trigger] raw.maps[i]).cc_num != cc_num,
    ensures
        ({
            let settings = spec_validate(raw)->Ok_0;
            let channel = settings.listen_channel_zero_based;
            spec_translate(
                channel,
                settings.cc_actions,
                seq![0xB0u8 | channel, cc_num, cc_value],
            ) == Translation::Ignored
        }),
{
    lemma_validated_unmapped(raw, cc_num);
    let channel = spec_validate(raw)->Ok_0.listen_channel_zero_based;
    let status = 0xB0u8 | channel;
    assert(channel < 16);
    assert(status % 16 == channel && status / 16 == 0xB) by (bit_vector)
        requires
            channel < 16,
            status == 0xB0u8 | channel,
    ;
}

/// The only messages that are ever sent, given the channel listened to and the
/// incoming message: the program change forwarded as it came, a SysEx
/// parameter edit of slot 0 to 5 and parameter 0 to 127, or the tuner control
/// change on the channel listened to with the incoming value.
pub open spec fn allowed_output(listen_channel: u8, msg: Seq<u8>, t: Translation) -> bool {
    match t {
        Translation::Forwarded(b) => b == msg.take(2) && b[0] == (0xC0u8 | listen_channel),
        Translation::Generated { bytes, len } => {
            ||| {
                &&& len == 10
                &&& bytes.len() == 10
                &&& bytes.take(5) == seq![0xF0u8, 0x52u8, 0x00u8, 0x58u8, 0x31u8]
                &&& bytes[5] <= 5
                &&& bytes[6] <= 127
                &&& bytes[8] == 0x00
                &&& bytes[9] == 0xF7
            }
            ||| {
                &&& len == 3
                &&& bytes.len() == 10
                &&& bytes.take(3) == seq![0xB0u8 | listen_channel, TUNER_CC, msg[2]]
            }
        },
        _ => true,
    }
}

/// With validated settings, every message sent is one of the allowed patterns.
pub proof fn lemma_sent_message_patterns(settings: SettingsView, msg: Seq<u8>)
    requires
        settings_well_formed(settings),
        translate_defined(settings.listen_channel_zero_based, msg),
    ensures
        allowed_output(
            settings.listen_channel_zero_based,
            msg,
            spec_translate(settings.listen_channel_zero_based, settings.cc_actions, msg),
        ),
{
    let ch = settings.listen_channel_zero_based;
    if msg.len() >= 2 && status_channel(msg[0]) == ch {
        let status = msg[0];
        if status / 16 == PROGRAM_CHANGE {
            assert(status == (0xC0u8 | ch)) by (bit_vector)
                requires
                    status / 16 == 0xC,
                    status % 16 == ch,
            ;
        }
        if msg.len() >= 3 && status / 16 == CONTROL_CHANGE {
            let cc = msg[1] as int;
            if settings.cc_actions[cc] is Some {
                let a = settings.cc_actions[cc]->0;
                assert(action_in_range(a));
                let (bytes, len) = action_output(a, msg[2], status_channel(status));
                match a {
                    MappedCcAction::TunerOnOff => {
                        assert(bytes.take(3) =~= seq![0xB0u8 | ch, TUNER_CC, msg[2]]);
                    },
                    _ => {
                        assert(bytes.take(5) =~= seq![0xF0u8, 0x52u8, 0x00u8, 0x58u8, 0x31u8]);
                    },
                }
            }
        }
    }
}

/// With validated settings, a well-formed incoming message (a status byte and
/// data bytes) is only ever turned into well-formed MIDI: forwarded program
/// changes, SysEx parameter edits framed by 0xF0 and 0xF7 whose slot,
/// parameter and value are data bytes, or the tuner control change.
pub proof fn lemma_sent_messages_well_formed(settings: SettingsView, msg: Seq<u8>)
    requires
        settings_well_formed(settings),
        translate_defined(settings.listen_channel_zero_based, msg),
        data_bytes_in_range(msg),
    ensures
        match spec_translate(settings.listen_channel_zero_based, settings.cc_actions, msg) {
            Translation::Forwarded(b) => midi_well_formed(b),
            Translation::Generated { bytes, len } => midi_well_formed(bytes.take(len as int)),
            _ => true,
        },
{
    let ch = settings.listen_channel_zero_based;
    lemma_sent_message_patterns(settings, msg);
    let t = spec_translate(ch, settings.cc_actions, msg);
    assert((0xC0u8 | ch) >= 0x80 && (0xC0u8 | ch) != 0xF0) by (bit_vector)
        requires
            ch < 16,
    ;
    assert((0xB0u8 | ch) >= 0x80 && (0xB0u8 | ch) != 0xF0) by (bit_vector)
        requires
            ch < 16,
    ;
    match t {
        Translation::Forwarded(b) => {
            assert(b[1] == msg[1]);
        },
        Translation::Generated { bytes, len } => {
            let sent = bytes.take(len as int);
            let a = settings.cc_actions[msg[1] as int]->0;
            assert(msg[2] < 0x80);
            if len == 3 {
                assert(sent[0] == bytes.take(3)[0]);
                assert(sent[1] == bytes.take(3)[1]);
                assert(sent[2] == bytes.take(3)[2]);
            } else {
                assert(sent =~= bytes);
                assert(bytes[1] == bytes.take(5)[1]);
                assert(bytes[2] == bytes.take(5)[2]);
                assert(bytes[3] == bytes.take(5)[3]);
                assert(bytes[4] == bytes.take(5)[4]);
                assert(bytes[7] < 0x80);
            }
        },
        _ => {},
    }
}

/// The effect switch: the message depends on the value only through its
/// eighth byte, which is 0 up to 64 and 1 above, so it never goes down as the
/// value goes up.
pub proof fn lemma_effect_switch_monotone(effect_position: u8, v1: u8, v2: u8, channel: u8)
    requires
        v1 <= v2,
    ensures
        ({
            let (b1, l1) = action_output(MappedCcAction::EffectOnOff { effect_position }, v1, channel);
            let (b2, l2) = action_output(MappedCcAction::EffectOnOff { effect_position }, v2, channel);
            &&& l1 == 10 && l2 == 10
            &&& b1.len() == 10 && b2.len() == 10
            &&& forall|j: int| 0 <= j < 10 && j != 7 ==> b1[j] == b2[j]
            &&& b1[7] <= b2[7]
            &&& (b1[7] == 0 || b1[7] == 1) && (b2[7] == 0 || b2[7] == 1)
            &&& (b1[7] == 1 <==> v1 > 64) && (b2[7] == 1 <==> v2 > 64)
        }),
{
}

/// Translation depends on nothing but the channel listened to and the mapping
/// table: settings that agree on both give translators that translate every
/// message alike.
pub proof fn lemma_translation_depends_on_channel_and_table(
    s1: SettingsView,
    s2: SettingsView,
    msg: Seq<u8>,
)
    requires
        s1.listen_channel_zero_based == s2.listen_channel_zero_based,
        s1.cc_actions == s2.cc_actions,
    ensures
        spec_translate(s1.listen_channel_zero_based, s1.cc_actions, msg) == spec_translate(
            s2.listen_channel_zero_based,
            s2.cc_actions,
            msg,
        ),
{
}

/// A mapped parameter edit sends the incoming value as it came: for a
/// control change on the channel listened to whose number is mapped to
/// parameter `p` of slot `s`, the message is F0 52 00 58 31 s p v 00 F7, all
/// ten bytes sent, where `v` is the incoming value.
pub proof fn lemma_param_edit_passes_value(
    listen_channel: u8,
    actions: Seq<Option<MappedCcAction>>,
    msg: Seq<u8>,
    s: u8,
    p: u8,
)
    requires
        msg.len() >= 3,
        msg[0] % 16 == listen_channel,
        msg[0] / 16 == 0xB,
        actions[msg[1] as int] == (Some(
            MappedCcAction::ChangeEffectParam { effect_position: s, param_num: p },
        )),
    ensures
        spec_translate(listen_channel, actions, msg) == (Translation::Generated {
            bytes: seq![0xF0u8, 0x52u8, 0x00u8, 0x58u8, 0x31u8, s, p, msg[2], 0x00u8, 0xF7u8],
            len: 10,
        }),
{
}

/// A mapped effect switch edits parameter 0 of the mapped slot: for a control
/// change on the channel listened to whose number is mapped to the switch of
/// slot `s`, the message is F0 52 00 58 31 s 00 x 00 F7, all ten bytes sent,
/// where `x` is 1 when the incoming value is above 64 and 0 otherwise.
pub proof fn lemma_effect_switch_edits_slot(
    listen_channel: u8,
    actions: Seq<Option<MappedCcAction>>,
    msg: Seq<u8>,
    s: u8,
)
    requires
        msg.len() >= 3,
        msg[0] % 16 == listen_channel,
        msg[0] / 16 == 0xB,
        actions[msg[1] as int] == (Some(MappedCcAction::EffectOnOff { effect_position: s })),
    ensures
        spec_translate(listen_channel, actions, msg) == (Translation::Generated {
            bytes: seq![
                0xF0u8,
                0x52u8,
                0x00u8,
                0x58u8,
                0x31u8,
                s,
                0x00u8,
                (if msg[2] > 64 {
                    1u8
                } else {
                    0u8
                }),
                0x00u8,
                0xF7u8,
            ],
            len: 10,
        }),
{
}

/// A mapped tuner switch sends control change 74 on the channel listened to
/// with the incoming value: the three bytes B<channel> 4A v are sent.
pub proof fn lemma_tuner_sends_cc74(
    listen_channel: u8,
    actions: Seq<Option<MappedCcAction>>,
    msg: Seq<u8>,
)
    requires
        msg.len() >= 3,
        msg[0] % 16 == listen_channel,
        msg[0] / 16 == 0xB,
        actions[msg[1] as int] == Some(MappedCcAction::TunerOnOff),
    ensures
        spec_translate(listen_channel, actions, msg) is Generated,
        spec_translate(listen_channel, actions, msg)->len == 3,
        spec_translate(listen_channel, actions, msg)->bytes.take(3) == seq![
            0xB0u8 | listen_channel,
            0x4Au8,
            msg[2],
        ],
{
    assert(tuner_message(listen_channel, msg[2]).take(3) =~= seq![
        0xB0u8 | listen_channel,
        0x4Au8,
        msg[2],
    ]);
}

/// Only malformed messages are refused: an empty one, or, on the channel
/// listened to, a program change of fewer than two bytes or a control change
/// of fewer than three.
pub proof fn lemma_rejected_only_when_malformed(
    listen_channel: u8,
    actions: Seq<Option<MappedCcAction>>,
    msg: Seq<u8>,
)
    requires
        spec_translate(listen_channel, actions, msg) is Rejected,
    ensures
        msg.len() == 0 || (msg[0] % 16 == listen_channel && ((msg[0] / 16 == 0xC && msg.len()
            < 2) || (msg[0] / 16 == 0xB && msg.len() < 3))),
{
}

/// A message of any type other than program change and control change is
/// ignored, whatever its channel and length.
pub proof fn lemma_other_types_ignored(
    listen_channel: u8,
    actions: Seq<Option<MappedCcAction>>,
    msg: Seq<u8>,
)
    requires
        msg.len() > 0,
        msg[0] / 16 != 0xB,
        msg[0] / 16 != 0xC,
    ensures
        spec_translate(listen_channel, actions, msg) == Translation::Ignored,
{
}

/// A control change on the channel listened to whose number is not mapped is
/// ignored.
pub proof fn lemma_unmapped_cc_ignored(
    listen_channel: u8,
    actions: Seq<Option<MappedCcAction>>,
    msg: Seq<u8>,
)
    requires
        msg.len() >= 3,
        msg[0] % 16 == listen_channel,
        msg[0] / 16 == 0xB,
        actions[msg[1] as int] is None,
    ensures
        spec_translate(listen_channel, actions, msg) == Translation::Ignored,
{
}

impl Translator {
    /// A translator for the channel and mappings of `settings`.
    pub fn new(settings: &Settings) -> (t: Translator)
        ensures
            t@.listen_channel_zero_based == settings@.listen_channel_zero_based,
            t@.cc_actions == settings@.cc_actions,
    {
        Translator {
            listen_channel_zero_based: settings.listen_channel_zero_based(),
            cc_actions: settings.cc_actions(),
        }
    }

    /// Translates one incoming message: an error for a malformed one, `None`
    /// for one that is not passed on, else the message to send.
    pub fn translate<'a>(&self, incoming_message: &'a [u8]) -> (res: Result<
        Option<TranslatedMessage<'a>>,
        TranslateError,
    >)
        requires
            translate_defined(self@.listen_channel_zero_based, incoming_message@),
        ensures
            result_matches(
                res,
                spec_translate(
                    self@.listen_channel_zero_based,
                    self@.cc_actions,
                    incoming_message@,
                ),
                incoming_message@,
            ),
            (res is Err) ==> incoming_message@.len() == 0 || (incoming_message@[0] % 16
                == self@.listen_channel_zero_based && ((incoming_message@[0] / 16 == 0xC
                && incoming_message@.len() < 2) || (incoming_message@[0] / 16 == 0xB
                && incoming_message@.len() < 3))),
            (incoming_message@.len() > 0 && incoming_message@[0] / 16 != 0xB
                && incoming_message@[0] / 16 != 0xC) ==> (res matches Ok(None)),
    {
        if incoming_message.len() == 0 {
            return Err(TranslateError::EmptyMessage);
        }
        let status = incoming_message[0];
        let message_type = status & 0xF0;
        let channel = status & 0x0F;
        assert(message_type == (status / 16) * 16 && channel == status % 16) by (bit_vector)
            requires
                message_type == status & 0xF0,
                channel == status & 0x0F,
        ;

        if channel != self.listen_channel_zero_based {
            return Ok(None);
        }
        if message_type == 0xC0 {
            if incoming_message.len() < 2 {
                return Err(TranslateError::ProgramChangeTooShort(slice_to_vec(incoming_message)));
            }
            Ok(Some(TranslatedMessage::Forward(slice_subrange(incoming_message, 0, 2))))
        } else if message_type == 0xB0 {
            if incoming_message.len() < 3 {
                return Err(TranslateError::ControlChangeTooShort(slice_to_vec(incoming_message)));
            }
            let cc_num = incoming_message[1];
            let cc_value = incoming_message[2];
            match self.cc_actions[cc_num as usize] {
                None => Ok(None),
                Some(action) => Ok(Some(self.translate_cc_action(action, cc_value, channel))),
            }
        } else {
            Ok(None)
        }
    }

    /// The SysEx that switches the pedal into edit mode.
    pub fn build_startup_message() -> (msg: [u8; 6])
        ensures
            msg@ == startup_message_spec(),
    {
        [0xF0, 0x52, 0x00, 0x58, 0x50, 0xF7]
    }

    /// The message generated for `action` with the incoming value `cc_value`.
    fn translate_cc_action(&self, action: MappedCcAction, cc_value: u8, channel: u8) -> (m:
        TranslatedMessage<'static>)
        ensures
            m matches TranslatedMessage::Generated { bytes, len } && (bytes@, len as nat)
                == action_output(action, cc_value, channel),
    {
        match action {
            MappedCcAction::ChangeEffectParam { effect_position, param_num } => {
                self.create_change_effect_param_message(effect_position, param_num, cc_value)
            },
            MappedCcAction::EffectOnOff { effect_position } => {
                self.create_change_effect_param_message(
                    effect_position,
                    0x00,
                    if cc_value <= 64 {
                        0x00
                    } else {
                        0x01
                    },
                )
            },
            MappedCcAction::TunerOnOff => {
                let status = 0xB0 | channel;
                let bytes: [u8; 10] = [status, 0x4A, cc_value, 0x00, 0x00, 0x00, 0x00, 0x00, 0x00, 0x00];
                assert(bytes@ =~= tuner_message(channel, cc_value));
                TranslatedMessage::Generated { bytes, len: 3 }
            },
        }
    }

    /// The SysEx parameter edit for `effect_position`, `param_num`, `param_value`.
    fn create_change_effect_param_message(
        &self,
        effect_position: u8,
        param_num: u8,
        param_value: u8,
    ) -> (m: TranslatedMessage<'static>)
        ensures
            m matches TranslatedMessage::Generated { bytes, len } && bytes@ == effect_param_sysex(
                effect_position,
                param_num,
                param_value,
            ) && len == 10,
    {
        let bytes: [u8; 10] = [
            0xF0,
            0x52,
            0x00,
            0x58,
            0x31,
            effect_position,
            param_num,
            param_value,
            0x00,
            0xF7,
        ];
        assert(bytes@ =~= effect_param_sysex(effect_position, param_num, param_value));
        TranslatedMessage::Generated { bytes, len: 10 }
    }
}

} // verus!
