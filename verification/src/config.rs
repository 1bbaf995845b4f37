//! The pedalboard configuration: the raw values that a config file holds, the
//! rules that turn them into validated `Settings`, and the errors that those
//! rules report.
use vstd::prelude::*;

use crate::text::{is_blank, is_blank_text, push_decimal, push_text, decimal_text};

verus! {

/// Number of MIDI control change numbers; each one may carry one mapping.
pub const CC_COUNT: usize = 128;

/// Highest effect slot on the pedal (slots are numbered from 0).
pub const MAX_EFFECT_POSITION: u8 = 5;

/// Highest parameter number that a SysEx parameter edit can carry.
pub const MAX_PARAM_NUM: u8 = 127;

/// What a control change number is mapped to.
#[derive(Debug, Clone, Copy, PartialEq, Eq, Structural)]
pub enum MappedCcAction {
    ChangeEffectParam { effect_position: u8, param_num: u8 },
    EffectOnOff { effect_position: u8 },
    TunerOnOff,
}

/// The `action` value of a `changeControlMaps` entry.
#[derive(Debug, Clone, Copy, PartialEq, Eq, Structural)]
pub enum RawAction {
    ChangeEffectParam,
    EffectOnOff,
    TunerOnOff,
}

/// One `changeControlMaps` entry as the config file writes it.
#[derive(Debug, Clone, Copy, PartialEq, Eq, Structural)]
pub struct RawChangeControlMap {
    pub cc_num: u8,
    pub action: RawAction,
    pub effect_position: Option<u8>,
    pub param_num: Option<u8>,
}

/// `targetOutputDevice`: either one prefix or a list of them.
pub enum RawDeviceNames {
    Single(String),
    Multiple(Vec<String>),
}

/// The configuration as the config file writes it, before validation.
pub struct RawConfig {
    pub target_input_devices: Vec<String>,
    pub target_output_device: RawDeviceNames,
    pub target_output_device_channel: u8,
    pub change_control_maps: Vec<RawChangeControlMap>,
}

/// Which list of device prefixes a validation error is about.
#[derive(Debug, Clone, Copy, PartialEq, Eq, Structural)]
pub enum DeviceListKey {
    TargetInputDevices,
    TargetOutputDevice,
}

/// Why a configuration was refused.
#[derive(Debug, Clone, Copy, PartialEq, Eq, Structural)]
pub enum ConfigError {
    ChannelOutOfRange { channel: u8 },
    NoDevicePrefixes { key: DeviceListKey },
    BlankDevicePrefixes { key: DeviceListKey },
    MissingEffectPosition { action: RawAction, cc_num: u8 },
    EffectPositionOutOfRange { cc_num: u8, effect_position: u8 },
    MissingParamNum { cc_num: u8 },
    ParamNumOutOfRange { cc_num: u8, param_num: u8 },
    DuplicateMapping { cc_num: u8 },
}

/// The validated configuration.
#[derive(Debug)]
pub struct Settings {
    input_device_prefixes: Vec<String>,
    output_device_prefixes: Vec<String>,
    listen_channel_zero_based: u8,
    cc_actions: [Option<MappedCcAction>; 128],
}

/// The contents of a `Settings`: prefixes as character sequences, and one
/// optional action per control change number.
pub struct SettingsView {
    pub input_device_prefixes: Seq<Seq<char>>,
    pub output_device_prefixes: Seq<Seq<char>>,
    pub listen_channel_zero_based: u8,
    pub cc_actions: Seq<Option<MappedCcAction>>,
}

/// The contents of a `RawConfig`, with `targetOutputDevice` already as a list.
pub struct RawConfigView {
    pub input_devices: Seq<Seq<char>>,
    pub output_devices: Seq<Seq<char>>,
    pub channel: u8,
    pub maps: Seq<RawChangeControlMap>,
}

/// The character sequences of a sequence of strings.
pub open spec fn string_views(v: Seq<String>) -> Seq<Seq<char>> {
    v.map_values(|s: String| s@)
}

impl View for RawDeviceNames {
    type V = Seq<Seq<char>>;

    open spec fn view(&self) -> Seq<Seq<char>> {
        match self {
            RawDeviceNames::Single(name) => seq![name@],
            RawDeviceNames::Multiple(names) => string_views(names@),
        }
    }
}

impl View for RawConfig {
    type V = RawConfigView;

    open spec fn view(&self) -> RawConfigView {
        RawConfigView {
            input_devices: string_views(self.target_input_devices@),
            output_devices: self.target_output_device@,
            channel: self.target_output_device_channel,
            maps: self.change_control_maps@,
        }
    }
}

impl View for Settings {
    type V = SettingsView;

    closed spec fn view(&self) -> SettingsView {
        SettingsView {
            input_device_prefixes: string_views(self.input_device_prefixes@),
            output_device_prefixes: string_views(self.output_device_prefixes@),
            listen_channel_zero_based: self.listen_channel_zero_based,
            cc_actions: self.cc_actions@,
        }
    }
}

/// The table with no control change mapped.
pub open spec fn empty_action_table() -> Seq<Option<MappedCcAction>> {
    Seq::new(CC_COUNT as nat, |i: int| None)
}

/// Whether a mapped action names an effect slot and parameter that the pedal has.
pub open spec fn action_in_range(a: MappedCcAction) -> bool {
    match a {
        MappedCcAction::ChangeEffectParam { effect_position, param_num } => effect_position
            <= MAX_EFFECT_POSITION && param_num <= MAX_PARAM_NUM,
        MappedCcAction::EffectOnOff { effect_position } => effect_position <= MAX_EFFECT_POSITION,
        MappedCcAction::TunerOnOff => true,
    }
}

/// What one `changeControlMaps` entry is mapped to, or why it is refused.
pub open spec fn spec_map_action(m: RawChangeControlMap) -> Result<MappedCcAction, ConfigError> {
    match m.action {
        RawAction::ChangeEffectParam => match m.effect_position {
            None => Err(
                ConfigError::MissingEffectPosition { action: RawAction::ChangeEffectParam, cc_num: m.cc_num },
            ),
            Some(effect_position) => if effect_position > MAX_EFFECT_POSITION {
                Err(ConfigError::EffectPositionOutOfRange { cc_num: m.cc_num, effect_position })
            } else {
                match m.param_num {
                    None => Err(ConfigError::MissingParamNum { cc_num: m.cc_num }),
                    Some(param_num) => if param_num > MAX_PARAM_NUM {
                        Err(ConfigError::ParamNumOutOfRange { cc_num: m.cc_num, param_num })
                    } else {
                        Ok(MappedCcAction::ChangeEffectParam { effect_position, param_num })
                    },
                }
            },
        },
        RawAction::EffectOnOff => match m.effect_position {
            None => Err(
                ConfigError::MissingEffectPosition { action: RawAction::EffectOnOff, cc_num: m.cc_num },
            ),
            Some(effect_position) => if effect_position > MAX_EFFECT_POSITION {
                Err(ConfigError::EffectPositionOutOfRange { cc_num: m.cc_num, effect_position })
            } else {
                Ok(MappedCcAction::EffectOnOff { effect_position })
            },
        },
        RawAction::TunerOnOff => Ok(MappedCcAction::TunerOnOff),
    }
}

/// The action table after the first `n` entries of `maps`, taken in order: each
/// entry is mapped and put in its slot; the first entry that is refused, or that
/// takes a slot an earlier entry took, ends it with that error.
pub open spec fn spec_fill_actions(maps: Seq<RawChangeControlMap>, n: nat) -> Result<
    Seq<Option<MappedCcAction>>,
    ConfigError,
>
    decreases n,
{
    if n == 0 {
        Ok(empty_action_table())
    } else {
        match spec_fill_actions(maps, (n - 1) as nat) {
            Err(e) => Err(e),
            Ok(table) => {
                let m = maps[n - 1];
                match spec_map_action(m) {
                    Err(e) => Err(e),
                    Ok(a) => if table[m.cc_num as int] is Some {
                        Err(ConfigError::DuplicateMapping { cc_num: m.cc_num })
                    } else {
                        Ok(table.update(m.cc_num as int, Some(a)))
                    },
                }
            },
        }
    }
}

/// The test that decides which device prefixes are kept.
pub open spec fn not_blank() -> spec_fn(Seq<char>) -> bool {
    |n: Seq<char>| !is_blank(n)
}

/// The device prefixes that validation keeps: all but the blank ones, in order;
/// refused when the list is empty, or when nothing but blanks is in it.
pub open spec fn spec_check_prefixes(names: Seq<Seq<char>>, key: DeviceListKey) -> Result<
    Seq<Seq<char>>,
    ConfigError,
> {
    if names.len() == 0 {
        Err(ConfigError::NoDevicePrefixes { key })
    } else {
        let kept = names.filter(not_blank());
        if kept.len() == 0 {
            Err(ConfigError::BlankDevicePrefixes { key })
        } else {
            Ok(kept)
        }
    }
}

/// The settings that a raw configuration validates to, or the first error: the
/// channel, then the input prefixes, the output prefixes, and the mappings in order.
pub open spec fn spec_validate(raw: RawConfigView) -> Result<SettingsView, ConfigError> {
    if !(1 <= raw.channel <= 16) {
        Err(ConfigError::ChannelOutOfRange { channel: raw.channel })
    } else {
        match spec_check_prefixes(raw.input_devices, DeviceListKey::TargetInputDevices) {
            Err(e) => Err(e),
            Ok(input) => match spec_check_prefixes(
                raw.output_devices,
                DeviceListKey::TargetOutputDevice,
            ) {
                Err(e) => Err(e),
                Ok(output) => match spec_fill_actions(raw.maps, raw.maps.len()) {
                    Err(e) => Err(e),
                    Ok(table) => Ok(
                        SettingsView {
                            input_device_prefixes: input,
                            output_device_prefixes: output,
                            listen_channel_zero_based: (raw.channel - 1) as u8,
                            cc_actions: table,
                        },
                    ),
                },
            },
        }
    }
}

/// Whether validation gets past the channel and both lists of prefixes.
pub open spec fn header_accepted(raw: RawConfigView) -> bool {
    &&& 1 <= raw.channel <= 16
    &&& spec_check_prefixes(raw.input_devices, DeviceListKey::TargetInputDevices) is Ok
    &&& spec_check_prefixes(raw.output_devices, DeviceListKey::TargetOutputDevice) is Ok
}

/// Whether validation reaches the point where mapping `i` is put in its slot:
/// everything before it was accepted, and the entry itself maps to an action.
pub open spec fn entry_reached(raw: RawConfigView, i: int) -> bool {
    &&& header_accepted(raw)
    &&& spec_fill_actions(raw.maps, i as nat) is Ok
    &&& spec_map_action(raw.maps[i]) is Ok
}

/// The configurations that validation is defined on: every mapping that it
/// reaches names a control change number below 128, which the table has a slot for.
pub open spec fn validate_defined(raw: RawConfigView) -> bool {
    forall|i: int|
        0 <= i < raw.maps.len() && #[trigger] entry_reached(raw, i) ==> raw.maps[i].cc_num
            < CC_COUNT
}

/// Whether mapping `i` is the first that validation reaches with a number of
/// 128 or more.
pub open spec fn first_out_of_range_entry(raw: RawConfigView, i: int) -> bool {
    &&& 0 <= i < raw.maps.len()
    &&& entry_reached(raw, i)
    &&& raw.maps[i].cc_num >= CC_COUNT
    &&& forall|j: int| 0 <= j < i ==> (#[trigger] raw.maps[j]).cc_num < CC_COUNT
}

/// Whether every mapping names a control change number that MIDI has (below 128).
pub open spec fn cc_nums_in_range(maps: Seq<RawChangeControlMap>) -> bool {
    forall|i: int| 0 <= i < maps.len() ==> (#[trigger] maps[i]).cc_num < CC_COUNT
}

/// What validated settings always satisfy.
pub open spec fn settings_well_formed(s: SettingsView) -> bool {
    &&& s.listen_channel_zero_based < 16
    &&& s.input_device_prefixes.len() > 0
    &&& s.output_device_prefixes.len() > 0
    &&& forall|i: int|
        0 <= i < s.input_device_prefixes.len() ==> !is_blank(
            #[trigger] s.input_device_prefixes[i],
        )
    &&& forall|i: int|
        0 <= i < s.output_device_prefixes.len() ==> !is_blank(
            #[trigger] s.output_device_prefixes[i],
        )
    &&& s.cc_actions.len() == CC_COUNT
    &&& forall|c: int|
        0 <= c < s.cc_actions.len() && (#[trigger] s.cc_actions[c]) is Some ==> action_in_range(
            s.cc_actions[c]->0,
        )
}

/// The name that the config file gives a list of device prefixes.
pub open spec fn device_list_key_text(key: DeviceListKey) -> Seq<char> {
    match key {
        DeviceListKey::TargetInputDevices => "targetInputDevices"@,
        DeviceListKey::TargetOutputDevice => "targetOutputDevice"@,
    }
}

/// The name that the config file gives an action.
pub open spec fn raw_action_text(action: RawAction) -> Seq<char> {
    match action {
        RawAction::ChangeEffectParam => "changeEffectParam"@,
        RawAction::EffectOnOff => "effectOnOff"@,
        RawAction::TunerOnOff => "tunerOnOff"@,
    }
}

/// The message that reports a configuration error.
pub open spec fn config_error_text(e: ConfigError) -> Seq<char> {
    match e {
        ConfigError::ChannelOutOfRange { channel } => "targetOutputDeviceChannel must be between 1 and 16, got "@
            + decimal_text(channel),
        ConfigError::NoDevicePrefixes { key } => device_list_key_text(key)
            + " must contain at least one MIDI device prefix"@,
        ConfigError::BlankDevicePrefixes { key } => device_list_key_text(key) + " cannot be empty"@,
        ConfigError::MissingEffectPosition { action, cc_num } => raw_action_text(action)
            + " mapping for ccNum "@ + decimal_text(cc_num) + " must include effectPosition"@,
        ConfigError::EffectPositionOutOfRange { cc_num, effect_position } => "effectPosition must be between 0 and 5 for ccNum "@
            + decimal_text(cc_num) + ", got "@ + decimal_text(effect_position),
        ConfigError::MissingParamNum { cc_num } => "changeEffectParam mapping for ccNum "@
            + decimal_text(cc_num) + " must include paramNum"@,
        ConfigError::ParamNumOutOfRange { cc_num, param_num } => "paramNum must be between 0 and 127 for ccNum "@
            + decimal_text(cc_num) + ", got "@ + decimal_text(param_num),
        ConfigError::DuplicateMapping { cc_num } => "duplicate changeControlMaps entry for ccNum "@
            + decimal_text(cc_num),
    }
}

fn push_device_list_key(s: &mut String, key: DeviceListKey)
    ensures
        final(s)@ == old(s)@ + device_list_key_text(key),
{
    match key {
        DeviceListKey::TargetInputDevices => push_text(s, "targetInputDevices"),
        DeviceListKey::TargetOutputDevice => push_text(s, "targetOutputDevice"),
    }
}

fn push_raw_action(s: &mut String, action: RawAction)
    ensures
        final(s)@ == old(s)@ + raw_action_text(action),
{
    match action {
        RawAction::ChangeEffectParam => push_text(s, "changeEffectParam"),
        RawAction::EffectOnOff => push_text(s, "effectOnOff"),
        RawAction::TunerOnOff => push_text(s, "tunerOnOff"),
    }
}

impl ConfigError {
    /// The message that reports this error.
    pub fn message(&self) -> (text: String)
        ensures
            text@ == config_error_text(*self),
    {
        let mut s = String::new();
        match *self {
            ConfigError::ChannelOutOfRange { channel } => {
                push_text(&mut s, "targetOutputDeviceChannel must be between 1 and 16, got ");
                push_decimal(&mut s, channel);
            },
            ConfigError::NoDevicePrefixes { key } => {
                push_device_list_key(&mut s, key);
                push_text(&mut s, " must contain at least one MIDI device prefix");
            },
            ConfigError::BlankDevicePrefixes { key } => {
                push_device_list_key(&mut s, key);
                push_text(&mut s, " cannot be empty");
            },
            ConfigError::MissingEffectPosition { action, cc_num } => {
                push_raw_action(&mut s, action);
                push_text(&mut s, " mapping for ccNum ");
                push_decimal(&mut s, cc_num);
                push_text(&mut s, " must include effectPosition");
            },
            ConfigError::EffectPositionOutOfRange { cc_num, effect_position } => {
                push_text(&mut s, "effectPosition must be between 0 and 5 for ccNum ");
                push_decimal(&mut s, cc_num);
                push_text(&mut s, ", got ");
                push_decimal(&mut s, effect_position);
            },
            ConfigError::MissingParamNum { cc_num } => {
                push_text(&mut s, "changeEffectParam mapping for ccNum ");
                push_decimal(&mut s, cc_num);
                push_text(&mut s, " must include paramNum");
            },
            ConfigError::ParamNumOutOfRange { cc_num, param_num } => {
                push_text(&mut s, "paramNum must be between 0 and 127 for ccNum ");
                push_decimal(&mut s, cc_num);
                push_text(&mut s, ", got ");
                push_decimal(&mut s, param_num);
            },
            ConfigError::DuplicateMapping { cc_num } => {
                push_text(&mut s, "duplicate changeControlMaps entry for ccNum ");
                push_decimal(&mut s, cc_num);
            },
        }
        s
    }
}

impl RawDeviceNames {
    /// The prefixes as a list: a single one becomes a list of one.
    pub fn into_vec(self) -> (names: Vec<String>)
        ensures
            names@ == match self {
                RawDeviceNames::Single(name) => seq![name],
                RawDeviceNames::Multiple(list) => list@,
            },
            string_views(names@) == self@,
    {
        match self {
            RawDeviceNames::Single(name) => {
                let ghost n = name@;
                let v = vec![name];
                assert(string_views(v@) =~= seq![n]);
                v
            },
            RawDeviceNames::Multiple(names) => names,
        }
    }
}

/// Once the mappings have been refused at some entry, taking more entries keeps
/// the same error.
proof fn lemma_fill_error_persists(maps: Seq<RawChangeControlMap>, n: nat, m: nat)
    requires
        n <= m,
        spec_fill_actions(maps, n) is Err,
    ensures
        spec_fill_actions(maps, m) == spec_fill_actions(maps, n),
    decreases m - n,
{
    if n < m {
        lemma_fill_error_persists(maps, n, (m - 1) as nat);
    }
}

/// Taking fewer entries than an accepted list is accepted too.
proof fn lemma_fill_prefix_ok(maps: Seq<RawChangeControlMap>, k: nat, n: nat)
    requires
        k <= n,
        spec_fill_actions(maps, n) is Ok,
    ensures
        spec_fill_actions(maps, k) is Ok,
{
    if spec_fill_actions(maps, k) is Err {
        lemma_fill_error_persists(maps, k, n);
    }
}

/// After the first `n` entries have been accepted, each of them sits in its own
/// slot, every slot that holds an action was filled by one of them, and the
/// table has one slot per control change number.
proof fn lemma_fill_contents(maps: Seq<RawChangeControlMap>, n: nat)
    requires
        n <= maps.len(),
        cc_nums_in_range(maps),
        spec_fill_actions(maps, n) is Ok,
    ensures
        spec_fill_actions(maps, n)->Ok_0.len() == CC_COUNT,
        forall|i: int|
            0 <= i < n ==> spec_map_action(#[trigger] maps[i]) is Ok && spec_fill_actions(
                maps,
                n,
            )->Ok_0[maps[i].cc_num as int] == Some(spec_map_action(maps[i])->Ok_0),
        forall|c: int|
            0 <= c < CC_COUNT && (forall|i: int| 0 <= i < n ==> (#[trigger] maps[i]).cc_num != c)
                ==> spec_fill_actions(maps, n)->Ok_0[c] is None,
    decreases n,
{
    if n > 0 {
        let k = (n - 1) as nat;
        lemma_fill_prefix_ok(maps, k, n);
        lemma_fill_contents(maps, k);
        let table = spec_fill_actions(maps, k)->Ok_0;
        let m = maps[k as int];
        assert(m.cc_num < CC_COUNT);
        assert forall|i: int| 0 <= i < k implies (#[trigger] maps[i]).cc_num != m.cc_num by {
            assert(table[maps[i].cc_num as int] is Some);
        }
    }
}

/// In an accepted configuration on which validation is defined, every mapping
/// names a control change number below 128.
proof fn lemma_accepted_cc_nums_in_range(raw: RawConfigView)
    requires
        validate_defined(raw),
        spec_validate(raw) is Ok,
    ensures
        cc_nums_in_range(raw.maps),
{
    assert forall|i: int| 0 <= i < raw.maps.len() implies (#[trigger] raw.maps[i]).cc_num
        < CC_COUNT by {
        lemma_fill_prefix_ok(raw.maps, i as nat, raw.maps.len());
        lemma_fill_prefix_ok(raw.maps, (i + 1) as nat, raw.maps.len());
        assert(entry_reached(raw, i));
    }
}

/// Every mapping of an accepted configuration is in the table of the
/// validated settings, at its control change number.
pub proof fn lemma_validated_mapping(raw: RawConfigView, i: int)
    requires
        validate_defined(raw),
        spec_validate(raw) is Ok,
        0 <= i < raw.maps.len(),
    ensures
        spec_map_action(raw.maps[i]) is Ok,
        spec_validate(raw)->Ok_0.cc_actions[raw.maps[i].cc_num as int] == Some(
            spec_map_action(raw.maps[i])->Ok_0,
        ),
{
    lemma_accepted_cc_nums_in_range(raw);
    lemma_fill_contents(raw.maps, raw.maps.len());
    assert(spec_map_action(raw.maps[i]) is Ok);
}

/// A control change number that no mapping of an accepted configuration names
/// has no action in the validated settings.
pub proof fn lemma_validated_unmapped(raw: RawConfigView, cc_num: u8)
    requires
        validate_defined(raw),
        spec_validate(raw) is Ok,
        cc_num < CC_COUNT,
        forall|i: int| 0 <= i < raw.maps.len() ==> (#[trigger] raw.maps[i]).cc_num != cc_num,
    ensures
        spec_validate(raw)->Ok_0.cc_actions[cc_num as int] is None,
{
    lemma_accepted_cc_nums_in_range(raw);
    lemma_fill_contents(raw.maps, raw.maps.len());
}

/// No two mappings of an accepted configuration share a control change number.
pub proof fn lemma_validated_cc_nums_distinct(raw: RawConfigView, i: int, j: int)
    requires
        validate_defined(raw),
        spec_validate(raw) is Ok,
        0 <= i < j < raw.maps.len(),
    ensures
        raw.maps[i].cc_num != raw.maps[j].cc_num,
{
    lemma_accepted_cc_nums_in_range(raw);
    let n = raw.maps.len();
    lemma_fill_prefix_ok(raw.maps, (j + 1) as nat, n);
    lemma_fill_prefix_ok(raw.maps, j as nat, n);
    lemma_fill_contents(raw.maps, j as nat);
    assert(raw.maps[i].cc_num < CC_COUNT);
}

/// Whether a mapping carries what its action needs, within range: a slot from
/// 0 to 5 for an effect switch or a parameter edit, and a parameter from 0 to
/// 127 for a parameter edit.
pub open spec fn mapping_fields_valid(m: RawChangeControlMap) -> bool {
    &&& m.action != RawAction::TunerOnOff ==> (m.effect_position is Some
        && m.effect_position->0 <= 5)
    &&& m.action == RawAction::ChangeEffectParam ==> (m.param_num is Some && m.param_num->0
        <= 127)
}

/// The action that a valid mapping stands for, field by field.
pub open spec fn mapping_meaning(m: RawChangeControlMap) -> MappedCcAction {
    match m.action {
        RawAction::ChangeEffectParam => MappedCcAction::ChangeEffectParam {
            effect_position: m.effect_position->0,
            param_num: m.param_num->0,
        },
        RawAction::EffectOnOff => MappedCcAction::EffectOnOff {
            effect_position: m.effect_position->0,
        },
        RawAction::TunerOnOff => MappedCcAction::TunerOnOff,
    }
}

/// Taking valid mappings on distinct numbers below 128 one by one, each is
/// accepted.
proof fn lemma_fill_accepts(maps: Seq<RawChangeControlMap>, n: nat)
    requires
        n <= maps.len(),
        cc_nums_in_range(maps),
        forall|i: int| 0 <= i < maps.len() ==> mapping_fields_valid(#[trigger] maps[i]),
        forall|i: int, j: int|
            0 <= i < j < maps.len() ==> (#[trigger] maps[i]).cc_num != (#[trigger] maps[j]).cc_num,
    ensures
        spec_fill_actions(maps, n) is Ok,
    decreases n,
{
    if n > 0 {
        let k = (n - 1) as nat;
        lemma_fill_accepts(maps, k);
        lemma_fill_contents(maps, k);
        let m = maps[k as int];
        assert(mapping_fields_valid(m));
        assert(spec_map_action(m) is Ok);
        assert forall|i: int| 0 <= i < k implies (#[trigger] maps[i]).cc_num != m.cc_num by {
            assert(maps[i].cc_num != maps[k as int].cc_num);
        }
    }
}

/// A configuration is accepted when its channel is 1 to 16, each list of
/// device prefixes holds a prefix that is not blank, and its mappings name
/// distinct control change numbers below 128 and carry what their actions need
/// within range. The settings listen on the channel minus one, and each
/// mapping's number holds the action its fields spell out.
pub proof fn lemma_valid_config_accepted(raw: RawConfigView)
    requires
        1 <= raw.channel <= 16,
        exists|i: int| 0 <= i < raw.input_devices.len() && !is_blank(#[trigger] raw.input_devices[i]),
        exists|i: int|
            0 <= i < raw.output_devices.len() && !is_blank(#[trigger] raw.output_devices[i]),
        cc_nums_in_range(raw.maps),
        forall|i: int| 0 <= i < raw.maps.len() ==> mapping_fields_valid(#[trigger] raw.maps[i]),
        forall|i: int, j: int|
            0 <= i < j < raw.maps.len() ==> (#[trigger] raw.maps[i]).cc_num != (#[trigger] raw.maps[j]).cc_num,
    ensures
        validate_defined(raw),
        spec_validate(raw) is Ok,
        spec_validate(raw)->Ok_0.listen_channel_zero_based == raw.channel - 1,
        forall|i: int|
            0 <= i < raw.maps.len() ==> spec_validate(raw)->Ok_0.cc_actions[(#[trigger] raw.maps[i]).cc_num as int]
                == Some(mapping_meaning(raw.maps[i])),
{
    let pred = not_blank();
    let i_in = choose|i: int| 0 <= i < raw.input_devices.len() && !is_blank(#[trigger] raw.input_devices[i]);
    let i_out = choose|i: int| 0 <= i < raw.output_devices.len() && !is_blank(#[trigger] raw.output_devices[i]);
    raw.input_devices.lemma_filter_contains(pred, i_in);
    raw.output_devices.lemma_filter_contains(pred, i_out);
    assert(raw.input_devices.filter(pred).len() > 0);
    assert(raw.output_devices.filter(pred).len() > 0);
    lemma_fill_accepts(raw.maps, raw.maps.len());
    lemma_fill_contents(raw.maps, raw.maps.len());
    assert(header_accepted(raw));
    assert forall|i: int| 0 <= i < raw.maps.len() && #[trigger] entry_reached(raw, i) implies raw.maps[i].cc_num
        < CC_COUNT by {
        assert(raw.maps[i].cc_num < CC_COUNT);
    }
    assert forall|i: int| 0 <= i < raw.maps.len() implies spec_validate(raw)->Ok_0.cc_actions[(#[trigger] raw.maps[i]).cc_num as int]
        == Some(mapping_meaning(raw.maps[i])) by {
        assert(mapping_fields_valid(raw.maps[i]));
    }
}

/// A configuration with a mapping that lacks what its action needs, or carries
/// it out of range, is refused.
pub proof fn lemma_invalid_mapping_refused(raw: RawConfigView, i: int)
    requires
        0 <= i < raw.maps.len(),
        !mapping_fields_valid(raw.maps[i]),
    ensures
        spec_validate(raw) is Err,
{
    if spec_fill_actions(raw.maps, raw.maps.len()) is Ok {
        lemma_fill_prefix_ok(raw.maps, i as nat, raw.maps.len());
        lemma_fill_prefix_ok(raw.maps, (i + 1) as nat, raw.maps.len());
        assert(spec_map_action(raw.maps[i]) is Ok);
        assert(false);
    }
}

/// Validation keeps exactly the device prefixes that are not blank: none of
/// the kept ones is blank, every one that is not blank is kept, and nothing is
/// added.
pub proof fn lemma_prefixes_kept(names: Seq<Seq<char>>, key: DeviceListKey)
    requires
        spec_check_prefixes(names, key) is Ok,
    ensures
        ({
            let kept = spec_check_prefixes(names, key)->Ok_0;
            &&& kept.len() > 0
            &&& kept.len() <= names.len()
            &&& forall|k: int| 0 <= k < kept.len() ==> !is_blank(#[trigger] kept[k])
            &&& forall|i: int|
                0 <= i < names.len() && !is_blank(#[trigger] names[i]) ==> kept.contains(names[i])
            &&& forall|k: int| 0 <= k < kept.len() ==> names.contains(#[trigger] kept[k])
        }),
{
    broadcast use Seq::lemma_filter_len, Seq::lemma_filter_pred, Seq::lemma_filter_contains;

    let pred = not_blank();
    let kept = names.filter(pred);
    assert forall|k: int| 0 <= k < kept.len() implies names.contains(#[trigger] kept[k]) by {
        names.lemma_filter_contains_rev(pred, kept[k]);
    }
    assert forall|i: int|
        0 <= i < names.len() && !is_blank(#[trigger] names[i]) implies kept.contains(names[i]) by {
        names.lemma_filter_contains(pred, i);
    }
}

/// Keeps the names of `names` that are not blank, in order; refused when
/// `names` is empty or when all of it is blank.
fn validate_device_prefixes(names: Vec<String>, key: DeviceListKey) -> (res: Result<
    Vec<String>,
    ConfigError,
>)
    ensures
        match spec_check_prefixes(string_views(names@), key) {
            Ok(kept) => res matches Ok(v) && string_views(v@) == kept,
            Err(e) => res == Err::<Vec<String>, ConfigError>(e),
        },
{
    let ghost all = string_views(names@);
    let ghost pred = not_blank();
    if names.len() == 0 {
        return Err(ConfigError::NoDevicePrefixes { key });
    }
    let mut kept: Vec<String> = Vec::new();
    let mut i: usize = 0;
    while i < names.len()
        invariant
            i <= names.len(),
            all == string_views(names@),
            pred == not_blank(),
            string_views(kept@) == all.take(i as int).filter(pred),
        decreases names.len() - i,
    {
        let blank = is_blank_text(names[i].as_str());
        proof {
            reveal(Seq::filter);
            assert(all.take(i + 1).drop_last() =~= all.take(i as int));
            assert(all.take(i + 1).last() == names@[i as int]@);
        }

        if !blank {
            let ghost before = kept@;
            kept.push(names[i].clone());
            assert(string_views(kept@) =~= string_views(before).push(names@[i as int]@));
        }
        i = i + 1;
    }
    assert(all.take(names.len() as int) =~= all);
    if kept.len() == 0 {
        return Err(ConfigError::BlankDevicePrefixes { key });
    }
    Ok(kept)
}

/// Maps one `changeControlMaps` entry to its action, or reports why it is refused.
fn map_action(map: RawChangeControlMap) -> (res: Result<MappedCcAction, ConfigError>)
    ensures
        res == spec_map_action(map),
{
    match map.action {
        RawAction::ChangeEffectParam => {
            let effect_position = match map.effect_position {
                Some(p) => p,
                None => {
                    return Err(
                        ConfigError::MissingEffectPosition {
                            action: RawAction::ChangeEffectParam,
                            cc_num: map.cc_num,
                        },
                    );
                },
            };
            if effect_position > MAX_EFFECT_POSITION {
                return Err(
                    ConfigError::EffectPositionOutOfRange { cc_num: map.cc_num, effect_position },
                );
            }
            let param_num = match map.param_num {
                Some(p) => p,
                None => {
                    return Err(ConfigError::MissingParamNum { cc_num: map.cc_num });
                },
            };
            if param_num > MAX_PARAM_NUM {
                return Err(ConfigError::ParamNumOutOfRange { cc_num: map.cc_num, param_num });
            }
            Ok(MappedCcAction::ChangeEffectParam { effect_position, param_num })
        },
        RawAction::EffectOnOff => {
            let effect_position = match map.effect_position {
                Some(p) => p,
                None => {
                    return Err(
                        ConfigError::MissingEffectPosition {
                            action: RawAction::EffectOnOff,
                            cc_num: map.cc_num,
                        },
                    );
                },
            };
            if effect_position > MAX_EFFECT_POSITION {
                return Err(
                    ConfigError::EffectPositionOutOfRange { cc_num: map.cc_num, effect_position },
                );
            }
            Ok(MappedCcAction::EffectOnOff { effect_position })
        },
        RawAction::TunerOnOff => Ok(MappedCcAction::TunerOnOff),
    }
}

/// When the mappings are refused at entry `i`, and no entry up to it named a
/// number of 128 or more, validation is defined and gives that error.
proof fn lemma_refused_at(raw: RawConfigView, i: int)
    requires
        header_accepted(raw),
        0 <= i < raw.maps.len(),
        spec_fill_actions(raw.maps, i as nat) is Ok,
        spec_fill_actions(raw.maps, (i + 1) as nat) is Err,
        forall|j: int| 0 <= j < i ==> (#[trigger] raw.maps[j]).cc_num < CC_COUNT,
        spec_map_action(raw.maps[i]) is Ok ==> raw.maps[i].cc_num < CC_COUNT,
    ensures
        validate_defined(raw),
        spec_validate(raw) == Err::<SettingsView, ConfigError>(
            spec_fill_actions(raw.maps, (i + 1) as nat)->Err_0,
        ),
{
    lemma_fill_error_persists(raw.maps, (i + 1) as nat, raw.maps.len());
    assert forall|j: int| 0 <= j < raw.maps.len() && #[trigger] entry_reached(raw, j) implies raw.maps[j].cc_num
        < CC_COUNT by {
        if j > i {
            lemma_fill_error_persists(raw.maps, (i + 1) as nat, j as nat);
        }
    }
}

/// The outcome of checking a raw configuration: valid settings, the error that
/// refuses it, or the number of 128 or more that a mapping reached with names,
/// which the table of mappings has no slot for.
#[derive(Debug)]
pub enum ConfigCheck {
    Valid(Settings),
    Refused(ConfigError),
    CcNumOutOfRange(u8),
}

impl RawConfig {
    /// Checks the raw configuration as `validate` does, and where validation
    /// reaches a mapping whose number has no slot in the table, says so.
    #[verifier::loop_isolation(false)]
    pub fn check(self) -> (res: ConfigCheck)
        ensures
            match res {
                ConfigCheck::Valid(s) => validate_defined(self@) && spec_validate(self@) == Ok::<
                    SettingsView,
                    ConfigError,
                >(s@),
                ConfigCheck::Refused(e) => validate_defined(self@) && spec_validate(self@) == Err::<
                    SettingsView,
                    ConfigError,
                >(e),
                ConfigCheck::CcNumOutOfRange(cc_num) => exists|i: int|
                    #[trigger] first_out_of_range_entry(self@, i) && self@.maps[i].cc_num == cc_num,
            },
    {
        let ghost raw = self@;
        let channel = self.target_output_device_channel;
        if !(1 <= channel && channel <= 16) {
            return ConfigCheck::Refused(ConfigError::ChannelOutOfRange { channel });
        }
        let input_device_prefixes = match validate_device_prefixes(
            self.target_input_devices,
            DeviceListKey::TargetInputDevices,
        ) {
            Ok(v) => v,
            Err(e) => return ConfigCheck::Refused(e),
        };
        let output_names = self.target_output_device.into_vec();
        let output_device_prefixes = match validate_device_prefixes(
            output_names,
            DeviceListKey::TargetOutputDevice,
        ) {
            Ok(v) => v,
            Err(e) => return ConfigCheck::Refused(e),
        };
        assert(header_accepted(raw));

        let maps = self.change_control_maps;
        let mut cc_actions: [Option<MappedCcAction>; 128] = [None; 128];
        assert(cc_actions@ =~= empty_action_table());
        let mut i: usize = 0;
        while i < maps.len()
            invariant
                i <= maps.len(),
                maps@ == raw.maps,
                header_accepted(raw),
                spec_fill_actions(raw.maps, i as nat) == Ok::<
                    Seq<Option<MappedCcAction>>,
                    ConfigError,
                >(cc_actions@),
                forall|j: int| 0 <= j < i ==> (#[trigger] raw.maps[j]).cc_num < CC_COUNT,
                forall|c: int|
                    0 <= c < cc_actions@.len() && (#[trigger] cc_actions@[c]) is Some
                        ==> action_in_range(cc_actions@[c]->0),
            decreases maps.len() - i,
        {
            let map = maps[i];
            assert(map == raw.maps[i as int]);
            let mapped_action = match map_action(map) {
                Ok(a) => a,
                Err(e) => {
                    proof {
                        lemma_refused_at(raw, i as int);
                    }
                    return ConfigCheck::Refused(e);
                },
            };
            if map.cc_num as usize >= CC_COUNT {
                assert(first_out_of_range_entry(raw, i as int));
                return ConfigCheck::CcNumOutOfRange(map.cc_num);
            }
            let slot = map.cc_num as usize;
            if cc_actions[slot].is_some() {
                proof {
                    lemma_refused_at(raw, i as int);
                }
                return ConfigCheck::Refused(ConfigError::DuplicateMapping { cc_num: map.cc_num });
            }
            cc_actions[slot] = Some(mapped_action);
            i = i + 1;
        }
        proof {
            reveal(Seq::filter);
            broadcast use Seq::lemma_filter_pred;

            assert forall|j: int|
                0 <= j < raw.maps.len() && #[trigger] entry_reached(raw, j) implies raw.maps[j].cc_num
                < CC_COUNT by {
                assert(raw.maps[j].cc_num < CC_COUNT);
            }
        }
        let settings = Settings {
            input_device_prefixes,
            output_device_prefixes,
            listen_channel_zero_based: channel - 1,
            cc_actions,
        };
        ConfigCheck::Valid(settings)
    }

    /// Checks the raw configuration and builds the settings from it.
    ///
    /// The channel must be 1 to 16; each list of device prefixes must hold at
    /// least one prefix that is not blank (blank ones are dropped); each mapping
    /// must carry the fields its action needs, within range; no two mappings may
    /// share a control change number.
    pub fn validate(self) -> (res: Result<Settings, ConfigError>)
        requires
            validate_defined(self@),
        ensures
            match spec_validate(self@) {
                Ok(v) => res matches Ok(s) && s@ == v,
                Err(e) => res == Err::<Settings, ConfigError>(e),
            },
            res matches Ok(s) ==> settings_well_formed(s@),
    {
        let ghost raw = self@;
        match self.check() {
            ConfigCheck::Valid(settings) => {
                proof {
                    use_type_invariant(&settings);
                }
                Ok(settings)
            },
            ConfigCheck::Refused(e) => Err(e),
            ConfigCheck::CcNumOutOfRange(cc_num) => {
                // Ruled out by `validate_defined`: the proof below derives false.
                proof {
                    let i = choose|i: int| #[trigger] first_out_of_range_entry(raw, i);
                    assert(entry_reached(raw, i));
                }
                Err(ConfigError::DuplicateMapping { cc_num })
            },
        }
    }
}

impl Settings {
    /// Settings are only ever made by validation, so they are always well formed.
    #[verifier::type_invariant]
    spec fn well_formed(self) -> bool {
        settings_well_formed(self@)
    }

    /// The input device prefixes, in the order in which they are tried.
    pub fn input_device_prefixes(&self) -> (names: &[String])
        ensures
            string_views(names@) == self@.input_device_prefixes,
            settings_well_formed(self@),
    {
        proof {
            use_type_invariant(self);
        }
        self.input_device_prefixes.as_slice()
    }

    /// The output device prefixes, in the order in which they are tried.
    pub fn output_device_prefixes(&self) -> (names: &[String])
        ensures
            string_views(names@) == self@.output_device_prefixes,
            settings_well_formed(self@),
    {
        proof {
            use_type_invariant(self);
        }
        self.output_device_prefixes.as_slice()
    }

    /// The channel that is listened to and sent on, numbered from 0.
    pub fn listen_channel_zero_based(&self) -> (channel: u8)
        ensures
            channel == self@.listen_channel_zero_based,
            settings_well_formed(self@),
    {
        proof {
            use_type_invariant(self);
        }
        self.listen_channel_zero_based
    }

    /// The action of each control change number, `None` where none is mapped.
    pub fn cc_actions(&self) -> (actions: [Option<MappedCcAction>; 128])
        ensures
            actions@ == self@.cc_actions,
            settings_well_formed(self@),
    {
        proof {
            use_type_invariant(self);
        }
        self.cc_actions
    }
}

} // verus!
