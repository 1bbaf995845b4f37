use zoom_midi_adaptor::config::{
    ConfigCheck, ConfigError, DeviceListKey, MappedCcAction, RawAction, RawChangeControlMap, RawConfig,
    RawDeviceNames,
};

fn map(
    cc_num: u8,
    action: RawAction,
    effect_position: Option<u8>,
    param_num: Option<u8>,
) -> RawChangeControlMap {
    RawChangeControlMap {
        cc_num,
        action,
        effect_position,
        param_num,
    }
}

fn raw(
    inputs: &[&str],
    output: RawDeviceNames,
    channel: u8,
    maps: Vec<RawChangeControlMap>,
) -> RawConfig {
    RawConfig {
        target_input_devices: inputs.iter().map(|s| s.to_string()).collect(),
        target_output_device: output,
        target_output_device_channel: channel,
        change_control_maps: maps,
    }
}

fn zoom() -> RawDeviceNames {
    RawDeviceNames::Single("ZOOM".to_string())
}

#[test]
fn parses_pedalboard_style_config() {
    let raw_config = raw(
        &["HX Stomp"],
        RawDeviceNames::Multiple(vec!["ZOOM MS Series".to_string()]),
        3,
        vec![
            map(0, RawAction::TunerOnOff, None, None),
            map(10, RawAction::EffectOnOff, Some(1), None),
            map(11, RawAction::ChangeEffectParam, Some(1), Some(2)),
        ],
    );
    let settings = raw_config.validate().expect("validated settings");
    let actions = settings.cc_actions();

    assert_eq!(settings.listen_channel_zero_based(), 2);
    assert!(matches!(actions[0], Some(MappedCcAction::TunerOnOff)));
    assert!(matches!(
        actions[10],
        Some(MappedCcAction::EffectOnOff { effect_position: 1 })
    ));
    assert!(matches!(
        actions[11],
        Some(MappedCcAction::ChangeEffectParam {
            effect_position: 1,
            param_num: 2
        })
    ));
}

#[test]
fn rejects_duplicate_cc_mappings() {
    let raw_config = raw(
        &["HX Stomp"],
        zoom(),
        1,
        vec![
            map(10, RawAction::TunerOnOff, None, None),
            map(10, RawAction::TunerOnOff, None, None),
        ],
    );
    let err = raw_config.validate().expect_err("duplicate should fail");
    assert!(err.message().contains("duplicate"));
}

#[test]
fn rejects_missing_effect_position() {
    let raw_config = raw(
        &["HX Stomp"],
        zoom(),
        1,
        vec![map(11, RawAction::ChangeEffectParam, None, Some(2))],
    );
    let err = raw_config
        .validate()
        .expect_err("missing field should fail");
    assert!(err.message().contains("effectPosition"));
}

#[test]
fn unmapped_numbers_have_no_action() {
    let settings = raw(
        &["HX Stomp"],
        zoom(),
        16,
        vec![map(127, RawAction::TunerOnOff, None, None)],
    )
    .validate()
    .expect("valid");
    let actions = settings.cc_actions();
    assert_eq!(settings.listen_channel_zero_based(), 15);
    assert_eq!(actions[127], Some(MappedCcAction::TunerOnOff));
    assert!(actions[..127].iter().all(|a| a.is_none()));
}

#[test]
fn rejects_channel_out_of_range() {
    for channel in [0u8, 17, 255] {
        let err = raw(&["HX"], zoom(), channel, vec![])
            .validate()
            .expect_err("channel out of range");
        assert_eq!(err, ConfigError::ChannelOutOfRange { channel });
    }
    let err = raw(&["HX"], zoom(), 0, vec![]).validate().unwrap_err();
    assert_eq!(
        err.message(),
        "targetOutputDeviceChannel must be between 1 and 16, got 0"
    );
    assert_eq!(
        ConfigError::ChannelOutOfRange { channel: 200 }.message(),
        "targetOutputDeviceChannel must be between 1 and 16, got 200"
    );
}

#[test]
fn channel_checked_before_prefixes() {
    let err = raw(&[], zoom(), 0, vec![]).validate().unwrap_err();
    assert_eq!(err, ConfigError::ChannelOutOfRange { channel: 0 });
}

#[test]
fn rejects_empty_input_list() {
    let err = raw(&[], zoom(), 1, vec![]).validate().unwrap_err();
    assert_eq!(
        err,
        ConfigError::NoDevicePrefixes {
            key: DeviceListKey::TargetInputDevices
        }
    );
    assert_eq!(
        err.message(),
        "targetInputDevices must contain at least one MIDI device prefix"
    );
}

#[test]
fn rejects_blank_output_list() {
    let err = raw(
        &["HX"],
        RawDeviceNames::Multiple(vec!["  ".to_string(), "\t\n".to_string(), "".to_string()]),
        1,
        vec![],
    )
    .validate()
    .unwrap_err();
    assert_eq!(
        err,
        ConfigError::BlankDevicePrefixes {
            key: DeviceListKey::TargetOutputDevice
        }
    );
    assert_eq!(err.message(), "targetOutputDevice cannot be empty");
}

#[test]
fn rejects_empty_output_list() {
    let err = raw(&["HX"], RawDeviceNames::Multiple(vec![]), 1, vec![])
        .validate()
        .unwrap_err();
    assert_eq!(
        err.message(),
        "targetOutputDevice must contain at least one MIDI device prefix"
    );
}

#[test]
fn blank_prefixes_are_dropped_in_order() {
    let settings = raw(
        &[" ", "HX Stomp", "\u{3000}", "SINCO"],
        RawDeviceNames::Multiple(vec!["ZOOM".to_string(), " ".to_string()]),
        2,
        vec![],
    )
    .validate()
    .expect("valid");
    assert_eq!(
        settings.input_device_prefixes(),
        &["HX Stomp".to_string(), "SINCO".to_string()]
    );
    assert_eq!(settings.output_device_prefixes(), &["ZOOM".to_string()]);
}

#[test]
fn prefixes_keep_their_spaces() {
    let settings = raw(&[" HX "], zoom(), 2, vec![]).validate().expect("valid");
    assert_eq!(settings.input_device_prefixes(), &[" HX ".to_string()]);
}

#[test]
fn single_output_device_becomes_a_list() {
    let names = RawDeviceNames::Single("ZOOM".to_string()).into_vec();
    assert_eq!(names, vec!["ZOOM".to_string()]);
    let names = RawDeviceNames::Multiple(vec!["A".to_string(), "B".to_string()]).into_vec();
    assert_eq!(names, vec!["A".to_string(), "B".to_string()]);
}

#[test]
fn rejects_effect_position_above_five() {
    let err = raw(
        &["HX"],
        zoom(),
        1,
        vec![map(3, RawAction::EffectOnOff, Some(6), None)],
    )
    .validate()
    .unwrap_err();
    assert_eq!(
        err,
        ConfigError::EffectPositionOutOfRange {
            cc_num: 3,
            effect_position: 6
        }
    );
    assert_eq!(
        err.message(),
        "effectPosition must be between 0 and 5 for ccNum 3, got 6"
    );
}

#[test]
fn rejects_missing_param_num() {
    let err = raw(
        &["HX"],
        zoom(),
        1,
        vec![map(42, RawAction::ChangeEffectParam, Some(5), None)],
    )
    .validate()
    .unwrap_err();
    assert_eq!(err, ConfigError::MissingParamNum { cc_num: 42 });
    assert_eq!(
        err.message(),
        "changeEffectParam mapping for ccNum 42 must include paramNum"
    );
}

#[test]
fn rejects_param_num_above_127() {
    let err = raw(
        &["HX"],
        zoom(),
        1,
        vec![map(7, RawAction::ChangeEffectParam, Some(0), Some(128))],
    )
    .validate()
    .unwrap_err();
    assert_eq!(
        err,
        ConfigError::ParamNumOutOfRange {
            cc_num: 7,
            param_num: 128
        }
    );
    assert_eq!(
        err.message(),
        "paramNum must be between 0 and 127 for ccNum 7, got 128"
    );
}

#[test]
fn missing_effect_position_messages_name_the_action() {
    let err = raw(
        &["HX"],
        zoom(),
        1,
        vec![map(9, RawAction::EffectOnOff, None, None)],
    )
    .validate()
    .unwrap_err();
    assert_eq!(
        err.message(),
        "effectOnOff mapping for ccNum 9 must include effectPosition"
    );
    let err = raw(
        &["HX"],
        zoom(),
        1,
        vec![map(100, RawAction::ChangeEffectParam, None, None)],
    )
    .validate()
    .unwrap_err();
    assert_eq!(
        err.message(),
        "changeEffectParam mapping for ccNum 100 must include effectPosition"
    );
}

#[test]
fn first_bad_mapping_is_reported() {
    let err = raw(
        &["HX"],
        zoom(),
        1,
        vec![
            map(1, RawAction::TunerOnOff, None, None),
            map(2, RawAction::EffectOnOff, None, None),
            map(1, RawAction::TunerOnOff, None, None),
        ],
    )
    .validate()
    .unwrap_err();
    assert_eq!(
        err,
        ConfigError::MissingEffectPosition {
            action: RawAction::EffectOnOff,
            cc_num: 2
        }
    );
}

#[test]
fn duplicate_message_is_exact() {
    assert_eq!(
        ConfigError::DuplicateMapping { cc_num: 10 }.message(),
        "duplicate changeControlMaps entry for ccNum 10"
    );
}

#[test]
fn channel_error_comes_before_out_of_range_cc_number() {
    let err = raw(
        &["HX"],
        zoom(),
        0,
        vec![map(200, RawAction::TunerOnOff, None, None)],
    )
    .validate()
    .unwrap_err();
    assert_eq!(err, ConfigError::ChannelOutOfRange { channel: 0 });
}

#[test]
fn mapping_error_comes_before_out_of_range_cc_number() {
    let err = raw(
        &["HX"],
        zoom(),
        1,
        vec![map(200, RawAction::EffectOnOff, None, None)],
    )
    .validate()
    .unwrap_err();
    assert_eq!(
        err,
        ConfigError::MissingEffectPosition {
            action: RawAction::EffectOnOff,
            cc_num: 200
        }
    );
}

#[test]
fn check_reports_reached_out_of_range_cc_number() {
    let outcome = raw(
        &["HX"],
        zoom(),
        1,
        vec![
            map(3, RawAction::TunerOnOff, None, None),
            map(130, RawAction::TunerOnOff, None, None),
            map(140, RawAction::TunerOnOff, None, None),
        ],
    )
    .check();
    assert!(matches!(outcome, ConfigCheck::CcNumOutOfRange(130)));
}

#[test]
fn check_reports_refusal_and_validity() {
    let refused = raw(&["HX"], zoom(), 17, vec![]).check();
    assert!(matches!(
        refused,
        ConfigCheck::Refused(ConfigError::ChannelOutOfRange { channel: 17 })
    ));
    match raw(&["HX"], zoom(), 4, vec![]).check() {
        ConfigCheck::Valid(settings) => assert_eq!(settings.listen_channel_zero_based(), 3),
        other => panic!("expected valid settings, got {:?}", other),
    }
}
