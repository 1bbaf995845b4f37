use zoom_midi_adaptor::config::{
    RawAction, RawChangeControlMap, RawConfig, RawDeviceNames, Settings,
};
use zoom_midi_adaptor::ports::select_port_index;
use zoom_midi_adaptor::translator::{TranslateError, TranslatedMessage, Translator};

fn map(
    cc_num: u8,
    action: RawAction,
    effect_position: Option<u8>,
    param_num: Option<u8>,
) -> RawChangeControlMap {
    RawChangeControlMap {
        cc_num,
        action,
        effect_position,
        param_num,
    }
}

fn strings(names: &[&str]) -> Vec<String> {
    names.iter().map(|s| s.to_string()).collect()
}

fn settings_with_maps() -> Settings {
    RawConfig {
        target_input_devices: strings(&["HX Stomp"]),
        target_output_device: RawDeviceNames::Multiple(strings(&["ZOOM MS Series"])),
        target_output_device_channel: 3,
        change_control_maps: vec![
            map(0, RawAction::TunerOnOff, None, None),
            map(10, RawAction::EffectOnOff, Some(1), None),
            map(11, RawAction::ChangeEffectParam, Some(2), Some(7)),
        ],
    }
    .validate()
    .expect("validated settings")
}

fn sent<'a>(message: &'a TranslatedMessage<'a>) -> &'a [u8] {
    match message {
        TranslatedMessage::Forward(bytes) => bytes,
        TranslatedMessage::Generated { bytes, len } => &bytes[..*len],
    }
}

#[test]
fn forwards_program_change_on_listen_channel() {
    let settings = settings_with_maps();
    let translator = Translator::new(&settings);

    let translated = translator
        .translate(&[0xC2, 0x2A])
        .expect("translation should work")
        .expect("message should be forwarded");
    match translated {
        TranslatedMessage::Forward(bytes) => assert_eq!(bytes, &[0xC2, 0x2A]),
        _ => panic!("expected forwarded message"),
    }
}

#[test]
fn ignores_program_change_on_other_channel() {
    let settings = settings_with_maps();
    let translator = Translator::new(&settings);

    let translated = translator
        .translate(&[0xC1, 0x2A])
        .expect("translation should work");
    assert!(translated.is_none());
}

#[test]
fn maps_change_effect_param_cc_to_sysex() {
    let settings = settings_with_maps();
    let translator = Translator::new(&settings);

    let translated = translator
        .translate(&[0xB2, 11, 99])
        .expect("translation should work")
        .expect("message should be transformed");
    match translated {
        TranslatedMessage::Generated { bytes, len } => {
            assert_eq!(len, 10);
            assert_eq!(
                &bytes[..len],
                &[0xF0, 0x52, 0x00, 0x58, 0x31, 2, 7, 99, 0, 0xF7]
            );
        }
        _ => panic!("expected generated message"),
    }
}

#[test]
fn maps_effect_on_off_threshold() {
    let settings = settings_with_maps();
    let translator = Translator::new(&settings);

    let off = translator
        .translate(&[0xB2, 10, 64])
        .expect("translation should work")
        .expect("message should be transformed");
    let on = translator
        .translate(&[0xB2, 10, 65])
        .expect("translation should work")
        .expect("message should be transformed");

    match off {
        TranslatedMessage::Generated { bytes, len } => {
            assert_eq!(
                &bytes[..len],
                &[0xF0, 0x52, 0x00, 0x58, 0x31, 1, 0, 0, 0, 0xF7]
            );
        }
        _ => panic!("expected generated message"),
    }
    match on {
        TranslatedMessage::Generated { bytes, len } => {
            assert_eq!(
                &bytes[..len],
                &[0xF0, 0x52, 0x00, 0x58, 0x31, 1, 0, 1, 0, 0xF7]
            );
        }
        _ => panic!("expected generated message"),
    }
}

#[test]
fn maps_tuner_cc_to_channel_specific_cc74() {
    let settings = settings_with_maps();
    let translator = Translator::new(&settings);

    let translated = translator
        .translate(&[0xB2, 0, 127])
        .expect("translation should work")
        .expect("message should be transformed");
    match translated {
        TranslatedMessage::Generated { bytes, len } => {
            assert_eq!(len, 3);
            assert_eq!(&bytes[..len], &[0xB2, 0x4A, 127]);
        }
        _ => panic!("expected generated message"),
    }
}

#[test]
fn loads_config_file_and_selects_expected_ports() {
    let settings = RawConfig {
        target_input_devices: strings(&["HX Stomp", "SINCO"]),
        target_output_device: RawDeviceNames::Multiple(strings(&["ZOOM MS Series"])),
        target_output_device_channel: 3,
        change_control_maps: vec![map(11, RawAction::ChangeEffectParam, Some(0), Some(2))],
    }
    .validate()
    .expect("settings should load from file");

    let input_ports = vec![
        "USB MIDI Keyboard".to_string(),
        "HX Stomp MIDI 1".to_string(),
        "SINCO Controller".to_string(),
    ];
    let output_ports = vec![
        "Scarlett MIDI".to_string(),
        "ZOOM MS Series Port 1".to_string(),
    ];

    let input_index = select_port_index(&input_ports, settings.input_device_prefixes(), "input")
        .expect("input port should be selected");
    let output_index =
        select_port_index(&output_ports, settings.output_device_prefixes(), "output")
            .expect("output port should be selected");

    assert_eq!(input_index, 1);
    assert_eq!(output_index, 1);
}

#[test]
fn processes_messages_end_to_end_from_config_to_translator_output() {
    let settings = RawConfig {
        target_input_devices: strings(&["HX Stomp"]),
        target_output_device: RawDeviceNames::Multiple(strings(&["ZOOM MS Series"])),
        target_output_device_channel: 3,
        change_control_maps: vec![
            map(10, RawAction::EffectOnOff, Some(1), None),
            map(11, RawAction::ChangeEffectParam, Some(0), Some(2)),
        ],
    }
    .validate()
    .expect("settings should load from file");
    let translator = Translator::new(&settings);

    let startup = Translator::build_startup_message();
    assert_eq!(startup, [0xF0, 0x52, 0x00, 0x58, 0x50, 0xF7]);

    let forwarded_pc = translator
        .translate(&[0xC2, 0x05])
        .expect("translation should succeed")
        .expect("pc on listen channel should pass through");
    match forwarded_pc {
        TranslatedMessage::Forward(bytes) => assert_eq!(bytes, &[0xC2, 0x05]),
        _ => panic!("expected forwarded program change"),
    }

    let mapped_cc = translator
        .translate(&[0xB2, 11, 99])
        .expect("translation should succeed")
        .expect("mapped cc should produce sysex");
    match mapped_cc {
        TranslatedMessage::Generated { bytes, len } => {
            assert_eq!(
                &bytes[..len],
                &[0xF0, 0x52, 0x00, 0x58, 0x31, 0, 2, 99, 0, 0xF7]
            )
        }
        _ => panic!("expected generated sysex message"),
    }

    let unmapped_cc = translator
        .translate(&[0xB2, 99, 100])
        .expect("translation should succeed");
    assert!(unmapped_cc.is_none());

    let wrong_channel_pc = translator
        .translate(&[0xC1, 0x05])
        .expect("translation should succeed");
    assert!(wrong_channel_pc.is_none());
}

#[test]
fn fails_loading_invalid_config_file() {
    let err = RawConfig {
        target_input_devices: strings(&["HX Stomp"]),
        target_output_device: RawDeviceNames::Multiple(strings(&["ZOOM MS Series"])),
        target_output_device_channel: 3,
        change_control_maps: vec![map(11, RawAction::ChangeEffectParam, None, Some(2))],
    }
    .validate()
    .expect_err("invalid config should fail");
    assert!(err.message().contains("effectPosition"));
}

#[test]
fn empty_message_is_an_error() {
    let translator = Translator::new(&settings_with_maps());
    let err = translator.translate(&[]).expect_err("empty");
    assert!(matches!(err, TranslateError::EmptyMessage));
    assert_eq!(err.message(), "received empty MIDI message");
}

#[test]
fn short_program_change_is_an_error() {
    let translator = Translator::new(&settings_with_maps());
    let err = translator.translate(&[0xC2]).expect_err("too short");
    match &err {
        TranslateError::ProgramChangeTooShort(bytes) => assert_eq!(bytes, &vec![0xC2]),
        _ => panic!("expected a short program change"),
    }
    assert_eq!(err.message(), "program change message too short: [194]");
}

#[test]
fn short_control_change_is_an_error() {
    let translator = Translator::new(&settings_with_maps());
    let err = translator.translate(&[0xB2, 11]).expect_err("too short");
    match &err {
        TranslateError::ControlChangeTooShort(bytes) => assert_eq!(bytes, &vec![0xB2, 11]),
        _ => panic!("expected a short control change"),
    }
    assert_eq!(err.message(), "control change message too short: [178, 11]");
}

#[test]
fn short_message_on_other_channel_is_ignored() {
    let translator = Translator::new(&settings_with_maps());
    assert!(translator.translate(&[0xB5]).expect("ok").is_none());
    assert!(translator.translate(&[0xC0]).expect("ok").is_none());
}

#[test]
fn program_change_forwards_only_two_bytes() {
    let translator = Translator::new(&settings_with_maps());
    let out = translator
        .translate(&[0xC2, 0x10, 0x55])
        .expect("ok")
        .expect("forwarded");
    assert_eq!(sent(&out), &[0xC2, 0x10]);
    assert!(matches!(out, TranslatedMessage::Forward(_)));
}

#[test]
fn other_message_types_are_ignored() {
    let translator = Translator::new(&settings_with_maps());
    for status in [0x82u8, 0x92, 0xA2, 0xD2, 0xE2, 0xF2, 0x02] {
        assert!(translator
            .translate(&[status, 11, 99])
            .expect("ok")
            .is_none());
    }
}

#[test]
fn tuner_message_is_padded_with_zeros() {
    let translator = Translator::new(&settings_with_maps());
    match translator.translate(&[0xB2, 0, 5]).expect("ok").expect("some") {
        TranslatedMessage::Generated { bytes, len } => {
            assert_eq!(len, 3);
            assert_eq!(bytes, [0xB2, 0x4A, 5, 0, 0, 0, 0, 0, 0, 0]);
        }
        _ => panic!("expected generated message"),
    }
}

#[test]
fn effect_switch_extremes() {
    let translator = Translator::new(&settings_with_maps());
    let zero = translator.translate(&[0xB2, 10, 0]).expect("ok").expect("some");
    assert_eq!(sent(&zero), &[0xF0, 0x52, 0x00, 0x58, 0x31, 1, 0, 0, 0, 0xF7]);
    let full = translator.translate(&[0xB2, 10, 127]).expect("ok").expect("some");
    assert_eq!(sent(&full), &[0xF0, 0x52, 0x00, 0x58, 0x31, 1, 0, 1, 0, 0xF7]);
}

#[test]
fn translator_follows_settings_channel() {
    let settings = RawConfig {
        target_input_devices: strings(&["HX"]),
        target_output_device: RawDeviceNames::Single("ZOOM".to_string()),
        target_output_device_channel: 16,
        change_control_maps: vec![map(5, RawAction::TunerOnOff, None, None)],
    }
    .validate()
    .expect("valid");
    let translator = Translator::new(&settings);
    let out = translator.translate(&[0xBF, 5, 1]).expect("ok").expect("some");
    assert_eq!(sent(&out), &[0xBF, 0x4A, 1]);
    assert!(translator.translate(&[0xB2, 5, 1]).expect("ok").is_none());
}
