use zoom_midi_adaptor::ports::{select_port_index, PortError};

#[test]
fn chooses_first_prefix_match_in_priority_order() {
    let available = vec![
        "Other Device".to_string(),
        "SINCO Foot Controller".to_string(),
        "HX Stomp MIDI".to_string(),
    ];
    let preferred = vec!["HX Stomp".to_string(), "SINCO".to_string()];

    let index = select_port_index(&available, &preferred, "input").expect("should find match");
    assert_eq!(index, 2);
}

#[test]
fn errors_when_no_ports_exist() {
    let err = select_port_index(&[], &["HX".to_string()], "output")
        .expect_err("should fail for empty ports");
    assert!(err.message().contains("no MIDI output ports available"));
}

#[test]
fn fails_when_port_prefixes_do_not_match() {
    let available = vec!["Controller A".to_string(), "Controller B".to_string()];
    let preferred = vec!["HX Stomp".to_string(), "SINCO".to_string()];

    let err = select_port_index(&available, &preferred, "input")
        .expect_err("selection should fail without matching prefix");

    assert!(err
        .message()
        .contains("could not find configured MIDI input device"));
}

#[test]
fn no_match_message_lists_the_prefixes() {
    let available = vec!["Controller A".to_string()];
    let preferred = vec!["HX Stomp".to_string(), "SINCO".to_string()];
    let err = select_port_index(&available, &preferred, "input").expect_err("no match");
    assert_eq!(
        err.message(),
        "could not find configured MIDI input device. configured prefixes: [\"HX Stomp\", \"SINCO\"]"
    );
    match err {
        PortError::NoMatchingDevice {
            port_type,
            preferred_prefixes,
        } => {
            assert_eq!(port_type, "input");
            assert_eq!(preferred_prefixes, preferred);
        }
        _ => panic!("expected a missing device"),
    }
}

#[test]
fn no_ports_message_is_exact() {
    let err = select_port_index(&[], &[], "input").expect_err("no ports");
    assert_eq!(err.message(), "no MIDI input ports available");
}

#[test]
fn first_matching_port_wins_for_one_prefix() {
    let available = vec![
        "ZOOM MS Series Port 2".to_string(),
        "ZOOM MS Series Port 1".to_string(),
    ];
    let preferred = vec!["ZOOM".to_string()];
    assert_eq!(select_port_index(&available, &preferred, "output").unwrap(), 0);
}

#[test]
fn later_prefix_used_when_earlier_matches_nothing() {
    let available = vec!["SINCO Controller".to_string(), "USB Keyboard".to_string()];
    let preferred = vec!["HX Stomp".to_string(), "USB".to_string(), "SINCO".to_string()];
    assert_eq!(select_port_index(&available, &preferred, "input").unwrap(), 1);
}

#[test]
fn prefix_must_match_at_the_start() {
    let available = vec!["My HX Stomp".to_string(), "HX".to_string()];
    let preferred = vec!["HX Stomp".to_string()];
    assert!(select_port_index(&available, &preferred, "input").is_err());
    let whole = vec!["HX Stomp".to_string()];
    assert_eq!(select_port_index(&whole, &preferred, "input").unwrap(), 0);
}

#[test]
fn empty_prefix_list_matches_nothing() {
    let available = vec!["HX Stomp".to_string()];
    let err = select_port_index(&available, &[], "input").expect_err("nothing configured");
    assert_eq!(
        err.message(),
        "could not find configured MIDI input device. configured prefixes: []"
    );
}
