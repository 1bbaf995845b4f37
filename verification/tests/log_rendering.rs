use zoom_midi_adaptor::rendering::{format_input_message, format_midi_bytes, format_midi_log_line};

#[test]
fn renders_program_and_control_changes() {
    assert_eq!(format_input_message(&[0xC2, 5]), "PC 5");
    assert_eq!(format_input_message(&[0xB2, 11, 99]), "CC 11 99");
    assert_eq!(format_input_message(&[0xB0, 0, 127]), "CC 0 127");
    assert_eq!(format_input_message(&[0xC0, 200]), "PC 200");
}

#[test]
fn renders_unknown_messages() {
    assert_eq!(format_input_message(&[]), "UNKNOWN");
    assert_eq!(format_input_message(&[0xC2]), "UNKNOWN");
    assert_eq!(format_input_message(&[0xB2, 11]), "UNKNOWN");
    assert_eq!(format_input_message(&[0x90, 60, 100]), "UNKNOWN");
}

#[test]
fn renders_bytes_in_hex() {
    assert_eq!(format_midi_bytes(&[0xB2, 0x0B, 0x63]), "B2 0B 63");
    assert_eq!(
        format_midi_bytes(&[0xF0, 0x52, 0x00, 0x58, 0x31, 0x00, 0x02, 0x63, 0x00, 0xF7]),
        "F0 52 00 58 31 00 02 63 00 F7"
    );
    assert_eq!(format_midi_bytes(&[]), "");
    assert_eq!(format_midi_bytes(&[0xFF]), "FF");
}

#[test]
fn renders_the_log_line() {
    assert_eq!(
        format_midi_log_line(
            &[0xB2, 0x0B, 0x63],
            &[0xF0, 0x52, 0x00, 0x58, 0x31, 0x00, 0x02, 0x63, 0x00, 0xF7]
        ),
        "midi in=CC 11 99 hex_in=[B2 0B 63] hex_out=[F0 52 00 58 31 00 02 63 00 F7]"
    );
    assert_eq!(
        format_midi_log_line(&[0xC2, 0x05], &[0xC2, 0x05]),
        "midi in=PC 5 hex_in=[C2 05] hex_out=[C2 05]"
    );
}

#[test]
fn hex_rendering_reads_back() {
    let bytes = [0x00u8, 0x7F, 0x80, 0xAB, 0xFF];
    let text = format_midi_bytes(&bytes);
    let back: Vec<u8> = text
        .split(' ')
        .map(|t| u8::from_str_radix(t, 16).unwrap())
        .collect();
    assert_eq!(back, bytes);
}
