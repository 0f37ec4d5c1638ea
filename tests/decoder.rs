use pico_io::decoder::{Commands, DecodeResult, Decoder};

fn feed(d: &mut Decoder, bytes: &[u8]) -> Vec<DecodeResult> {
    let mut out = Vec::new();
    for b in bytes {
        out.push(d.run(b));
    }
    out
}

fn is_noop(r: &DecodeResult) -> bool {
    matches!(r, DecodeResult::NoOp)
}

fn text_of(r: &DecodeResult) -> String {
    match r {
        DecodeResult::Text(t) => String::from(t.as_str()),
        _ => panic!("not text"),
    }
}

#[test]
fn status_is_immediate() {
    let mut d = Decoder::new();
    let out = feed(&mut d, b"s");
    assert_eq!(out.len(), 1);
    assert!(matches!(out[0], DecodeResult::Command(Commands::Status, 0, 0)));
    let out = feed(&mut d, b"S");
    assert!(matches!(out[0], DecodeResult::Command(Commands::Status, 0, 0)));
}

#[test]
fn valve_command_parses() {
    let mut d = Decoder::new();
    let out = feed(&mut d, b"v1100\n");
    for r in &out[..5] {
        assert!(is_noop(r));
    }
    assert!(matches!(out[5], DecodeResult::Command(Commands::Valve, 1, 100)));
}

#[test]
fn led_command_parses() {
    let mut d = Decoder::new();
    let out = feed(&mut d, b"l50\n");
    for r in &out[..3] {
        assert!(is_noop(r));
    }
    assert!(matches!(out[3], DecodeResult::Command(Commands::Led, 0, 50)));
}

#[test]
fn escape_cancels_in_every_state() {
    for prefix in [&b"v"[..], &b"v3"[..], &b"v31"[..], &b"l"[..], &b"l7"[..]] {
        let mut d = Decoder::new();
        feed(&mut d, prefix);
        let r = d.run(&27);
        assert!(is_noop(&r));
        // The decoder is idle again: a digit is now unrecognised.
        let r = d.run(&b'5');
        assert_eq!(text_of(&r), "Err: unrecognised '5'\r\n");
    }
}

#[test]
fn unrecognised_byte_then_valid_command() {
    let mut d = Decoder::new();
    let r = d.run(&b'x');
    assert_eq!(text_of(&r), "Err: unrecognised 'x'\r\n");
    let out = feed(&mut d, b"l50\n");
    assert!(matches!(out[3], DecodeResult::Command(Commands::Led, 0, 50)));
}

#[test]
fn bad_target_goes_idle() {
    let mut d = Decoder::new();
    feed(&mut d, b"V");
    let r = d.run(&b'a');
    assert_eq!(text_of(&r), "Err: bad target 'a'\r\n");
    let out = feed(&mut d, b"s");
    assert!(matches!(out[0], DecodeResult::Command(Commands::Status, 0, 0)));
}

#[test]
fn control_bytes_ignored() {
    let mut d = Decoder::new();
    let out = feed(&mut d, b"\r\n\t");
    assert!(out.iter().all(is_noop));
    let out = feed(&mut d, b"v\r2\n9x");
    assert!(out[..5].iter().all(is_noop));
    assert!(matches!(out[5], DecodeResult::Command(Commands::Valve, 2, 9)));
}

#[test]
fn value_wraps_at_sixteen_bits() {
    let mut d = Decoder::new();
    let out = feed(&mut d, b"l65536\n");
    assert!(matches!(out[6], DecodeResult::Command(Commands::Led, 0, 0)));
    let out = feed(&mut d, b"l70000\n");
    assert!(matches!(out[6], DecodeResult::Command(Commands::Led, 0, 4464)));
    let out = feed(&mut d, b"l65535\n");
    assert!(matches!(out[6], DecodeResult::Command(Commands::Led, 0, 65535)));
}

#[test]
fn state_persists_between_commands() {
    let mut d = Decoder::new();
    feed(&mut d, b"v742\n");
    // Led keeps the target of the previous Valve command.
    let out = feed(&mut d, b"l8;");
    assert!(matches!(out[2], DecodeResult::Command(Commands::Led, 7, 8)));
}

#[test]
fn command_names() {
    assert_eq!(Commands::Status.name(), "Status");
    assert_eq!(Commands::Valve.name(), "Valve");
    assert_eq!(Commands::Led.name(), "Led");
}

#[test]
fn diagnostic_shows_non_ascii_byte_as_character() {
    let mut d = Decoder::new();
    let r = d.run(&0xE9);
    assert_eq!(text_of(&r), "Err: unrecognised '\u{e9}'\r\n");
    feed(&mut d, b"v");
    let r = d.run(&0xFF);
    assert_eq!(text_of(&r), "Err: bad target '\u{ff}'\r\n");
    let r = d.run(&b'~');
    assert_eq!(text_of(&r), "Err: unrecognised '~'\r\n");
}
