use pico_io::dispatch::{command, handle_byte, handle_input};
use pico_io::decoder::{Commands, Decoder};
use pico_io::led::Led;

#[test]
fn rate_zero_stays_off() {
    let mut l = Led::new();
    l.toggle();
    assert!(l.is_on());
    l.set_rate(0);
    for t in [0u64, 1, 1_000_000, u64::MAX] {
        l.run(&t);
        assert!(!l.is_on());
    }
}

#[test]
fn one_toggle_per_period() {
    let mut l = Led::new();
    l.set_rate(10);
    let mut toggles = 0;
    let mut prev = l.is_on();
    // 1 ms steps for 110 ms: toggles when more than 10 ms have passed.
    for ms in 0..=110u64 {
        l.run(&(ms * 1000));
        if l.is_on() != prev {
            toggles += 1;
            prev = l.is_on();
        }
    }
    assert_eq!(toggles, 10);
}

#[test]
fn toggle_exact_threshold() {
    let mut l = Led::new();
    assert_eq!(l.rate(), 500);
    l.run(&500_999);
    assert!(!l.is_on());
    l.run(&501_000);
    assert!(l.is_on());
    l.run(&1_001_999);
    assert!(l.is_on());
    l.run(&1_002_000);
    assert!(!l.is_on());
}

#[test]
fn timer_wraparound() {
    let mut l = Led::new();
    l.set_rate(1);
    l.run(&(u64::MAX - 999));
    assert!(l.is_on());
    // 2000 ticks later, across the wrap.
    l.run(&1000);
    assert!(!l.is_on());
}

#[test]
fn led_then_status_reports_rate() {
    let mut l = Led::new();
    let t = command(&mut l, Commands::Led, 0, 250);
    assert_eq!(t.as_str(), "LA\r\n");
    assert_eq!(l.rate(), 250);
    let t = command(&mut l, Commands::Status, 0, 0);
    assert_eq!(t.as_str(), "SL v0 r250\r\n");
}

#[test]
fn status_when_lit() {
    let mut l = Led::new();
    l.toggle();
    let t = command(&mut l, Commands::Status, 0, 0);
    assert_eq!(t.as_str(), "SL v1 r500\r\n");
}

#[test]
fn valve_is_echoed() {
    let mut l = Led::new();
    let t = command(&mut l, Commands::Valve, 1, 100);
    assert_eq!(t.as_str(), "run_command(command: 'Valve' target: '1' value: '100')\r\n");
    let t = command(&mut l, Commands::Valve, 255, 65535);
    assert_eq!(
        t.as_str(),
        "run_command(command: 'Valve' target: '255' value: '65535')\r\n"
    );
    assert_eq!(l.rate(), 500);
}

#[test]
fn byte_stream_to_responses() {
    let mut d = Decoder::new();
    let mut l = Led::new();
    let out = handle_input(&mut d, &mut l, b"l42\nsx");
    let texts: Vec<&str> = out.iter().map(|t| t.as_str()).collect();
    assert_eq!(texts, vec!["LA\r\n", "SL v0 r42\r\n", "Err: unrecognised 'x'\r\n"]);
    assert_eq!(handle_byte(&mut d, &mut l, b'\n').map(|t| t.len()), None);
}
