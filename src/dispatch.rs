//! Turns decoded commands into actions on the blink scheduler and response text.
use vstd::prelude::*;
use crate::decoder::{command_name, Commands, DecodeResult, Decoder, DecoderModel, Outcome, step};
use crate::led::{BlinkModel, Led};
use crate::text::{
    ascii_bytes, decimal, lemma_decimal_len, pow10, push_ascii, push_decimal, text_bytes,
    text_new,
};

verus! {

/// Acknowledgement of a Led command.
pub open spec fn led_ack() -> Seq<u8> {
    ascii_bytes("LA\r\n"@)
}

/// Status report: whether the output is lit, and the blink rate.
pub open spec fn status_text(on: bool, rate: u64) -> Seq<u8> {
    ascii_bytes("SL v"@) + (if on {
        ascii_bytes("1"@)
    } else {
        ascii_bytes("0"@)
    }) + ascii_bytes(" r"@) + decimal(rate as nat) + ascii_bytes("\r\n"@)
}

/// Debug line for a command that drives no actuator.
pub open spec fn echo_text(cmd: Commands, target: u8, value: u16) -> Seq<u8> {
    ascii_bytes("run_command(command: '"@) + ascii_bytes(command_name(cmd)) + ascii_bytes(
        "' target: '"@,
    ) + decimal(target as nat) + ascii_bytes("' value: '"@) + decimal(value as nat) + ascii_bytes(
        "')\r\n"@,
    )
}

/// The scheduler after a command, and the response to send.
pub open spec fn dispatch(l: BlinkModel, cmd: Commands, target: u8, value: u16) -> (
    BlinkModel,
    Seq<u8>,
) {
    match cmd {
        Commands::Led => (BlinkModel { rate: value as u64, ..l }, led_ack()),
        Commands::Status => (l, status_text(l.on, l.rate)),
        _ => (l, echo_text(cmd, target, value)),
    }
}

/// Decoder state, scheduler state and the response, if any, after one input
/// byte.
pub open spec fn respond(d: DecoderModel, l: BlinkModel, c: u8) -> (
    DecoderModel,
    BlinkModel,
    Option<Seq<u8>>,
) {
    let (d2, out) = step(d, c);
    match out {
        Outcome::NoOp => (d2, l, None),
        Outcome::Text(t) => (d2, l, Some(t)),
        Outcome::Command(cmd, target, value) => {
            let (l2, t) = dispatch(l, cmd, target, value);
            (d2, l2, Some(t))
        },
    }
}

proof fn lemma_small_numbers(n: u64)
    ensures
        n < 256 ==> decimal(n as nat).len() <= 3,
        n < 65536 ==> decimal(n as nat).len() <= 5,
        decimal(n as nat).len() <= 20,
{
    reveal_with_fuel(pow10, 21);
    if n < 256 {
        lemma_decimal_len(n as nat, 3);
    }
    if n < 65536 {
        lemma_decimal_len(n as nat, 5);
    }
    lemma_decimal_len(n as nat, 20);
}

/// Carries out a decoded command and returns the response to send.
pub fn command(led: &mut Led, cmd: Commands, target: u8, value: u16) -> (r: heapless::String<
    64,
>)
    ensures
        (final(led)@, text_bytes(r)) == dispatch(old(led)@, cmd, target, value),
{
    let mut text = text_new();
    if cmd == Commands::Led {
        led.set_rate(value as u64);
        proof {
            reveal_strlit("LA\r\n");
        }
        push_ascii(&mut text, "LA\r\n");
    } else if cmd == Commands::Status {
        proof {
            reveal_strlit("SL v");
            reveal_strlit("1");
            reveal_strlit("0");
            reveal_strlit(" r");
            reveal_strlit("\r\n");
            lemma_small_numbers(led@.rate);
        }
        push_ascii(&mut text, "SL v");
        if led.is_on() {
            push_ascii(&mut text, "1");
        } else {
            push_ascii(&mut text, "0");
        }
        push_ascii(&mut text, " r");
        push_decimal(&mut text, led.rate());
        push_ascii(&mut text, "\r\n");
        assert(text_bytes(text) =~= status_text(led@.on, led@.rate));
    } else {
        proof {
            reveal_strlit("run_command(command: '");
            reveal_strlit("' target: '");
            reveal_strlit("' value: '");
            reveal_strlit("')\r\n");
            lemma_small_numbers(target as u64);
            lemma_small_numbers(value as u64);
        }
        push_ascii(&mut text, "run_command(command: '");
        push_ascii(&mut text, cmd.name());
        push_ascii(&mut text, "' target: '");
        push_decimal(&mut text, target as u64);
        push_ascii(&mut text, "' value: '");
        push_decimal(&mut text, value as u64);
        push_ascii(&mut text, "')\r\n");
        assert(text_bytes(text) =~= echo_text(cmd, target, value));
    }
    text
}

/// Feeds one input byte to the decoder and carries out what it completes.
/// Returns the text to send back, if any.
pub fn handle_byte(decoder: &mut Decoder, led: &mut Led, c: u8) -> (r: Option<
    heapless::String<64>,
>)
    ensures
        ({
            let (d2, l2, out) = respond(old(decoder)@, old(led)@, c);
            &&& final(decoder)@ == d2
            &&& final(led)@ == l2
            &&& out is None <==> r is None
            &&& r is Some ==> out == Some(text_bytes(r->0))
        }),
{
    match decoder.run(&c) {
        DecodeResult::NoOp => None,
        DecodeResult::Text(text) => Some(text),
        DecodeResult::Command(cmd, target, value) => Some(command(led, cmd, target, value)),
    }
}

/// Decoder state, scheduler state and the responses, in order, after feeding
/// the bytes of `s`.
pub open spec fn respond_all(d: DecoderModel, l: BlinkModel, s: Seq<u8>) -> (
    DecoderModel,
    BlinkModel,
    Seq<Seq<u8>>,
)
    decreases s.len(),
{
    if s.len() == 0 {
        (d, l, Seq::empty())
    } else {
        let (d1, l1, outs) = respond_all(d, l, s.drop_last());
        let (d2, l2, out) = respond(d1, l1, s.last());
        match out {
            Some(t) => (d2, l2, outs.push(t)),
            None => (d2, l2, outs),
        }
    }
}

/// Feeds every byte of `bytes` in order and collects the texts to send back.
pub fn handle_input(decoder: &mut Decoder, led: &mut Led, bytes: &[u8]) -> (r: Vec<
    heapless::String<64>,
>)
    ensures
        ({
            let (d2, l2, outs) = respond_all(old(decoder)@, old(led)@, bytes@);
            &&& final(decoder)@ == d2
            &&& final(led)@ == l2
            &&& r@.len() == outs.len()
            &&& forall|i: int| 0 <= i < outs.len() ==> text_bytes(#[trigger] r@[i]) == outs[i]
        }),
{
    let mut responses: Vec<heapless::String<64>> = Vec::new();
    let n = bytes.len();
    let mut i: usize = 0;
    while i < n
        invariant
            n == bytes@.len(),
            i <= n,
            ({
                let (d2, l2, outs) = respond_all(old(decoder)@, old(led)@, bytes@.subrange(0, i as int));
                &&& decoder@ == d2
                &&& led@ == l2
                &&& responses@.len() == outs.len()
                &&& forall|k: int| 0 <= k < outs.len() ==> text_bytes(#[trigger] responses@[k]) == outs[k]
            }),
        decreases n - i,
    {
        let c = bytes[i];
        assert(bytes@.subrange(0, i + 1).drop_last() =~= bytes@.subrange(0, i as int));
        match handle_byte(decoder, led, c) {
            Some(text) => responses.push(text),
            None => {},
        }
        i += 1;
    }
    assert(bytes@.subrange(0, n as int) =~= bytes@);
    responses
}

/// After a Led command with value `v`, a Status command reports rate `v`.
pub proof fn lemma_status_reports_rate(l: BlinkModel, target: u8, v: u16, t2: u8, v2: u16)
    ensures
        ({
            let (l1, _) = dispatch(l, Commands::Led, target, v);
            let (l2, text) = dispatch(l1, Commands::Status, t2, v2);
            &&& l1.rate == v as u64
            &&& l2 == l1
            &&& text == status_text(l.on, v as u64)
        }),
{
}

} // verus!
