//! Byte-at-a-time decoder for the command protocol.
use vstd::prelude::*;
use vstd::arithmetic::div_mod::{lemma_add_mod_noop, lemma_mul_mod_noop_left};
use crate::text::{
    ascii_bytes, char_utf8, is_ascii, push_ascii, text_bytes, text_new, text_push,
};

verus! {

/// Escape byte: cancels a command in progress.
pub const ESC: u8 = 27;

#[derive(PartialEq, Eq, Clone, Copy, Debug, Structural)]
pub enum Commands {
    Status,
    Valve,
    Led,
}

/// The name of a command kind, as ASCII characters.
pub open spec fn command_name(c: Commands) -> Seq<char> {
    match c {
        Commands::Status => "Status"@,
        Commands::Led => "Led"@,
        Commands::Valve => "Valve"@,
    }
}

impl Commands {
    /// The name of the command kind.
    pub fn name(&self) -> (r: &'static str)
        ensures
            r@ == command_name(*self),
            is_ascii(r@),
            1 <= r@.len() <= 6,
    {
        proof {
            reveal_strlit("Status");
            reveal_strlit("Led");
            reveal_strlit("Valve");
        }
        match self {
            Commands::Status => "Status",
            Commands::Led => "Led",
            Commands::Valve => "Valve",
        }
    }
}

#[derive(PartialEq, Eq, Clone, Copy, Debug, Structural)]
pub enum DecodeState {
    Command,
    Target,
    NextValue,
    Value,
}

pub enum DecodeResult {
    NoOp,
    Text(heapless::String<64>),
    Command(Commands, u8, u16),
}

/// What one decode step produced, with text as its bytes.
pub enum Outcome {
    NoOp,
    Text(Seq<u8>),
    Command(Commands, u8, u16),
}

impl DecodeResult {
    pub open spec fn outcome(&self) -> Outcome {
        match self {
            DecodeResult::NoOp => Outcome::NoOp,
            DecodeResult::Text(t) => Outcome::Text(text_bytes(*t)),
            DecodeResult::Command(c, t, v) => Outcome::Command(*c, *t, *v),
        }
    }
}

/// The decoder's state as plain values.
pub struct DecoderModel {
    pub state: DecodeState,
    pub target: u8,
    pub value: u16,
    pub command: Commands,
}

pub open spec fn is_digit(c: u8) -> bool {
    48 <= c <= 57
}

/// Diagnostic for a byte that starts no command: the byte shown as the
/// character `c as char`.
pub open spec fn unrecognised_text(c: u8) -> Seq<u8> {
    ascii_bytes("Err: unrecognised '"@) + char_utf8(c) + ascii_bytes("'\r\n"@)
}

/// Diagnostic for a byte that is no target digit, shown as a character.
pub open spec fn bad_target_text(c: u8) -> Seq<u8> {
    ascii_bytes("Err: bad target '"@) + char_utf8(c) + ascii_bytes("'\r\n"@)
}

/// Value after one more decimal digit `c`, wrapping at 16 bits.
pub open spec fn accumulate(v: u16, c: u8) -> u16 {
    ((v * 10 + (c - 48)) % 65536) as u16
}

/// One decode step: the state after byte `c`, and what it produced.
pub open spec fn step(d: DecoderModel, c: u8) -> (DecoderModel, Outcome) {
    let idle = DecoderModel { state: DecodeState::Command, ..d };
    match d.state {
        DecodeState::Command => {
            if c == 115 || c == 83 {
                (d, Outcome::Command(Commands::Status, 0, 0))
            } else if c == 118 || c == 86 {
                (DecoderModel { state: DecodeState::Target, command: Commands::Valve, ..d }, Outcome::NoOp)
            } else if c == 108 || c == 76 {
                (DecoderModel { state: DecodeState::NextValue, command: Commands::Led, ..d }, Outcome::NoOp)
            } else if c <= 31 {
                (d, Outcome::NoOp)
            } else {
                (d, Outcome::Text(unrecognised_text(c)))
            }
        },
        DecodeState::Target => {
            if c == ESC {
                (idle, Outcome::NoOp)
            } else if is_digit(c) {
                (DecoderModel { state: DecodeState::NextValue, target: (c - 48) as u8, ..d }, Outcome::NoOp)
            } else if c <= 31 {
                (d, Outcome::NoOp)
            } else {
                (idle, Outcome::Text(bad_target_text(c)))
            }
        },
        DecodeState::NextValue => {
            if c == ESC {
                (idle, Outcome::NoOp)
            } else if is_digit(c) {
                (DecoderModel { state: DecodeState::Value, value: (c - 48) as u16, ..d }, Outcome::NoOp)
            } else {
                (d, Outcome::NoOp)
            }
        },
        DecodeState::Value => {
            if c == ESC {
                (idle, Outcome::NoOp)
            } else if is_digit(c) {
                (DecoderModel { value: accumulate(d.value, c), ..d }, Outcome::NoOp)
            } else {
                (idle, Outcome::Command(d.command, d.target, d.value))
            }
        },
    }
}

/// The state that a fresh decoder starts in.
pub open spec fn initial() -> DecoderModel {
    DecoderModel { state: DecodeState::Command, target: 0, value: 0, command: Commands::Status }
}

pub struct Decoder {
    state: DecodeState,
    target: u8,
    value: u16,
    command: Commands,
}

impl View for Decoder {
    type V = DecoderModel;

    closed spec fn view(&self) -> DecoderModel {
        DecoderModel {
            state: self.state,
            target: self.target,
            value: self.value,
            command: self.command,
        }
    }
}

/// Builds the diagnostic `prefix` + the character `c` + `'` and a line end.
fn diagnostic(prefix: &str, c: u8) -> (r: heapless::String<64>)
    requires
        is_ascii(prefix@),
        prefix@.len() <= 20,
    ensures
        text_bytes(r) == ascii_bytes(prefix@) + char_utf8(c) + ascii_bytes("'\r\n"@),
{
    proof {
        reveal_strlit("'\r\n");
    }
    let mut text = text_new();
    push_ascii(&mut text, prefix);
    let _ = text_push(&mut text, c);
    push_ascii(&mut text, "'\r\n");
    assert(text_bytes(text) =~= ascii_bytes(prefix@) + char_utf8(c) + ascii_bytes("'\r\n"@));
    text
}

impl Decoder {
    pub fn new() -> (r: Decoder)
        ensures
            r@ == initial(),
    {
        Decoder { state: DecodeState::Command, target: 0, value: 0, command: Commands::Status }
    }

    /// Feeds one byte to the decoder.
    pub fn run(&mut self, c: &u8) -> (r: DecodeResult)
        ensures
            (final(self)@, r.outcome()) == step(old(self)@, *c),
    {
        let c = *c;
        match self.state {
            DecodeState::Command => {
                if c == ('s' as u8) || c == ('S' as u8) {
                    return DecodeResult::Command(Commands::Status, 0, 0);
                } else if c == ('v' as u8) || c == ('V' as u8) {
                    self.command = Commands::Valve;
                    self.state = DecodeState::Target;
                } else if c == ('l' as u8) || c == ('L' as u8) {
                    self.command = Commands::Led;
                    self.state = DecodeState::NextValue;
                } else if c <= 31 {
                } else {
                    proof {
                        reveal_strlit("Err: unrecognised '");
                    }
                    return DecodeResult::Text(diagnostic("Err: unrecognised '", c));
                }
            },
            DecodeState::Target => {
                if c == ESC {
                    self.state = DecodeState::Command;
                } else if ('0' as u8) <= c && c <= ('9' as u8) {
                    self.target = c - ('0' as u8);
                    self.state = DecodeState::NextValue;
                } else if c <= 31 {
                } else {
                    proof {
                        reveal_strlit("Err: bad target '");
                    }
                    self.state = DecodeState::Command;
                    return DecodeResult::Text(diagnostic("Err: bad target '", c));
                }
            },
            DecodeState::NextValue => {
                if c == ESC {
                    self.state = DecodeState::Command;
                } else if ('0' as u8) <= c && c <= ('9' as u8) {
                    self.value = (c - ('0' as u8)) as u16;
                    self.state = DecodeState::Value;
                }
            },
            DecodeState::Value => {
                if c == ESC {
                    self.state = DecodeState::Command;
                } else if ('0' as u8) <= c && c <= ('9' as u8) {
                    self.value = ((self.value as u32 * 10 + (c - ('0' as u8)) as u32) % 65536) as u16;
                } else {
                    self.state = DecodeState::Command;
                    return DecodeResult::Command(self.command, self.target, self.value);
                }
            },
        }
        DecodeResult::NoOp
    }
}

/// The decoder state after feeding the bytes of `s` in order.
pub open spec fn run_all(d: DecoderModel, s: Seq<u8>) -> DecoderModel
    decreases s.len(),
{
    if s.len() == 0 {
        d
    } else {
        step(run_all(d, s.drop_last()), s.last()).0
    }
}

/// The number that the decimal digits of `s` denote.
pub open spec fn digits_number(s: Seq<u8>) -> nat
    decreases s.len(),
{
    if s.len() == 0 {
        0
    } else {
        digits_number(s.drop_last()) * 10 + (s.last() - 48) as nat
    }
}

/// While idle, a status letter is answered at once with a Status command of
/// target and value zero, and the decoder stays as it was.
pub proof fn lemma_status_immediate(d: DecoderModel, c: u8)
    requires
        d.state == DecodeState::Command,
        c == 115 || c == 83,
    ensures
        step(d, c) == (d, Outcome::Command(Commands::Status, 0, 0)),
{
}

/// An escape byte while a command is in progress cancels it: the decoder goes
/// idle and produces neither a command nor text.
pub proof fn lemma_escape_cancels(d: DecoderModel)
    requires
        d.state != DecodeState::Command,
    ensures
        step(d, ESC).0 == (DecoderModel { state: DecodeState::Command, ..d }),
        step(d, ESC).1 == Outcome::NoOp,
{
}

/// A printable byte that starts no command produces a diagnostic and leaves
/// the idle decoder exactly as it was, so the next command parses as usual.
pub proof fn lemma_unrecognised_keeps_idle(d: DecoderModel, c: u8)
    requires
        d.state == DecodeState::Command,
        c > 31,
        c != 115 && c != 83 && c != 118 && c != 86 && c != 108 && c != 76,
    ensures
        step(d, c) == (d, Outcome::Text(unrecognised_text(c))),
{
}

/// Once a value is awaited, a run of digits leaves the decoder reading a value
/// equal to the number those digits denote, wrapped to 16 bits.
pub proof fn lemma_value_wraps(d: DecoderModel, s: Seq<u8>)
    requires
        d.state == DecodeState::NextValue,
        s.len() > 0,
        forall|i: int| 0 <= i < s.len() ==> is_digit(#[trigger] s[i]),
    ensures
        run_all(d, s).state == DecodeState::Value,
        run_all(d, s).value == digits_number(s) % 65536,
    decreases s.len(),
{
    let p = s.drop_last();
    let c = s.last();
    if p.len() == 0 {
        assert(run_all(d, p) == d);
        assert(digits_number(p) == 0);
    } else {
        assert forall|i: int| 0 <= i < p.len() implies is_digit(#[trigger] p[i]) by {
            assert(p[i] == s[i]);
        }
        lemma_value_wraps(d, p);
        let n = digits_number(p);
        let v = run_all(d, p).value;
        assert(v == n % 65536);
        lemma_mul_mod_noop_left(n as int, 10, 65536);
        lemma_add_mod_noop(n as int * 10, (c - 48) as int, 65536);
        lemma_add_mod_noop((n as int % 65536) * 10, (c - 48) as int, 65536);
        assert(((c - 48) as int) % 65536 == (c - 48) as int);
        assert((((n as int % 65536) * 10) % 65536) == (n as int * 10) % 65536);
    }
}

} // verus!
