//! The guest's side of the demonstration: what the guest asks of its host
//! each time it is run.
//!
//! The guest decides; it does not act. `run` gives the requests in the order
//! in which the guest makes them, and whoever embeds the guest carries them
//! out through its imports. The guest's state is the caller's to keep: no
//! global and no lock, because a guest is entered by one thread at a time.

use std::fmt::Write;
use vstd::prelude::*;
use vstd::pervasive::unreached;
use vstd::utf8::{encode_utf8, is_ascii_chars_encode_utf8};

verus! {

/// The level the guest wants the LED at.
#[derive(Debug, Clone, Copy, PartialEq, Eq, Structural)]
pub enum LedState {
    On,
    Off,
}

/// One request of the guest to its host.
#[derive(Debug, Clone, PartialEq, Eq)]
pub enum HostCall {
    /// `logging.log` with this text.
    Log(String),
    /// `env.init_led` for this pin.
    InitLed(u32),
    /// `env.set_led` with this argument.
    SetLed(u32),
}

pub enum HostCallView {
    Log(Seq<char>),
    InitLed(u32),
    SetLed(u32),
}

impl View for HostCall {
    type V = HostCallView;

    open spec fn view(&self) -> HostCallView {
        match self {
            HostCall::Log(text) => HostCallView::Log(text@),
            HostCall::InitLed(pin) => HostCallView::InitLed(*pin),
            HostCall::SetLed(level) => HostCallView::SetLed(*level),
        }
    }
}

/// The views of a run of requests.
pub open spec fn calls_view(calls: Seq<HostCall>) -> Seq<HostCallView> {
    calls.map_values(|call: HostCall| call@)
}

/// The pin the LED is on.
pub const LED_PIN: u32 = 28;

/// What the guest remembers between runs: how often it has run.
#[derive(Debug, Clone, Copy, PartialEq, Eq, Structural)]
pub struct GuestState {
    pub counter: u32,
}

/// The character for a decimal digit.
pub open spec fn digit_char(digit: nat) -> char {
    if digit == 0 {
        '0'
    } else if digit == 1 {
        '1'
    } else if digit == 2 {
        '2'
    } else if digit == 3 {
        '3'
    } else if digit == 4 {
        '4'
    } else if digit == 5 {
        '5'
    } else if digit == 6 {
        '6'
    } else if digit == 7 {
        '7'
    } else if digit == 8 {
        '8'
    } else {
        '9'
    }
}

/// A number in decimal, without leading zeros.
pub open spec fn decimal(number: nat) -> Seq<char>
    decreases number,
{
    if number < 10 {
        seq![digit_char(number)]
    } else {
        decimal(number / 10).push(digit_char(number % 10))
    }
}

/// The requests of one run of a guest that has run `counter` times before:
/// it announces itself, initialises the LED, switches it on in every even
/// run and off in every odd one, and reports the new count.
pub open spec fn run_calls(counter: u32) -> Seq<HostCallView> {
    seq![
        HostCallView::Log("starting"@),
        HostCallView::InitLed(LED_PIN),
        HostCallView::Log("initialized"@),
        HostCallView::Log(
            if counter % 2 == 0 {
                "led on"@
            } else {
                "led off"@
            },
        ),
        HostCallView::SetLed(
            if counter % 2 == 0 {
                1
            } else {
                0
            },
        ),
        HostCallView::Log("updating state"@),
        HostCallView::Log("counter: "@ + decimal((counter + 1) as nat)),
    ]
}

/// Writes `prefix` and then the count into a `heapless::String` of 32 bytes
/// with `write!`, and copies the buffer out.
///
/// Trusted: a `u32` is written in decimal without leading zeros, which takes
/// ten bytes at most; the buffer holds what was written to it, and the write
/// fails only when 32 bytes do not take it.
#[verifier::external_body]
fn counter_line(prefix: &str, counter: u32) -> (line: Option<String>)
    ensures
        line matches Some(text) ==> text@ == prefix@ + decimal(counter as nat),
        encode_utf8(prefix@).len() + 10 <= 32 ==> line is Some,
{
    let mut buffer: heapless::String<32> = heapless::String::new();
    write!(buffer, "{}{}", prefix, counter).ok()?;
    Some(String::from(buffer.as_str()))
}

/// The request that sets the LED: 1 for on, 0 for off.
pub fn set_led_state(state: LedState) -> (call: HostCall)
    ensures
        call == (match state {
            LedState::On => HostCall::SetLed(1),
            LedState::Off => HostCall::SetLed(0),
        }),
{
    match state {
        LedState::On => HostCall::SetLed(1),
        LedState::Off => HostCall::SetLed(0),
    }
}

/// The request that initialises the LED on `pin_number`.
pub fn init_output_pin(pin_number: u32) -> (call: HostCall)
    ensures
        call == HostCall::InitLed(pin_number),
{
    HostCall::InitLed(pin_number)
}

/// The request that logs `msg`.
pub fn log_msg(msg: &str) -> (call: HostCall)
    ensures
        call@ == HostCallView::Log(msg@),
{
    HostCall::Log(msg.to_owned())
}

/// How many requests of a run the host answers before the run counts. The
/// guest counts a run when the host has done what the run asked of it, up
/// to the note that the state is being updated; only the report of the new
/// count comes after. A run that the host cuts short before that has not
/// counted.
pub fn counted_after() -> (answered: usize)
    ensures
        answered == 6,
        forall|counter: u32|
            #![trigger run_calls(counter)]
            run_calls(counter).len() == answered + 1 && run_calls(counter)[answered - 1]
                == HostCallView::Log("updating state"@) && run_calls(counter)[answered as int]
                == HostCallView::Log("counter: "@ + decimal((counter + 1) as nat)),
{
    6
}

/// One run of the guest: counts the run and gives its requests in order.
pub fn run(state: &mut GuestState) -> (calls: Vec<HostCall>)
    requires
        old(state).counter < u32::MAX,
    ensures
        final(state).counter == old(state).counter + 1,
        calls_view(calls@) == run_calls(old(state).counter),
{
    let mut calls: Vec<HostCall> = Vec::new();
    calls.push(log_msg("starting"));
    calls.push(init_output_pin(LED_PIN));
    calls.push(log_msg("initialized"));
    if state.counter % 2 == 0 {
        calls.push(log_msg("led on"));
        calls.push(set_led_state(LedState::On));
    } else {
        calls.push(log_msg("led off"));
        calls.push(set_led_state(LedState::Off));
    }
    calls.push(log_msg("updating state"));
    state.counter = state.counter + 1;
    proof {
        reveal_strlit("counter: ");
        is_ascii_chars_encode_utf8("counter: "@);
    }
    match counter_line("counter: ", state.counter) {
        Some(line) => {
            calls.push(HostCall::Log(line));
        },
        None => {
            unreached::<()>();
        },
    }
    assert(calls_view(calls@) =~= run_calls(old(state).counter));
    calls
}

} // verus!
