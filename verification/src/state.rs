//! The state a host keeps for one guest, and the functions a guest may import.
//!
//! Host functions never print. Each records what it did in the state's
//! journal; the embedder drains the journal and shows it as it sees fit.

use vstd::prelude::*;
use vstd::slice::slice_subrange;
use vstd::string::StringExecFns;
use vstd::utf8::*;
use crate::text::text_from_utf8;

verus! {

/// What a host function did, in the order it happened.
#[derive(Debug, Clone)]
pub enum HostEvent {
    /// The guest asked to initialise the LED a second time.
    LedAlreadyInitialized,
    /// The LED was initialised.
    LedInitialized,
    /// The level the LED had when a switch was requested.
    LedWas(bool),
    /// The level the LED was switched to.
    LedTurned(bool),
    /// A line the guest logged.
    GuestLog(String),
}

/// A `HostEvent` with its text as a sequence of characters.
pub enum HostEventView {
    LedAlreadyInitialized,
    LedInitialized,
    LedWas(bool),
    LedTurned(bool),
    GuestLog(Seq<char>),
}

impl View for HostEvent {
    type V = HostEventView;

    open spec fn view(&self) -> HostEventView {
        match self {
            HostEvent::LedAlreadyInitialized => HostEventView::LedAlreadyInitialized,
            HostEvent::LedInitialized => HostEventView::LedInitialized,
            HostEvent::LedWas(on) => HostEventView::LedWas(*on),
            HostEvent::LedTurned(on) => HostEventView::LedTurned(*on),
            HostEvent::GuestLog(line) => HostEventView::GuestLog(line@),
        }
    }
}

/// The name of an LED level.
pub open spec fn level_text(on: bool) -> Seq<char> {
    if on {
        "ON"@
    } else {
        "OFF"@
    }
}

/// The line that reports an event.
pub open spec fn message_text(event: HostEventView) -> Seq<char> {
    match event {
        HostEventView::LedAlreadyInitialized => "led already initialized"@,
        HostEventView::LedInitialized => "led initialized now"@,
        HostEventView::LedWas(on) => "led is "@ + level_text(on),
        HostEventView::LedTurned(on) => "Led turned "@ + level_text(on),
        HostEventView::GuestLog(line) => "module log: "@ + line,
    }
}

/// The views of a run of events.
pub open spec fn events_view(events: Seq<HostEvent>) -> Seq<HostEventView> {
    events.map_values(|event: HostEvent| event@)
}

fn level_name(on: bool) -> (name: &'static str)
    ensures
        name@ == level_text(on),
{
    if on {
        "ON"
    } else {
        "OFF"
    }
}

impl HostEvent {
    /// The line that reports this event.
    pub fn message(&self) -> (line: String)
        ensures
            line@ == message_text(self@),
    {
        match self {
            HostEvent::LedAlreadyInitialized => "led already initialized".to_owned(),
            HostEvent::LedInitialized => "led initialized now".to_owned(),
            HostEvent::LedWas(on) => "led is ".to_owned().concat(level_name(*on)),
            HostEvent::LedTurned(on) => "Led turned ".to_owned().concat(level_name(*on)),
            HostEvent::GuestLog(line) => "module log: ".to_owned().concat(line.as_str()),
        }
    }
}

/// Why a host function refused a guest's request. The guest sees a trap.
#[derive(Debug, Clone, Copy, PartialEq, Eq, Structural)]
pub enum HostTrap {
    /// The LED was switched before it was initialised.
    LedNotInitialized,
    /// The guest exports no linear memory to read from.
    MemoryMissing,
    /// A pointer and length reach past the end of linear memory.
    OutOfBounds,
    /// The bytes to log are not UTF-8.
    InvalidUtf8,
}

/// The words for a trap.
pub open spec fn trap_text(trap: HostTrap) -> Seq<char> {
    match trap {
        HostTrap::LedNotInitialized => "led was not initialized"@,
        HostTrap::MemoryMissing => "module does not export memory"@,
        HostTrap::OutOfBounds => "log buffer lies outside linear memory"@,
        HostTrap::InvalidUtf8 => "failed to convert string"@,
    }
}

impl HostTrap {
    /// The words for this trap.
    pub fn describe(&self) -> (words: String)
        ensures
            words@ == trap_text(*self),
    {
        match self {
            HostTrap::LedNotInitialized => "led was not initialized".to_owned(),
            HostTrap::MemoryMissing => "module does not export memory".to_owned(),
            HostTrap::OutOfBounds => "log buffer lies outside linear memory".to_owned(),
            HostTrap::InvalidUtf8 => "failed to convert string".to_owned(),
        }
    }
}

/// A range does not lie inside linear memory.
#[derive(Debug, Clone, Copy, PartialEq, Eq, Structural)]
pub struct OutOfBounds;

/// Whether `length` bytes starting at `offset` lie inside `size` bytes.
pub open spec fn in_bounds(size: nat, offset: u32, length: u32) -> bool {
    offset + length <= size
}

/// The one audited way from a guest-supplied pointer and length to bytes of
/// the guest's linear memory.
///
/// Returns exactly the addressed bytes when the whole range lies inside
/// `memory`, and `OutOfBounds` otherwise. Nothing outside `memory` is read.
pub fn read_bytes(memory: &[u8], offset: u32, length: u32) -> (bytes: Result<&[u8], OutOfBounds>)
    ensures
        in_bounds(memory@.len(), offset, length) ==> bytes is Ok && bytes->Ok_0@
            == memory@.subrange(offset as int, offset + length),
        !in_bounds(memory@.len(), offset, length) ==> bytes is Err,
{
    let end: u64 = offset as u64 + length as u64;
    if end > memory.len() as u64 {
        Err(OutOfBounds)
    } else {
        Ok(slice_subrange(memory, offset as usize, end as usize))
    }
}

/// Host-side state of one guest: a stand-in for a peripheral, with a journal
/// of what the host functions did to it.
#[derive(Debug)]
pub struct ModuleState {
    pub initialized: bool,
    led_state: bool,
    events: Vec<HostEvent>,
}

impl Default for ModuleState {
    fn default() -> (state: Self)
        ensures
            !state.is_initialized(),
            !state.led_on(),
            state.journal() == Seq::<HostEventView>::empty(),
    {
        ModuleState { initialized: false, led_state: false, events: Vec::new() }
    }
}

impl ModuleState {
    /// Whether the LED was initialised.
    pub closed spec fn is_initialized(&self) -> bool {
        self.initialized
    }

    /// The level of the LED.
    pub closed spec fn led_on(&self) -> bool {
        self.led_state
    }

    /// Everything the host functions did since the journal was last drained.
    pub closed spec fn journal(&self) -> Seq<HostEventView> {
        events_view(self.events@)
    }

    /// The level of the LED.
    pub fn led_state(&self) -> (on: bool)
        ensures
            on == self.led_on(),
    {
        self.led_state
    }

    /// The journal, oldest entry first.
    pub fn events(&self) -> (events: &Vec<HostEvent>)
        ensures
            events_view(events@) == self.journal(),
    {
        &self.events
    }

    /// Hands out the journal and leaves it empty. The LED is untouched.
    pub fn take_events(&mut self) -> (events: Vec<HostEvent>)
        ensures
            events_view(events@) == old(self).journal(),
            final(self).journal() == Seq::<HostEventView>::empty(),
            final(self).is_initialized() == old(self).is_initialized(),
            final(self).led_on() == old(self).led_on(),
    {
        let mut events: Vec<HostEvent> = Vec::new();
        std::mem::swap(&mut self.events, &mut events);
        events
    }

    fn record(&mut self, event: HostEvent)
        ensures
            final(self).journal() == old(self).journal().push(event@),
            final(self).is_initialized() == old(self).is_initialized(),
            final(self).led_on() == old(self).led_on(),
    {
        self.events.push(event);
        assert(events_view(self.events@) =~= events_view(old(self).events@).push(event@));
    }

    /// Switches the LED of an initialised peripheral to `led_on`, noting the
    /// level it had and the level it got.
    pub fn set_led(&mut self, led_on: bool)
        requires
            old(self).is_initialized(),
        ensures
            final(self).is_initialized(),
            final(self).led_on() == led_on,
            final(self).journal() == old(self).journal().push(
                HostEventView::LedWas(old(self).led_on()),
            ).push(HostEventView::LedTurned(led_on)),
    {
        let current = self.led_state;
        self.record(HostEvent::LedWas(current));
        self.led_state = led_on;
        self.record(HostEvent::LedTurned(led_on));
    }
}

/// Import `env.init_led`: initialises the LED once; later calls only note
/// that it was already done. Never traps.
pub fn host_init_led(state: &mut ModuleState) -> (outcome: Result<(), HostTrap>)
    ensures
        outcome is Ok,
        final(state).is_initialized(),
        final(state).led_on() == old(state).led_on(),
        final(state).journal() == old(state).journal().push(
            if old(state).is_initialized() {
                HostEventView::LedAlreadyInitialized
            } else {
                HostEventView::LedInitialized
            },
        ),
{
    if state.initialized {
        state.record(HostEvent::LedAlreadyInitialized);
    } else {
        state.initialized = true;
        state.record(HostEvent::LedInitialized);
    }
    Ok(())
}

/// Import `env.set_led`: switches the LED on when `led_on` is 1 and off for
/// any other value.
///
/// Traps with `LedNotInitialized`, after noting the LED's level and without
/// touching it, exactly when the LED was never initialised.
pub fn host_set_led(state: &mut ModuleState, led_on: i32) -> (outcome: Result<(), HostTrap>)
    ensures
        final(state).is_initialized() == old(state).is_initialized(),
        old(state).is_initialized() ==> outcome is Ok && final(state).led_on() == (led_on == 1)
            && final(state).journal() == old(state).journal().push(
            HostEventView::LedWas(old(state).led_on()),
        ).push(HostEventView::LedTurned(led_on == 1)),
        !old(state).is_initialized() ==> outcome == Err::<(), HostTrap>(
            HostTrap::LedNotInitialized,
        ) && final(state).led_on() == old(state).led_on() && final(state).journal() == old(
            state
        ).journal().push(HostEventView::LedWas(old(state).led_on())),
{
    if state.initialized {
        state.set_led(led_on == 1);
        Ok(())
    } else {
        let current = state.led_state;
        state.record(HostEvent::LedWas(current));
        Err(HostTrap::LedNotInitialized)
    }
}

/// The name under which a guest exports the memory that its host reads.
pub const MEMORY_EXPORT: &'static str = "memory";

/// What `host_log` answers, and the line it notes, for a guest whose linear
/// memory holds `memory` (or that exports none).
pub open spec fn log_outcome(memory: Option<Seq<u8>>, buffer_ptr: u32, length: u32) -> Result<
    Seq<char>,
    HostTrap,
> {
    match memory {
        None => Err(HostTrap::MemoryMissing),
        Some(bytes) => if !in_bounds(bytes.len(), buffer_ptr, length) {
            Err(HostTrap::OutOfBounds)
        } else if !valid_utf8(bytes.subrange(buffer_ptr as int, buffer_ptr + length)) {
            Err(HostTrap::InvalidUtf8)
        } else {
            Ok(decode_utf8(bytes.subrange(buffer_ptr as int, buffer_ptr + length)))
        },
    }
}

/// Memory-bound safety: a pointer and a length that reach past the end of
/// the guest's memory are answered with a trap, whatever the memory holds.
pub proof fn lemma_out_of_range_is_a_trap(memory: Seq<u8>, buffer_ptr: u32, length: u32)
    requires
        buffer_ptr + length > memory.len(),
    ensures
        log_outcome(Some(memory), buffer_ptr, length) == Err::<Seq<char>, HostTrap>(
            HostTrap::OutOfBounds,
        ),
{
}

/// Import `logging.log`: notes the text that the guest placed at
/// `buffer_ptr`, `length` bytes long, in its linear memory.
///
/// The pointer and the length are the guest's word and are checked against
/// the memory's size before a byte is read. A range that leaves the memory is
/// a trap, as are a missing memory and text that is not UTF-8; a trap changes
/// nothing in `state`.
pub fn host_log(
    state: &mut ModuleState,
    memory: Option<&[u8]>,
    buffer_ptr: u32,
    length: u32,
) -> (outcome: Result<(), HostTrap>)
    ensures
        final(state).is_initialized() == old(state).is_initialized(),
        final(state).led_on() == old(state).led_on(),
        match log_outcome(
            match memory {
                Some(bytes) => Some(bytes@),
                None => None,
            },
            buffer_ptr,
            length,
        ) {
            Ok(line) => outcome is Ok && final(state).journal() == old(state).journal().push(
                HostEventView::GuestLog(line),
            ),
            Err(trap) => outcome == Err::<(), HostTrap>(trap) && final(state).journal()
                == old(state).journal(),
        },
{
    let bytes = match memory {
        Some(bytes) => bytes,
        None => {
            return Err(HostTrap::MemoryMissing);
        },
    };
    let data = match read_bytes(bytes, buffer_ptr, length) {
        Ok(data) => data,
        Err(_) => {
            return Err(HostTrap::OutOfBounds);
        },
    };
    match text_from_utf8(data) {
        Some(line) => {
            state.record(HostEvent::GuestLog(line));
            Ok(())
        },
        None => Err(HostTrap::InvalidUtf8),
    }
}

} // verus!
