use wasm_preparse::state::{
    host_init_led, host_log, host_set_led, read_bytes, HostEvent, HostTrap, ModuleState,
    OutOfBounds,
};

fn lines(events: &[HostEvent]) -> Vec<String> {
    events.iter().map(|event| event.message()).collect()
}

#[test]
fn fresh_state_is_dark_and_silent() {
    let state = ModuleState::default();
    assert!(!state.initialized);
    assert!(!state.led_state());
    assert!(state.events().is_empty());
}

#[test]
fn set_led_notes_the_old_and_the_new_level() {
    let mut state = ModuleState::default();
    state.initialized = true;
    state.set_led(true);
    assert!(state.led_state());
    state.set_led(true);
    state.set_led(false);
    assert!(!state.led_state());
    assert_eq!(
        lines(&state.take_events()),
        vec![
            "led is OFF",
            "Led turned ON",
            "led is ON",
            "Led turned ON",
            "led is ON",
            "Led turned OFF"
        ]
    );
    assert!(state.events().is_empty());
    assert!(state.initialized);
}

#[test]
fn init_led_initialises_once() {
    let mut state = ModuleState::default();
    assert_eq!(host_init_led(&mut state), Ok(()));
    assert!(state.initialized);
    assert_eq!(host_init_led(&mut state), Ok(()));
    assert!(state.initialized);
    assert_eq!(
        lines(state.events()),
        vec!["led initialized now", "led already initialized"]
    );
}

#[test]
fn set_led_switches_on_for_one_only() {
    let mut state = ModuleState::default();
    host_init_led(&mut state).unwrap();
    assert_eq!(host_set_led(&mut state, 1), Ok(()));
    assert!(state.led_state());
    assert_eq!(host_set_led(&mut state, 2), Ok(()));
    assert!(!state.led_state());
    assert_eq!(host_set_led(&mut state, 1), Ok(()));
    assert_eq!(host_set_led(&mut state, 0), Ok(()));
    assert!(!state.led_state());
    assert_eq!(host_set_led(&mut state, -1), Ok(()));
    assert!(!state.led_state());
}

#[test]
fn set_led_before_init_is_a_trap() {
    let mut state = ModuleState::default();
    assert_eq!(host_set_led(&mut state, 1), Err(HostTrap::LedNotInitialized));
    assert!(!state.led_state());
    assert!(!state.initialized);
    assert_eq!(lines(state.events()), vec!["led is OFF"]);
}

#[test]
fn read_bytes_gives_exactly_the_range() {
    let memory = [10u8, 11, 12, 13, 14];
    assert_eq!(read_bytes(&memory, 1, 3), Ok(&memory[1..4]));
    assert_eq!(read_bytes(&memory, 0, 5), Ok(&memory[..]));
    assert_eq!(read_bytes(&memory, 5, 0), Ok(&memory[5..]));
    assert_eq!(read_bytes(&memory, 0, 0), Ok(&memory[..0]));
}

#[test]
fn read_bytes_refuses_what_leaves_the_memory() {
    let memory = [10u8, 11, 12, 13, 14];
    assert_eq!(read_bytes(&memory, 0, 6), Err(OutOfBounds));
    assert_eq!(read_bytes(&memory, 5, 1), Err(OutOfBounds));
    assert_eq!(read_bytes(&memory, 6, 0), Err(OutOfBounds));
    assert_eq!(read_bytes(&memory, 4, 2), Err(OutOfBounds));
    assert_eq!(read_bytes(&memory, u32::MAX, 1), Err(OutOfBounds));
    assert_eq!(read_bytes(&memory, 1, u32::MAX), Err(OutOfBounds));
    assert_eq!(read_bytes(&memory, u32::MAX, u32::MAX), Err(OutOfBounds));
    assert_eq!(read_bytes(&[], 0, 1), Err(OutOfBounds));
}

#[test]
fn log_notes_the_text_in_memory() {
    let mut state = ModuleState::default();
    let memory = "..hello, wörld..".as_bytes();
    assert_eq!(host_log(&mut state, Some(memory), 2, 13), Ok(()));
    assert_eq!(host_log(&mut state, Some(memory), 0, 0), Ok(()));
    assert_eq!(lines(state.events()), vec!["module log: hello, wörld", "module log: "]);
    assert!(!state.initialized);
}

#[test]
fn log_out_of_range_is_a_trap_and_notes_nothing() {
    let mut state = ModuleState::default();
    let memory = [b'a'; 64];
    assert_eq!(host_log(&mut state, Some(&memory), 60, 5), Err(HostTrap::OutOfBounds));
    assert_eq!(host_log(&mut state, Some(&memory), 64, 1), Err(HostTrap::OutOfBounds));
    assert_eq!(host_log(&mut state, Some(&memory), 65, 0), Err(HostTrap::OutOfBounds));
    assert_eq!(host_log(&mut state, Some(&memory), u32::MAX, 2), Err(HostTrap::OutOfBounds));
    assert_eq!(
        host_log(&mut state, Some(&memory), 0xFFFF_FFF0, 0x20),
        Err(HostTrap::OutOfBounds)
    );
    assert!(state.events().is_empty());
    assert_eq!(host_log(&mut state, Some(&memory), 60, 4), Ok(()));
    assert_eq!(lines(state.events()), vec!["module log: aaaa"]);
}

#[test]
fn log_without_memory_is_a_trap() {
    let mut state = ModuleState::default();
    assert_eq!(host_log(&mut state, None, 0, 0), Err(HostTrap::MemoryMissing));
    assert!(state.events().is_empty());
}

#[test]
fn log_of_bytes_that_are_no_text_is_a_trap() {
    let mut state = ModuleState::default();
    let memory = [b'o', b'k', 0xFF, 0xFE, 0xC3];
    assert_eq!(host_log(&mut state, Some(&memory), 0, 3), Err(HostTrap::InvalidUtf8));
    assert_eq!(host_log(&mut state, Some(&memory), 4, 1), Err(HostTrap::InvalidUtf8));
    assert!(state.events().is_empty());
    assert_eq!(host_log(&mut state, Some(&memory), 0, 2), Ok(()));
}

#[test]
fn traps_have_their_words() {
    assert_eq!(HostTrap::LedNotInitialized.describe(), "led was not initialized");
    assert_eq!(HostTrap::MemoryMissing.describe(), "module does not export memory");
    assert_eq!(HostTrap::OutOfBounds.describe(), "log buffer lies outside linear memory");
    assert_eq!(HostTrap::InvalidUtf8.describe(), "failed to convert string");
}

#[test]
fn events_have_their_lines() {
    assert_eq!(HostEvent::LedAlreadyInitialized.message(), "led already initialized");
    assert_eq!(HostEvent::LedInitialized.message(), "led initialized now");
    assert_eq!(HostEvent::LedWas(true).message(), "led is ON");
    assert_eq!(HostEvent::LedWas(false).message(), "led is OFF");
    assert_eq!(HostEvent::LedTurned(true).message(), "Led turned ON");
    assert_eq!(HostEvent::LedTurned(false).message(), "Led turned OFF");
    assert_eq!(HostEvent::GuestLog("hi".to_string()).message(), "module log: hi");
}
