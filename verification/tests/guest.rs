use wasm_preparse::guest::{
    counted_after, init_output_pin, log_msg, run, set_led_state, GuestState, HostCall, LedState,
    LED_PIN,
};

fn log(text: &str) -> HostCall {
    HostCall::Log(text.to_string())
}

#[test]
fn first_run_switches_the_led_on() {
    let mut state = GuestState { counter: 0 };
    assert_eq!(
        run(&mut state),
        vec![
            log("starting"),
            HostCall::InitLed(28),
            log("initialized"),
            log("led on"),
            HostCall::SetLed(1),
            log("updating state"),
            log("counter: 1"),
        ]
    );
    assert_eq!(state.counter, 1);
}

#[test]
fn second_run_switches_the_led_off() {
    let mut state = GuestState { counter: 0 };
    run(&mut state);
    assert_eq!(
        run(&mut state),
        vec![
            log("starting"),
            HostCall::InitLed(28),
            log("initialized"),
            log("led off"),
            HostCall::SetLed(0),
            log("updating state"),
            log("counter: 2"),
        ]
    );
    assert_eq!(state.counter, 2);
}

#[test]
fn count_is_written_in_decimal() {
    let mut state = GuestState { counter: 9 };
    assert_eq!(run(&mut state)[6], log("counter: 10"));
    let mut state = GuestState { counter: 1_234_567_889 };
    assert_eq!(run(&mut state)[6], log("counter: 1234567890"));
    let mut state = GuestState { counter: u32::MAX - 1 };
    assert_eq!(run(&mut state)[6], log("counter: 4294967295"));
    assert_eq!(state.counter, u32::MAX);
}

#[test]
fn requests_are_what_they_say() {
    assert_eq!(set_led_state(LedState::On), HostCall::SetLed(1));
    assert_eq!(set_led_state(LedState::Off), HostCall::SetLed(0));
    assert_eq!(init_output_pin(LED_PIN), HostCall::InitLed(28));
    assert_eq!(init_output_pin(3), HostCall::InitLed(3));
    assert_eq!(log_msg("led on"), log("led on"));
}

#[test]
fn run_counts_before_it_reports_the_count() {
    assert_eq!(counted_after(), 6);
    for counter in [0, 1, 99] {
        let mut state = GuestState { counter };
        let calls = run(&mut state);
        assert_eq!(calls.len(), counted_after() + 1);
        assert_eq!(calls[counted_after() - 1], log("updating state"));
        assert_eq!(calls[counted_after()], HostCall::Log(format!("counter: {}", counter + 1)));
    }
}
