use wasm_preparse::registry::{
    link_host_functions, link_logging, link_output_init, link_set_led, RegisterError,
};
use wasm_preparse::state::ModuleState;

const GUEST: &str = r#"
(module
  (import "env" "init_led" (func $init_led))
  (import "env" "set_led" (func $set_led (param i32)))
  (import "logging" "log" (func $log (param i32 i32)))
  (memory (export "memory") 1)
  (data (i32.const 0) "hello")
  (func (export "run")
    (call $init_led)
    (call $set_led (i32.const 1))
    (call $log (i32.const 0) (i32.const 5)))
  (func (export "far") (call $log (i32.const 65535) (i32.const 2)))
  (func (export "off") (call $set_led (i32.const 0))))
"#;

fn taken(namespace: &str, name: &str) -> Result<(), RegisterError> {
    Err(RegisterError::Duplicate(namespace.to_string(), name.to_string()))
}

fn lines(state: &ModuleState) -> Vec<String> {
    state.events().iter().map(|event| event.message()).collect()
}

#[test]
fn linker_takes_each_host_function_once() {
    let engine = wasmi::Engine::default();
    let mut linker = wasmi::Linker::<ModuleState>::new(&engine);
    assert_eq!(link_output_init(&mut linker), Ok(()));
    assert_eq!(link_set_led(&mut linker), Ok(()));
    assert_eq!(link_logging(&mut linker), Ok(()));
    assert_eq!(link_output_init(&mut linker), taken("env", "init_led"));
    assert_eq!(link_set_led(&mut linker), taken("env", "set_led"));
    assert_eq!(link_logging(&mut linker), taken("logging", "log"));
    assert_eq!(link_host_functions(&mut linker), taken("env", "init_led"));
}

#[test]
fn linking_stops_at_the_first_taken_key() {
    let engine = wasmi::Engine::default();
    let mut linker = wasmi::Linker::<ModuleState>::new(&engine);
    link_set_led(&mut linker).unwrap();
    assert_eq!(link_host_functions(&mut linker), taken("env", "set_led"));
    // what came before the taken key is defined, what comes after is not
    assert_eq!(link_output_init(&mut linker), taken("env", "init_led"));
    assert_eq!(link_logging(&mut linker), Ok(()));
}

#[test]
fn taken_key_is_refused_and_the_linker_left_as_it_was() {
    let engine = wasmi::Engine::default();
    let mut linker = wasmi::Linker::<ModuleState>::new(&engine);
    assert_eq!(link_logging(&mut linker), Ok(()));
    assert_eq!(link_logging(&mut linker), taken("logging", "log"));
    assert_eq!(link_logging(&mut linker), taken("logging", "log"));
    // the other two keys are still free
    assert_eq!(link_output_init(&mut linker), Ok(()));
    assert_eq!(link_set_led(&mut linker), Ok(()));
}

#[test]
fn second_linking_is_refused_at_the_first_key() {
    let engine = wasmi::Engine::default();
    let mut linker = wasmi::Linker::<ModuleState>::new(&engine);
    assert_eq!(link_host_functions(&mut linker), Ok(()));
    assert_eq!(link_host_functions(&mut linker), taken("env", "init_led"));
    let module = wasmi::Module::new(&engine, GUEST).unwrap();
    let mut store = wasmi::Store::new(&engine, ModuleState::default());
    assert!(linker.instantiate_and_start(&mut store, &module).is_ok());
}

#[test]
fn linker_that_shadows_takes_a_key_again() {
    let engine = wasmi::Engine::default();
    let mut linker = wasmi::Linker::<ModuleState>::new(&engine);
    linker.allow_shadowing(true);
    assert_eq!(link_host_functions(&mut linker), Ok(()));
    assert_eq!(link_host_functions(&mut linker), Ok(()));
    assert_eq!(link_logging(&mut linker), Ok(()));
    let module = wasmi::Module::new(&engine, GUEST).unwrap();
    let mut store = wasmi::Store::new(&engine, ModuleState::default());
    assert!(linker.instantiate_and_start(&mut store, &module).is_ok());
}

#[test]
fn guest_instantiated_from_the_linker_reaches_the_host_functions() {
    let engine = wasmi::Engine::default();
    let mut linker = wasmi::Linker::<ModuleState>::new(&engine);
    assert_eq!(link_host_functions(&mut linker), Ok(()));
    let module = wasmi::Module::new(&engine, GUEST).unwrap();
    let mut store = wasmi::Store::new(&engine, ModuleState::default());
    let instance = linker.instantiate_and_start(&mut store, &module).unwrap();

    let run = instance.get_typed_func::<(), ()>(&store, "run").unwrap();
    run.call(&mut store, ()).unwrap();
    assert!(store.data().initialized);
    assert!(store.data().led_state());
    assert_eq!(
        lines(store.data()),
        vec!["led initialized now", "led is OFF", "Led turned ON", "module log: hello"]
    );

    let off = instance.get_typed_func::<(), ()>(&store, "off").unwrap();
    off.call(&mut store, ()).unwrap();
    assert!(!store.data().led_state());

    let far = instance.get_typed_func::<(), ()>(&store, "far").unwrap();
    let trap = far.call(&mut store, ()).unwrap_err();
    assert_eq!(trap.to_string(), "log buffer lies outside linear memory");
    assert_eq!(lines(store.data()).len(), 6);
}

#[test]
fn guest_is_not_instantiated_from_a_linker_that_lacks_a_function() {
    let engine = wasmi::Engine::default();
    let mut linker = wasmi::Linker::<ModuleState>::new(&engine);
    link_output_init(&mut linker).unwrap();
    link_set_led(&mut linker).unwrap();
    let module = wasmi::Module::new(&engine, GUEST).unwrap();
    let mut store = wasmi::Store::new(&engine, ModuleState::default());
    assert!(linker.instantiate_and_start(&mut store, &module).is_err());
}
