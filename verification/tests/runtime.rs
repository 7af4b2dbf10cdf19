use wasm_preparse::codec::{deserialize, serialize};
use wasm_preparse::config::{EngineConfig, TranslationMode};
use wasm_preparse::module::{
    ExecutableModule, ExportDescriptor, ExportKind, ImportDescriptor, Signature, Value, ValueType,
};
use wasm_preparse::registry::{HostFunction, LinkError, LinkedImports};
use wasm_preparse::runtime::{
    call, describe, instantiate, link_externals, new_context, parse_and_validate, CallError, CallFailure,
    ExecutionContext, InstantiationError, MeteringDisabled, ModuleInstance, ParseError,
    SetupError, TrapError, MODULE_FUEL,
};
use wasm_preparse::state::{HostEvent, HostTrap, ModuleState};

const GUEST: &str = r#"
(module
  (import "env" "init_led" (func $init_led))
  (import "env" "set_led" (func $set_led (param i32)))
  (import "logging" "log" (func $log (param i32 i32)))
  (memory (export "memory") 1)
  (global $counter (mut i32) (i32.const 0))
  (data (i32.const 0) "starting")
  (data (i32.const 16) "initialized")
  (data (i32.const 32) "led on")
  (data (i32.const 48) "led off")
  (data (i32.const 64) "updating state")
  (data (i32.const 80) "counter: 0")
  (func (export "run")
    (call $log (i32.const 0) (i32.const 8))
    (call $init_led)
    (call $log (i32.const 16) (i32.const 11))
    (if (i32.eqz (i32.rem_u (global.get $counter) (i32.const 2)))
      (then (call $log (i32.const 32) (i32.const 6)) (call $set_led (i32.const 1)))
      (else (call $log (i32.const 48) (i32.const 7)) (call $set_led (i32.const 0))))
    (call $log (i32.const 64) (i32.const 14))
    (global.set $counter (i32.add (global.get $counter) (i32.const 1)))
    (i32.store8 (i32.const 89) (i32.add (i32.const 48) (global.get $counter)))
    (call $log (i32.const 80) (i32.const 10))))
"#;

const TOOLBOX: &str = r#"
(module
  (import "env" "set_led" (func $set_led (param i32)))
  (import "logging" "log" (func $log (param i32 i32)))
  (import "env" "init_led" (func $init_led))
  (memory (export "memory") 1)
  (table (export "table") 1 funcref)
  (global (export "limit") i32 (i32.const 7))
  (data (i32.const 65531) "edge!")
  (data (i32.const 8) "\ff\fe")
  (func (export "add") (param i32 i32) (result i32)
    (i32.add (local.get 0) (local.get 1)))
  (func (export "wide") (param i64) (result i64)
    (i64.mul (local.get 0) (i64.const 3)))
  (func (export "pass") (param f32 f64) (result f64 f32)
    (local.get 1) (local.get 0))
  (func (export "spin") (loop $again (br $again)))
  (func (export "boom") unreachable)
  (func (export "init") (call $init_led))
  (func (export "switch") (param i32) (call $set_led (local.get 0)))
  (func (export "say") (param i32 i32) (call $log (local.get 0) (local.get 1)))
  (func (export "nothing"))
  (func (export "handle") (result funcref) (ref.null func)))
"#;

fn lines(events: &[HostEvent]) -> Vec<String> {
    events.iter().map(|event| event.message()).collect()
}

fn started(source: &str) -> (ModuleInstance, ExecutionContext) {
    let config = EngineConfig::metered();
    let module = parse_and_validate(source.as_bytes(), &config).unwrap();
    let mut externals = Vec::new();
    let mut context = link_externals(&module, &config, &mut externals).unwrap();
    let instance = instantiate(&module, &LinkedImports::new(externals), &mut context).unwrap();
    (instance, context)
}

fn run(instance: &ModuleInstance, context: &mut ExecutionContext) -> Result<Vec<Value>, CallFailure> {
    call(instance, context, "run", &vec![])
}

#[test]
fn run_twice_counts_and_alternates_the_led() {
    let config = EngineConfig::metered();
    let module = parse_and_validate(GUEST.as_bytes(), &config).unwrap();
    let mut externals = Vec::new();
    let mut context = link_externals(&module, &config, &mut externals).unwrap();
    assert_eq!(
        externals,
        vec![HostFunction::InitLed, HostFunction::SetLed, HostFunction::Log]
    );
    assert_eq!(context.remaining_fuel(), MODULE_FUEL);
    assert!(!context.is_live());
    let instance = instantiate(&module, &LinkedImports::new(externals), &mut context).unwrap();
    assert!(context.is_live());

    assert_eq!(run(&instance, &mut context), Ok(vec![]));
    assert!(context.host_state().initialized);
    assert!(context.host_state().led_state());
    assert_eq!(
        lines(&context.take_events()),
        vec![
            "module log: starting",
            "led initialized now",
            "module log: initialized",
            "module log: led on",
            "led is OFF",
            "Led turned ON",
            "module log: updating state",
            "module log: counter: 1",
        ]
    );
    let after_first = context.remaining_fuel();
    assert!(after_first < MODULE_FUEL);

    assert_eq!(run(&instance, &mut context), Ok(vec![]));
    assert!(!context.host_state().led_state());
    assert_eq!(
        lines(&context.take_events()),
        vec![
            "module log: starting",
            "led already initialized",
            "module log: initialized",
            "module log: led off",
            "led is ON",
            "Led turned OFF",
            "module log: updating state",
            "module log: counter: 2",
        ]
    );
    assert!(context.remaining_fuel() < after_first);
}

#[test]
fn loaded_artifact_runs_like_the_module_it_was_made_from() {
    let config = EngineConfig::metered();
    let module = parse_and_validate(GUEST.as_bytes(), &config).unwrap();
    let artifact = serialize(&module, &config).unwrap();
    let loaded = deserialize(&artifact, &config).unwrap();
    assert_eq!(loaded, module);

    let mut journals = Vec::new();
    let mut fuel = Vec::new();
    for candidate in [&module, &loaded] {
        let mut externals = Vec::new();
        let mut context = link_externals(candidate, &config, &mut externals).unwrap();
        let instance =
            instantiate(candidate, &LinkedImports::new(externals), &mut context).unwrap();
        run(&instance, &mut context).unwrap();
        run(&instance, &mut context).unwrap();
        journals.push(lines(&context.take_events()));
        fuel.push(context.remaining_fuel());
    }
    assert_eq!(journals[0], journals[1]);
    assert_eq!(journals[0].len(), 16);
    assert_eq!(fuel[0], fuel[1]);
}

#[test]
fn module_is_described_as_the_validator_reports_it() {
    let source = r#"
    (module
      (import "env" "set_led" (func (param i32)))
      (import "math" "mix" (func (param i64 f32 f64) (result i32 i64)))
      (memory (export "memory") 1)
      (table (export "table") 1 funcref)
      (global (export "limit") i32 (i32.const 7))
      (func (export "twice") (param f64) (result f64 f64) (local.get 0) (local.get 0))
      (func (export "refs") (param externref) (result funcref) (ref.null func)))
    "#;
    let config = EngineConfig::metered();
    let module = parse_and_validate(source.as_bytes(), &config).unwrap();
    assert_eq!(module.config(), config);
    assert_eq!(module.code(), &source.as_bytes().to_vec());
    assert_eq!(
        module.imports(),
        &vec![
            ImportDescriptor {
                namespace: "env".to_string(),
                name: "set_led".to_string(),
                signature: Signature { params: vec![ValueType::I32], results: vec![] },
            },
            ImportDescriptor {
                namespace: "math".to_string(),
                name: "mix".to_string(),
                signature: Signature {
                    params: vec![ValueType::I64, ValueType::F32, ValueType::F64],
                    results: vec![ValueType::I32, ValueType::I64],
                },
            },
        ]
    );
    let mut exports = module.exports().clone();
    exports.sort_by(|left, right| left.name.cmp(&right.name));
    assert_eq!(
        exports,
        vec![
            ExportDescriptor { name: "limit".to_string(), kind: ExportKind::Global },
            ExportDescriptor { name: "memory".to_string(), kind: ExportKind::Memory },
            ExportDescriptor {
                name: "refs".to_string(),
                kind: ExportKind::Function(Signature {
                    params: vec![ValueType::ExternRef],
                    results: vec![ValueType::FuncRef],
                }),
            },
            ExportDescriptor { name: "table".to_string(), kind: ExportKind::Table },
            ExportDescriptor {
                name: "twice".to_string(),
                kind: ExportKind::Function(Signature {
                    params: vec![ValueType::F64],
                    results: vec![ValueType::F64, ValueType::F64],
                }),
            },
        ]
    );
}

#[test]
fn bytes_that_are_no_module_are_invalid() {
    let config = EngineConfig::metered();
    assert!(matches!(
        parse_and_validate(b"\0asm\x01\0\0\0\xff\xff", &config),
        Err(ParseError::Invalid(_))
    ));
    assert!(matches!(parse_and_validate(b"(module", &config), Err(ParseError::Invalid(_))));
    let ill_typed = "(module (func (result i32) (i64.const 1)))";
    assert!(matches!(
        parse_and_validate(ill_typed.as_bytes(), &config),
        Err(ParseError::Invalid(_))
    ));
}

#[test]
fn empty_module_is_valid() {
    let config = EngineConfig::metered();
    let binary = b"\0asm\x01\0\0\0";
    let module = parse_and_validate(binary, &config).unwrap();
    assert!(module.imports().is_empty());
    assert!(module.exports().is_empty());
    assert_eq!(module.code(), &binary.to_vec());
}

#[test]
fn import_that_is_no_function_is_refused() {
    let source = r#"(module (import "env" "init_led" (func)) (import "env" "mem" (memory 1)))"#;
    assert_eq!(
        parse_and_validate(source.as_bytes(), &EngineConfig::metered()),
        Err(ParseError::UnsupportedImport("env".to_string(), "mem".to_string()))
    );
}

#[test]
fn engine_is_built_with_the_options_of_the_configuration() {
    let uses_floats = "(module (func (result f32) (f32.const 1)))";
    let two_results = "(module (func (result i32 i32) (i32.const 1) (i32.const 2)))";
    let tail_call = "(module (func $f) (func (return_call $f)))";
    let bulk = "(module (memory 1) (func (memory.fill (i32.const 0) (i32.const 0) (i32.const 1))))";
    let refs = "(module (func (result externref) (ref.null extern)))";
    let all = EngineConfig::metered();
    for source in [uses_floats, two_results, tail_call, bulk, refs] {
        assert!(parse_and_validate(source.as_bytes(), &all).is_ok(), "{source}");
    }
    let refused = [
        (uses_floats, EngineConfig { floats: false, ..all }),
        (two_results, EngineConfig { multi_value: false, ..all }),
        (tail_call, EngineConfig { tail_call: false, ..all }),
        (bulk, EngineConfig { bulk_memory: false, reference_types: false, ..all }),
        (refs, EngineConfig { reference_types: false, ..all }),
    ];
    for (source, config) in refused {
        assert!(
            matches!(parse_and_validate(source.as_bytes(), &config), Err(ParseError::Invalid(_))),
            "{source}"
        );
    }
    for translation in [TranslationMode::LazyTranslation, TranslationMode::Lazy] {
        let config = EngineConfig { translation, ..all };
        let module = parse_and_validate(GUEST.as_bytes(), &config).unwrap();
        let mut externals = Vec::new();
        let mut context = link_externals(&module, &config, &mut externals).unwrap();
        let instance =
            instantiate(&module, &LinkedImports::new(externals), &mut context).unwrap();
        assert_eq!(run(&instance, &mut context), Ok(vec![]));
    }
}

#[test]
fn link_externals_names_the_import_it_cannot_link() {
    let source = r#"
    (module
      (import "env" "init_led" (func))
      (import "env" "blink" (func (param i32)))
      (import "logging" "log" (func (param i32 i32))))
    "#;
    let config = EngineConfig::metered();
    let module = parse_and_validate(source.as_bytes(), &config).unwrap();
    let mut externals = vec![HostFunction::Log];
    let outcome = link_externals(&module, &config, &mut externals);
    assert_eq!(
        outcome.err(),
        Some(SetupError::Link(LinkError::MissingImport("env".to_string(), "blink".to_string())))
    );
    assert!(externals.is_empty());
}

#[test]
fn link_externals_holds_the_host_to_its_signatures() {
    let source = r#"(module (import "env" "init_led" (func (param i32))))"#;
    let config = EngineConfig::metered();
    let module = parse_and_validate(source.as_bytes(), &config).unwrap();
    let mut externals = Vec::new();
    assert_eq!(
        link_externals(&module, &config, &mut externals).err(),
        Some(SetupError::Link(LinkError::SignatureMismatch(
            "env".to_string(),
            "init_led".to_string()
        )))
    );
}

#[test]
fn link_externals_needs_fuel_metering() {
    let config = EngineConfig { fuel_metering: false, ..EngineConfig::metered() };
    let module = parse_and_validate(GUEST.as_bytes(), &config).unwrap();
    let mut externals = vec![HostFunction::Log];
    assert_eq!(
        link_externals(&module, &config, &mut externals).err(),
        Some(SetupError::MeteringDisabled)
    );
    assert_eq!(externals, vec![HostFunction::Log]);
}

#[test]
fn fresh_context_owns_the_state_it_is_given() {
    let mut state = ModuleState::default();
    state.initialized = true;
    state.set_led(true);
    let config = EngineConfig::metered();
    let mut context = new_context(&config, state);
    assert_eq!(context.config(), config);
    assert_eq!(context.remaining_fuel(), 0);
    assert!(!context.is_live());
    assert!(context.host_state().initialized);
    assert!(context.host_state().led_state());
    assert_eq!(lines(&context.take_events()), vec!["led is OFF", "Led turned ON"]);
    assert!(context.host_state().events().is_empty());
    assert!(context.host_state().led_state());
}

#[test]
fn fuel_of_a_context_is_set_and_paid() {
    let mut context = new_context(&EngineConfig::metered(), ModuleState::default());
    assert_eq!(context.set_fuel(50), Ok(()));
    assert_eq!(context.remaining_fuel(), 50);
    assert_eq!(context.consume(20), Ok(30));
    assert_eq!(context.consume(31), Err(wasm_preparse::fuel::FuelExhausted));
    assert_eq!(context.remaining_fuel(), 0);
    assert_eq!(context.set_fuel(5), Ok(()));
    assert_eq!(context.consume(5), Ok(0));
}

#[test]
fn fuel_cannot_be_set_without_metering() {
    let config = EngineConfig { fuel_metering: false, ..EngineConfig::metered() };
    let mut context = new_context(&config, ModuleState::default());
    assert_eq!(context.set_fuel(50), Err(MeteringDisabled));
    assert_eq!(context.remaining_fuel(), 0);
}

#[test]
fn guest_runs_without_metering_and_without_fuel() {
    let config = EngineConfig { fuel_metering: false, ..EngineConfig::metered() };
    let module = parse_and_validate(GUEST.as_bytes(), &config).unwrap();
    let mut context = new_context(&config, ModuleState::default());
    let plan = LinkedImports::new(vec![
        HostFunction::InitLed,
        HostFunction::SetLed,
        HostFunction::Log,
    ]);
    let instance = instantiate(&module, &plan, &mut context).unwrap();
    assert_eq!(run(&instance, &mut context), Ok(vec![]));
    assert_eq!(context.remaining_fuel(), 0);
    assert!(context.host_state().led_state());
}

#[test]
fn same_budget_and_same_call_leave_the_same_fuel() {
    let mut left = Vec::new();
    for _ in 0..3 {
        let (instance, mut context) = started(GUEST);
        assert_eq!(context.remaining_fuel(), MODULE_FUEL);
        run(&instance, &mut context).unwrap();
        let after_first = context.remaining_fuel();
        assert!(after_first <= MODULE_FUEL);
        run(&instance, &mut context).unwrap();
        assert!(context.remaining_fuel() <= after_first);
        left.push((after_first, context.remaining_fuel()));
    }
    assert_eq!(left[0], left[1]);
    assert_eq!(left[1], left[2]);
}

#[test]
fn call_without_fuel_is_exhausted_and_works_after_a_refill() {
    let (instance, mut context) = started(GUEST);
    run(&instance, &mut context).unwrap();
    context.take_events();
    assert!(context.host_state().led_state());

    context.set_fuel(0).unwrap();
    assert_eq!(run(&instance, &mut context), Err(CallFailure::FuelExhausted));
    assert_eq!(context.remaining_fuel(), 0);
    assert!(context.host_state().initialized);
    assert!(context.host_state().led_state());
    assert!(context.host_state().events().is_empty());
    assert!(context.is_live());

    context.set_fuel(MODULE_FUEL).unwrap();
    assert_eq!(run(&instance, &mut context), Ok(vec![]));
    assert!(!context.host_state().led_state());
    assert_eq!(lines(&context.take_events()).last().unwrap(), "module log: counter: 2");
}

#[test]
fn loop_without_end_runs_out_of_fuel() {
    let (instance, mut context) = started(TOOLBOX);
    assert_eq!(call(&instance, &mut context, "spin", &vec![]), Err(CallFailure::FuelExhausted));
    assert_eq!(context.remaining_fuel(), 0);
    assert_eq!(
        call(&instance, &mut context, "add", &vec![Value::I32(1), Value::I32(2)]),
        Err(CallFailure::FuelExhausted)
    );
    context.set_fuel(100).unwrap();
    assert_eq!(
        call(&instance, &mut context, "add", &vec![Value::I32(1), Value::I32(2)]),
        Ok(vec![Value::I32(3)])
    );
    assert!(context.remaining_fuel() < 100);
}

#[test]
fn fuel_that_runs_out_midway_keeps_what_the_host_did() {
    let (instance, mut context) = started(GUEST);
    let mut needed = 0;
    for budget in 1..MODULE_FUEL {
        let (probe, mut scratch) = started(GUEST);
        scratch.set_fuel(budget).unwrap();
        if run(&probe, &mut scratch).is_ok() {
            needed = budget;
            break;
        }
    }
    assert!(needed > 1);
    context.set_fuel(needed - 1).unwrap();
    assert_eq!(run(&instance, &mut context), Err(CallFailure::FuelExhausted));
    assert_eq!(context.remaining_fuel(), 0);
    assert!(context.host_state().initialized);
    context.set_fuel(MODULE_FUEL).unwrap();
    assert_eq!(run(&instance, &mut context), Ok(vec![]));
}

#[test]
fn arguments_go_in_and_results_come_out() {
    let (instance, mut context) = started(TOOLBOX);
    assert_eq!(
        call(&instance, &mut context, "add", &vec![Value::I32(40), Value::I32(2)]),
        Ok(vec![Value::I32(42)])
    );
    assert_eq!(
        call(&instance, &mut context, "add", &vec![Value::I32(i32::MAX), Value::I32(1)]),
        Ok(vec![Value::I32(i32::MIN)])
    );
    assert_eq!(
        call(&instance, &mut context, "wide", &vec![Value::I64(-5_000_000_000)]),
        Ok(vec![Value::I64(-15_000_000_000)])
    );
    let one_and_a_half = 1.5f32.to_bits();
    let minus_two = (-2.0f64).to_bits();
    assert_eq!(
        call(
            &instance,
            &mut context,
            "pass",
            &vec![Value::F32(one_and_a_half), Value::F64(minus_two)]
        ),
        Ok(vec![Value::F64(minus_two), Value::F32(one_and_a_half)])
    );
    assert_eq!(call(&instance, &mut context, "nothing", &vec![]), Ok(vec![]));
}

#[test]
fn unknown_export_is_a_usage_error() {
    let (instance, mut context) = started(TOOLBOX);
    let fuel = context.remaining_fuel();
    assert_eq!(
        call(&instance, &mut context, "nope", &vec![]),
        Err(CallFailure::Usage(CallError::UnknownExport("nope".to_string())))
    );
    assert_eq!(
        call(&instance, &mut context, "", &vec![]),
        Err(CallFailure::Usage(CallError::UnknownExport("".to_string())))
    );
    assert_eq!(context.remaining_fuel(), fuel);
    assert_eq!(call(&instance, &mut context, "nothing", &vec![]), Ok(vec![]));
}

#[test]
fn mistyped_call_is_a_usage_error() {
    let (instance, mut context) = started(TOOLBOX);
    let fuel = context.remaining_fuel();
    let mismatch = |name: &str| Err(CallFailure::Usage(CallError::TypeMismatch(name.to_string())));
    assert_eq!(call(&instance, &mut context, "memory", &vec![]), mismatch("memory"));
    assert_eq!(call(&instance, &mut context, "table", &vec![]), mismatch("table"));
    assert_eq!(call(&instance, &mut context, "limit", &vec![]), mismatch("limit"));
    assert_eq!(call(&instance, &mut context, "add", &vec![]), mismatch("add"));
    assert_eq!(call(&instance, &mut context, "add", &vec![Value::I32(1)]), mismatch("add"));
    assert_eq!(
        call(&instance, &mut context, "add", &vec![Value::I32(1), Value::I64(2)]),
        mismatch("add")
    );
    assert_eq!(
        call(&instance, &mut context, "add", &vec![Value::I32(1), Value::I32(2), Value::I32(3)]),
        mismatch("add")
    );
    assert_eq!(
        call(&instance, &mut context, "nothing", &vec![Value::I32(1)]),
        mismatch("nothing")
    );
    assert_eq!(call(&instance, &mut context, "handle", &vec![]), mismatch("handle"));
    assert_eq!(context.remaining_fuel(), fuel);
    assert!(context.host_state().events().is_empty());
    assert_eq!(
        call(&instance, &mut context, "add", &vec![Value::I32(1), Value::I32(2)]),
        Ok(vec![Value::I32(3)])
    );
}

#[test]
fn context_without_an_instance_cannot_be_called() {
    let (instance, _) = started(TOOLBOX);
    let mut other = new_context(&EngineConfig::metered(), ModuleState::default());
    other.set_fuel(100).unwrap();
    assert_eq!(
        call(&instance, &mut other, "nothing", &vec![]),
        Err(CallFailure::Usage(CallError::NotInstantiated))
    );
    assert_eq!(other.remaining_fuel(), 100);
}

#[test]
fn guest_fault_is_a_trap() {
    let (instance, mut context) = started(TOOLBOX);
    assert!(matches!(
        call(&instance, &mut context, "boom", &vec![]),
        Err(CallFailure::Trap(TrapError::Guest(_)))
    ));
    assert!(context.remaining_fuel() > 0);
    assert!(context.remaining_fuel() < MODULE_FUEL);
    assert_eq!(call(&instance, &mut context, "nothing", &vec![]), Ok(vec![]));
}

#[test]
fn switching_the_led_before_it_is_initialised_is_a_trap() {
    let (instance, mut context) = started(TOOLBOX);
    assert_eq!(
        call(&instance, &mut context, "switch", &vec![Value::I32(1)]),
        Err(CallFailure::Trap(TrapError::Host("led was not initialized".to_string())))
    );
    assert!(!context.host_state().led_state());
    assert_eq!(lines(&context.take_events()), vec!["led is OFF"]);
    assert_eq!(call(&instance, &mut context, "init", &vec![]), Ok(vec![]));
    assert_eq!(call(&instance, &mut context, "switch", &vec![Value::I32(1)]), Ok(vec![]));
    assert!(context.host_state().led_state());
    assert_eq!(call(&instance, &mut context, "switch", &vec![Value::I32(5)]), Ok(vec![]));
    assert!(!context.host_state().led_state());
}

#[test]
fn log_from_outside_the_memory_is_a_trap() {
    let (instance, mut context) = started(TOOLBOX);
    let say = |context: &mut ExecutionContext, pointer: i32, length: i32| {
        call(&instance, context, "say", &vec![Value::I32(pointer), Value::I32(length)])
    };
    let out_of_bounds = Err(CallFailure::Trap(TrapError::Host(
        "log buffer lies outside linear memory".to_string(),
    )));
    assert_eq!(say(&mut context, 65531, 5), Ok(vec![]));
    assert_eq!(say(&mut context, 65536, 0), Ok(vec![]));
    assert_eq!(lines(&context.take_events()), vec!["module log: edge!", "module log: "]);

    assert_eq!(say(&mut context, 65531, 6), out_of_bounds);
    assert_eq!(say(&mut context, 65536, 1), out_of_bounds);
    assert_eq!(say(&mut context, 65537, 0), out_of_bounds);
    assert_eq!(say(&mut context, -1, 1), out_of_bounds);
    assert_eq!(say(&mut context, 0, -1), out_of_bounds);
    assert_eq!(say(&mut context, i32::MIN, i32::MIN), out_of_bounds);
    assert_eq!(say(&mut context, i32::MAX, i32::MAX), out_of_bounds);
    assert!(context.host_state().events().is_empty());

    assert_eq!(
        say(&mut context, 8, 2),
        Err(CallFailure::Trap(TrapError::Host("failed to convert string".to_string())))
    );
    assert_eq!(say(&mut context, 65531, 4), Ok(vec![]));
    assert_eq!(lines(&context.take_events()), vec!["module log: edge"]);
}

#[test]
fn log_without_exported_memory_is_a_trap() {
    let source = r#"
    (module
      (import "logging" "log" (func $log (param i32 i32)))
      (memory 1)
      (func (export "say") (call $log (i32.const 0) (i32.const 1))))
    "#;
    let (instance, mut context) = started(source);
    assert_eq!(
        call(&instance, &mut context, "say", &vec![]),
        Err(CallFailure::Trap(TrapError::Host("module does not export memory".to_string())))
    );
}

#[test]
fn start_routine_runs_once_at_instantiation() {
    let source = r#"
    (module
      (import "env" "init_led" (func $init_led))
      (func $start (call $init_led))
      (start $start)
      (func (export "nothing")))
    "#;
    let (instance, mut context) = started(source);
    assert!(context.host_state().initialized);
    assert!(context.remaining_fuel() < MODULE_FUEL);
    assert_eq!(lines(&context.take_events()), vec!["led initialized now"]);
    call(&instance, &mut context, "nothing", &vec![]).unwrap();
    assert!(context.host_state().events().is_empty());
}

#[test]
fn trap_in_the_start_routine_leaves_no_instance() {
    let source = "(module (func $start unreachable) (start $start))";
    let config = EngineConfig::metered();
    let module = parse_and_validate(source.as_bytes(), &config).unwrap();
    let mut externals = Vec::new();
    let mut context = link_externals(&module, &config, &mut externals).unwrap();
    let outcome = instantiate(&module, &LinkedImports::new(externals), &mut context);
    assert!(matches!(outcome, Err(InstantiationError::Trap(TrapError::Guest(_)))));
    assert!(!context.is_live());
}

#[test]
fn start_routine_without_fuel_is_exhausted() {
    let source = "(module (func $start (loop $again (br $again))) (start $start))";
    let config = EngineConfig::metered();
    let module = parse_and_validate(source.as_bytes(), &config).unwrap();
    let mut externals = Vec::new();
    let mut context = link_externals(&module, &config, &mut externals).unwrap();
    let outcome = instantiate(&module, &LinkedImports::new(externals), &mut context);
    assert!(matches!(outcome, Err(InstantiationError::FuelExhausted)));
    assert_eq!(context.remaining_fuel(), 0);
    assert!(!context.is_live());
}

#[test]
fn context_hosts_one_instance() {
    let config = EngineConfig::metered();
    let module = parse_and_validate(TOOLBOX.as_bytes(), &config).unwrap();
    let mut externals = Vec::new();
    let mut context = link_externals(&module, &config, &mut externals).unwrap();
    let plan = LinkedImports::new(externals);
    let instance = instantiate(&module, &plan, &mut context).unwrap();
    let fuel = context.remaining_fuel();
    assert!(matches!(
        instantiate(&module, &plan, &mut context),
        Err(InstantiationError::ContextInUse)
    ));
    assert_eq!(context.remaining_fuel(), fuel);
    assert!(context.is_live());
    assert_eq!(call(&instance, &mut context, "nothing", &vec![]), Ok(vec![]));
}

#[test]
fn module_built_under_another_configuration_is_not_instantiated() {
    let built_under = EngineConfig { floats: false, ..EngineConfig::metered() };
    let module = parse_and_validate(GUEST.as_bytes(), &built_under).unwrap();
    let mut context = new_context(&EngineConfig::metered(), ModuleState::default());
    let plan = LinkedImports::new(vec![
        HostFunction::InitLed,
        HostFunction::SetLed,
        HostFunction::Log,
    ]);
    assert!(matches!(
        instantiate(&module, &plan, &mut context),
        Err(InstantiationError::ConfigMismatch)
    ));
    assert!(!context.is_live());
}

#[test]
fn plan_must_answer_the_imports_one_for_one() {
    let config = EngineConfig::metered();
    let module = parse_and_validate(GUEST.as_bytes(), &config).unwrap();
    let plans = [
        vec![],
        vec![HostFunction::InitLed, HostFunction::SetLed],
        vec![HostFunction::InitLed, HostFunction::Log, HostFunction::SetLed],
        vec![HostFunction::InitLed, HostFunction::SetLed, HostFunction::Log, HostFunction::Log],
    ];
    for plan in plans {
        let mut context = new_context(&config, ModuleState::default());
        assert!(matches!(
            instantiate(&module, &LinkedImports::new(plan), &mut context),
            Err(InstantiationError::PlanMismatch)
        ));
        assert!(!context.is_live());
    }
}

#[test]
fn code_that_the_engine_does_not_take_is_not_instantiated() {
    let config = EngineConfig::metered();
    let module = ExecutableModule::new(config, vec![], vec![], vec![1, 2, 3]);
    let mut context = new_context(&config, ModuleState::default());
    assert!(matches!(
        instantiate(&module, &LinkedImports::new(vec![]), &mut context),
        Err(InstantiationError::Engine(_))
    ));
    assert!(!context.is_live());
}

#[test]
fn instance_knows_what_it_exports() {
    let (instance, _) = started(GUEST);
    let mut names: Vec<&str> =
        instance.exports().iter().map(|export| export.name.as_str()).collect();
    names.sort();
    assert_eq!(names, vec!["memory", "run"]);
}

#[test]
fn memory_of_the_guest_is_read_within_its_bounds() {
    let (instance, mut context) = started(TOOLBOX);
    assert_eq!(context.read_bytes(65531, 5), Ok(&b"edge!"[..]));
    assert_eq!(context.read_bytes(65533, 3), Ok(&b"ge!"[..]));
    assert_eq!(context.read_bytes(8, 2), Ok(&[0xFF, 0xFE][..]));
    assert_eq!(context.read_bytes(65536, 0), Ok(&[][..]));
    assert_eq!(context.read_bytes(65531, 6), Err(HostTrap::OutOfBounds));
    assert_eq!(context.read_bytes(65537, 0), Err(HostTrap::OutOfBounds));
    assert_eq!(context.read_bytes(u32::MAX, u32::MAX), Err(HostTrap::OutOfBounds));
    call(&instance, &mut context, "nothing", &vec![]).unwrap();
    assert_eq!(context.read_bytes(0, 4), Ok(&[0, 0, 0, 0][..]));
}

#[test]
fn memory_written_by_the_guest_is_seen_by_the_host() {
    let (instance, mut context) = started(GUEST);
    assert_eq!(context.read_bytes(80, 10), Ok(&b"counter: 0"[..]));
    run(&instance, &mut context).unwrap();
    assert_eq!(context.read_bytes(80, 10), Ok(&b"counter: 1"[..]));
}

#[test]
fn there_is_no_memory_without_an_instance_or_an_export() {
    let context = new_context(&EngineConfig::metered(), ModuleState::default());
    assert_eq!(context.read_bytes(0, 0), Err(HostTrap::MemoryMissing));
    let (_, hidden) = started("(module (memory 1))");
    assert_eq!(hidden.read_bytes(0, 0), Err(HostTrap::MemoryMissing));
}

#[test]
fn accepted_module_is_described_as_the_engine_walks_it() {
    let source = r#"
    (module
      (import "zoo" "last" (func (param i32 f64)))
      (import "air" "first" (func (result i64)))
      (func (export "zeta") (param f32))
      (memory (export "alpha") 1)
      (global (export "mid") i32 (i32.const 0)))
    "#;
    let engine = wasmi::Engine::default();
    let compiled = wasmi::Module::new(&engine, source).unwrap();
    let config = EngineConfig::metered();
    let module = describe(&compiled, &config, b"code").unwrap();
    assert_eq!(module.config(), config);
    assert_eq!(module.code(), &b"code".to_vec());
    assert_eq!(
        module.imports(),
        &vec![
            ImportDescriptor {
                namespace: "zoo".to_string(),
                name: "last".to_string(),
                signature: Signature {
                    params: vec![ValueType::I32, ValueType::F64],
                    results: vec![],
                },
            },
            ImportDescriptor {
                namespace: "air".to_string(),
                name: "first".to_string(),
                signature: Signature { params: vec![], results: vec![ValueType::I64] },
            },
        ]
    );
    let walked: Vec<String> = compiled.exports().map(|export| export.name().to_string()).collect();
    let described: Vec<String> =
        module.exports().iter().map(|export| export.name.clone()).collect();
    assert_eq!(described, walked);
    assert_eq!(described.len(), 3);
    let zeta = module.exports().iter().find(|export| export.name == "zeta").unwrap();
    assert_eq!(
        zeta.kind,
        ExportKind::Function(Signature { params: vec![ValueType::F32], results: vec![] })
    );
    let alpha = module.exports().iter().find(|export| export.name == "alpha").unwrap();
    assert_eq!(alpha.kind, ExportKind::Memory);
}

#[test]
fn first_import_that_is_no_function_is_named() {
    let source = r#"
    (module
      (import "env" "init_led" (func))
      (import "env" "cells" (table 1 funcref))
      (import "env" "mem" (memory 1)))
    "#;
    let engine = wasmi::Engine::default();
    let compiled = wasmi::Module::new(&engine, source).unwrap();
    assert_eq!(
        describe(&compiled, &EngineConfig::metered(), source.as_bytes()),
        Err(ParseError::UnsupportedImport("env".to_string(), "cells".to_string()))
    );
}

#[test]
fn instance_of_another_module_is_not_called_in_this_context() {
    let (toolbox, _) = started(TOOLBOX);
    let (guest, mut context) = started(GUEST);
    let fuel = context.remaining_fuel();
    assert_eq!(
        call(&toolbox, &mut context, "add", &vec![Value::I32(1), Value::I32(2)]),
        Err(CallFailure::Usage(CallError::NotInstantiated))
    );
    assert_eq!(
        call(&toolbox, &mut context, "run", &vec![]),
        Err(CallFailure::Usage(CallError::NotInstantiated))
    );
    assert_eq!(context.remaining_fuel(), fuel);
    assert!(context.host_state().events().is_empty());
    assert_eq!(call(&guest, &mut context, "run", &vec![]), Ok(vec![]));
}

#[test]
fn export_that_the_code_lacks_is_the_engine_s_to_refuse() {
    let config = EngineConfig::metered();
    let honest = parse_and_validate(b"(module (func (export \"here\")))", &config).unwrap();
    let mut exports = honest.exports().clone();
    exports.push(ExportDescriptor {
        name: "absent".to_string(),
        kind: ExportKind::Function(Signature { params: vec![], results: vec![] }),
    });
    let claiming = ExecutableModule::new(config, vec![], exports, honest.code().clone());
    let mut externals = Vec::new();
    let mut context = link_externals(&claiming, &config, &mut externals).unwrap();
    let instance = instantiate(&claiming, &LinkedImports::new(externals), &mut context).unwrap();
    let fuel = context.remaining_fuel();
    assert!(matches!(
        call(&instance, &mut context, "absent", &vec![]),
        Err(CallFailure::Engine(_))
    ));
    assert_eq!(context.remaining_fuel(), fuel);
    assert_eq!(call(&instance, &mut context, "here", &vec![]), Ok(vec![]));
}

#[test]
fn instance_of_another_context_is_not_called_though_it_exports_the_same() {
    let (first, mut first_context) = started(GUEST);
    let (second, mut second_context) = started(GUEST);
    assert_eq!(first.exports(), second.exports());
    assert_eq!(
        call(&first, &mut second_context, "run", &vec![]),
        Err(CallFailure::Usage(CallError::NotInstantiated))
    );
    assert_eq!(
        call(&second, &mut first_context, "run", &vec![]),
        Err(CallFailure::Usage(CallError::NotInstantiated))
    );
    assert!(second_context.host_state().events().is_empty());
    assert_eq!(second_context.remaining_fuel(), MODULE_FUEL);
    assert_eq!(call(&first.clone(), &mut first_context, "run", &vec![]), Ok(vec![]));
    assert_eq!(call(&second, &mut second_context, "run", &vec![]), Ok(vec![]));
}
