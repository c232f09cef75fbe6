use std::sync::{Arc, Mutex};
use wasmer::sys::{BaseTunables, NativeEngineExt};
use wasmer::{Engine, Function, FunctionEnv, FunctionEnvMut, Imports, Instance, Module, Pages, Store};

use teal::codegen::generate_assembly;
use teal::syntax::{lex, parse};

#[derive(Clone)]
struct CaptureEnv {
    output: Arc<Mutex<Vec<String>>>,
}

fn log(env: FunctionEnvMut<CaptureEnv>, n: i32) {
    env.data().output.lock().unwrap().push(n.to_string());
}

/// Compile the source, run the module under output capture, and hand
/// back each logged value in call order.
fn run_with_output(source: &str) -> Vec<String> {
    let tokens = lex(source).unwrap();
    let ast = parse(tokens).unwrap();
    let module_wat = generate_assembly(ast).unwrap();

    // Keep the linear-memory reservation small: the default guard
    // regions are larger than this environment allows.
    let mut engine = Engine::default();
    engine.set_tunables(BaseTunables {
        static_memory_bound: Pages(64),
        static_memory_offset_guard_size: 0x1000,
        dynamic_memory_offset_guard_size: 0x1000,
    });
    let mut store = Store::new(engine);
    let module = Module::new(&store, module_wat.as_str()).unwrap();

    let output: Arc<Mutex<Vec<String>>> = Arc::new(Mutex::new(vec![]));
    let env = FunctionEnv::new(
        &mut store,
        CaptureEnv { output: output.clone() },
    );
    let log_func = Function::new_typed_with_env(&mut store, &env, log);

    let mut imports = Imports::new();
    imports.define("env", "log", log_func);

    let instance = Instance::new(&mut store, &module, &imports).unwrap();
    let main = instance.exports.get_function("main").unwrap();
    main.call(&mut store, &[]).unwrap();

    let captured = output.lock().unwrap().clone();
    captured
}

#[test]
fn captured_output_of_if_else() {
    // The generated module, instantiated with the log import, prints 1.
    assert_eq!(
        run_with_output("if 2 == 2 { print 1; } else { print 0; }"),
        vec!["1".to_string()]
    );
}

#[test]
fn captured_output_of_globals_and_calls() {
    assert_eq!(
        run_with_output("fun sum(a, b) { a + b; } let x = 10; print sum(x, 5) + 2;"),
        vec!["17".to_string()]
    );
}

#[test]
fn captured_output_order_follows_print_order() {
    assert_eq!(
        run_with_output("print 1; print 2; print 3;"),
        vec!["1".to_string(), "2".to_string(), "3".to_string()]
    );
}
