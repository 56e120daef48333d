use std::time::Duration;

use wasmtime::{Caller, Config, Engine, Extern, Linker, Store};
use wotto::engine::{compile_module, increment_epoch};
use wotto::engine::{HOST_NAMESPACE, MEMORY_EXPORT};
use wotto::error::Error;
use wotto::runtime::{get_memory, input, output, RuntimeData, OUTPUT_CAPACITY};
use wotto::service::{CallOutcome, Service};
use wotto::service::{CALL_TIMEOUT_MILLIS, EPOCH_DEADLINE_DELTA, EPOCH_INTERVAL_MILLIS};
use wotto::url::ParsedUrl;
use wotto::webload::builtin::Probe;
use wotto::webload::ResolvedModule;

/// A guest with a memory that holds `hi!` at its start and with four
/// exported functions: `say` puts out the first two bytes of the memory;
/// `echo` takes the input into the memory at 16 and puts out four bytes
/// from there; `spin` never returns; `add` takes two numbers.
const GUEST: &[u8] = &[
    0x00, 0x61, 0x73, 0x6d, 0x01, 0x00, 0x00, 0x00, // magic, version
    // types: (i32 i32) -> (), () -> (), (i32 i32) -> i32
    0x01, 0x0f, 0x03, 0x60, 0x02, 0x7f, 0x7f, 0x00, 0x60, 0x00, 0x00, 0x60, 0x02, 0x7f, 0x7f,
    0x01, 0x7f, //
    // imports: wotto.output of type 0, wotto.input of type 2
    0x02, 0x1e, 0x02, //
    0x05, b'w', b'o', b't', b't', b'o', 0x06, b'o', b'u', b't', b'p', b'u', b't', 0x00, 0x00,
    0x05, b'w', b'o', b't', b't', b'o', 0x05, b'i', b'n', b'p', b'u', b't', 0x00, 0x02, //
    // functions: say, echo, spin of type 1; add of type 2
    0x03, 0x05, 0x04, 0x01, 0x01, 0x01, 0x02, //
    // memory: one page
    0x05, 0x03, 0x01, 0x00, 0x01, //
    // exports
    0x07, 0x24, 0x05, //
    0x06, b'm', b'e', b'm', b'o', b'r', b'y', 0x02, 0x00, //
    0x03, b's', b'a', b'y', 0x00, 0x02, //
    0x04, b'e', b'c', b'h', b'o', 0x00, 0x03, //
    0x04, b's', b'p', b'i', b'n', 0x00, 0x04, //
    0x03, b'a', b'd', b'd', 0x00, 0x05, //
    // code
    0x0a, 0x2a, 0x04, //
    // say: output(0, 2)
    0x08, 0x00, 0x41, 0x00, 0x41, 0x02, 0x10, 0x00, 0x0b, //
    // echo: input(16, 4); drop; output(16, 4)
    0x0f, 0x00, 0x41, 0x10, 0x41, 0x04, 0x10, 0x01, 0x1a, 0x41, 0x10, 0x41, 0x04, 0x10, 0x00,
    0x0b, //
    // spin: loop br 0
    0x07, 0x00, 0x03, 0x40, 0x0c, 0x00, 0x0b, 0x0b, //
    // add
    0x07, 0x00, 0x20, 0x00, 0x20, 0x01, 0x6a, 0x0b, //
    // data: "hi!" at 0
    0x0b, 0x09, 0x01, 0x00, 0x41, 0x00, 0x0b, 0x03, b'h', b'i', b'!',
];

fn host_error(error: Error) -> wasmtime::Error {
    wasmtime::Error::msg(format!("{error:?}"))
}

fn linker(engine: &Engine) -> Linker<RuntimeData> {
    let mut linker = Linker::new(engine);
    linker
        .func_wrap(
            HOST_NAMESPACE,
            "output",
            |mut caller: Caller<'_, RuntimeData>, ptr: u32, len: u32| -> wasmtime::Result<()> {
                let export = caller.get_export(MEMORY_EXPORT).map(Extern::into_memory);
                let memory = get_memory(export).map_err(host_error)?;
                let (bytes, data) = memory.data_and_store_mut(&mut caller);
                output(bytes, data, ptr, len).map_err(host_error)
            },
        )
        .unwrap();
    linker
        .func_wrap(
            HOST_NAMESPACE,
            "input",
            |mut caller: Caller<'_, RuntimeData>, ptr: u32, len: u32| -> wasmtime::Result<u32> {
                let export = caller.get_export(MEMORY_EXPORT).map(Extern::into_memory);
                let memory = get_memory(export).map_err(host_error)?;
                let (bytes, data) = memory.data_and_store_mut(&mut caller);
                input(bytes, data, ptr, len).map_err(host_error)
            },
        )
        .unwrap();
    linker
}

/// An engine with epoch interruption that asks the system for no more
/// address space than a guest of these tests needs.
fn engine() -> Engine {
    let mut config = Config::new();
    config
        .epoch_interruption(true)
        .memory_reservation(1 << 20)
        .memory_reservation_for_growth(0)
        .memory_guard_size(0)
        .guard_before_linear_memory(false);
    Engine::new(&config).unwrap()
}

fn loaded(engine: &Engine) -> Service<wasmtime::Module> {
    let mut service = Service::new();
    let url = ParsedUrl::parse("builtin:guest").unwrap();
    let mut module = ResolvedModule::from_builtin(url, &vec![Probe::File]).unwrap();
    module.set_content(GUEST.to_vec());
    let fqn = service.load_module_from_url(&module).unwrap();
    let compiled = compile_module(engine, &module);
    service.load_web_module(&fqn, module, compiled).unwrap();
    service
}

/// Runs the entry point as the service runs it, with a deadline of
/// `timeout` and a tick of the epoch every few milliseconds.
fn run(
    service: &Service<wasmtime::Module>,
    engine: &Engine,
    module: &str,
    entry_point: &str,
    args: &str,
    timeout: Duration,
) -> Result<String, Error> {
    let code = service.run_module(module)?.clone();
    let mut store = Store::new(engine, RuntimeData::new(args.to_string(), OUTPUT_CAPACITY));
    store.epoch_deadline_async_yield_and_update(EPOCH_DEADLINE_DELTA);
    let linker = linker(engine);
    let runtime = tokio::runtime::Builder::new_multi_thread()
        .worker_threads(1)
        .enable_time()
        .build()
        .unwrap();
    let ticker = {
        let engine = engine.clone();
        runtime.spawn(async move {
            loop {
                tokio::time::sleep(Duration::from_millis(EPOCH_INTERVAL_MILLIS)).await;
                increment_epoch(&engine);
            }
        })
    };
    let outcome = runtime.block_on(async {
        let instance = match linker.instantiate_async(&mut store, &code).await {
            Ok(instance) => instance,
            Err(error) => return CallOutcome::NotInstantiated(error.to_string()),
        };
        let Some(func) = instance.get_func(&mut store, entry_point) else {
            return CallOutcome::NoSuchFunction;
        };
        let Ok(typed) = func.typed::<(), ()>(&mut store) else {
            return CallOutcome::WrongSignature;
        };
        match tokio::time::timeout(timeout, typed.call_async(&mut store, ())).await {
            Ok(Ok(())) => CallOutcome::Returned,
            Ok(Err(error)) => CallOutcome::Trapped(error.to_string()),
            Err(_) => CallOutcome::DeadlinePassed,
        }
    });
    ticker.abort();
    service.run_result(outcome, store.into_data())
}

#[test]
fn a_guest_puts_out_what_is_in_its_memory() {
    let engine = engine();
    let service = loaded(&engine);
    let second = Duration::from_secs(1);
    assert_eq!(run(&service, &engine, "guest", "say", "", second), Ok("hi".to_string()));
}

#[test]
fn a_guest_takes_its_input() {
    let engine = engine();
    let service = loaded(&engine);
    let second = Duration::from_secs(1);
    assert_eq!(
        run(&service, &engine, "guest", "echo", "wasm and more", second),
        Ok("wasm".to_string())
    );
    // a short input leaves the rest of the buffer as it was: zero bytes
    assert_eq!(
        run(&service, &engine, "guest", "echo", "ab", second),
        Ok("ab\0\0".to_string())
    );
}

#[test]
fn entry_points_that_cannot_be_called() {
    let engine = engine();
    let service = loaded(&engine);
    let second = Duration::from_secs(1);
    assert_eq!(
        run(&service, &engine, "guest", "nothing", "", second),
        Err(Error::FunctionNotFound)
    );
    assert_eq!(
        run(&service, &engine, "guest", "add", "", second),
        Err(Error::WrongFunctionType)
    );
    assert_eq!(
        run(&service, &engine, "guest", "memory", "", second),
        Err(Error::FunctionNotFound)
    );
    assert_eq!(
        run(&service, &engine, "other", "say", "", second),
        Err(Error::ModuleNotFound)
    );
}

#[test]
fn a_guest_that_never_returns_is_interrupted_at_the_deadline() {
    let engine = engine();
    let service = loaded(&engine);
    let started = std::time::Instant::now();
    let deadline = Duration::from_millis(CALL_TIMEOUT_MILLIS);
    assert_eq!(
        run(&service, &engine, "guest", "spin", "", deadline),
        Err(Error::TimedOut)
    );
    let taken = started.elapsed();
    assert!(taken >= deadline, "{taken:?}");
    assert!(taken < deadline + Duration::from_secs(2), "{taken:?}");
}

#[test]
fn a_guest_without_its_imports_is_not_instantiated() {
    let engine = engine();
    let service = loaded(&engine);
    let code = service.run_module("guest").unwrap().clone();
    let mut store = Store::new(&engine, RuntimeData::new(String::new(), OUTPUT_CAPACITY));
    store.set_epoch_deadline(1);
    let bare: Linker<RuntimeData> = Linker::new(&engine);
    let outcome = match bare.instantiate(&mut store, &code) {
        Ok(_) => CallOutcome::Returned,
        Err(error) => CallOutcome::NotInstantiated(error.to_string()),
    };
    assert!(matches!(
        service.run_result(outcome, store.into_data()),
        Err(Error::Wasm(_))
    ));
}

#[test]
fn invocations_do_not_see_each_other() {
    let engine = engine();
    let service = loaded(&engine);
    let code = service.run_module("guest").unwrap().clone();
    let linker = linker(&engine);
    let mut first = Store::new(&engine, RuntimeData::new("one!".to_string(), OUTPUT_CAPACITY));
    let mut second = Store::new(&engine, RuntimeData::new("two!".to_string(), 3));
    first.set_epoch_deadline(1000);
    second.set_epoch_deadline(1000);
    let a = linker.instantiate(&mut first, &code).unwrap();
    let b = linker.instantiate(&mut second, &code).unwrap();
    let echo_a = a.get_typed_func::<(), ()>(&mut first, "echo").unwrap();
    let echo_b = b.get_typed_func::<(), ()>(&mut second, "echo").unwrap();
    let say_a = a.get_typed_func::<(), ()>(&mut first, "say").unwrap();
    echo_a.call(&mut first, ()).unwrap();
    echo_b.call(&mut second, ()).unwrap();
    say_a.call(&mut first, ()).unwrap();
    echo_b.call(&mut second, ()).unwrap();
    assert_eq!(
        service.run_result(CallOutcome::Returned, first.into_data()),
        Ok("one!hi".to_string())
    );
    // the second invocation has room for three bytes
    assert_eq!(
        service.run_result(CallOutcome::Returned, second.into_data()),
        Ok("two".to_string())
    );
}
