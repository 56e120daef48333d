use wotto::engine::{compile_module, engine_options, increment_epoch};
use wotto::engine::{ABORT_NAMESPACE, HOST_NAMESPACE, MEMORY_EXPORT};
use wotto::error::{Error, InvalidUrl};
use wotto::names::FullyQualifiedNameBuf;
use wotto::runtime::{RuntimeData, OUTPUT_CAPACITY};
use wotto::service::{CallOutcome, Command, EpochTimer, Service, Step};
use wotto::service::{CALL_TIMEOUT_MILLIS, EPOCH_DEADLINE_DELTA, EPOCH_INTERVAL_MILLIS};
use wotto::service::INVOCATION_PERMITS;
use wotto::url::ParsedUrl;
use wotto::webload::builtin::Probe;
use wotto::webload::gist::Gist;
use wotto::webload::{resolve, Fetch, Pending, ResolvedModule};

const ID: &str = "477bb75059341c4dfaef1b0c0849677f";
const BLOB: &str = "dd1250c85e31ca7541a04f70ed8d77c586bc0377";

/// The compiled code of these tests: the text that the module puts out.
type Svc = Service<String>;

fn builtin(name: &str) -> ResolvedModule {
    let url = ParsedUrl::parse(&format!("builtin:{name}")).unwrap();
    let mut module = match resolve(url).unwrap() {
        Pending::Builtin { url, .. } => ResolvedModule::from_builtin(url, &vec![Probe::File]),
        other => panic!("{other:?}"),
    }
    .unwrap();
    module.set_content(b"\0asm".to_vec());
    module
}

fn answer(user: &str, file: &str) -> String {
    format!(
        "{{\"files\": {{\"{file}\": {{\"content\": \"(module)\", \"raw_url\": \
         \"https://gist.githubusercontent.com/{user}/{ID}/raw/{BLOB}/{file}\"}}}}}}"
    )
}

fn gist(user: &str, file: &str) -> ResolvedModule {
    let url = ParsedUrl::parse(&format!("https://gist.github.com/{user}/{ID}")).unwrap();
    let gist = Gist::new(&url).unwrap();
    ResolvedModule::from_gist(url, gist, &answer(user, file)).unwrap()
}

fn load(service: &mut Svc, module: ResolvedModule, code: &str) -> String {
    let fqn = service.load_module_from_url(&module).unwrap();
    assert_eq!(module.ensure_content(), Fetch::Ready);
    service
        .load_web_module(&fqn, module, Ok(code.to_string()))
        .unwrap();
    fqn.to_string()
}

/// Runs the entry point as a guest that puts out the module's code.
fn run(service: &Svc, module: &str, args: &str) -> Result<String, Error> {
    let code = service.run_module(module)?.clone();
    let mut data = RuntimeData::new(args.to_string(), OUTPUT_CAPACITY);
    data.output(&code);
    service.run_result(CallOutcome::Returned, data)
}

#[test]
fn load_run_and_unload_a_builtin() {
    let mut service = Svc::new();
    assert_eq!(load(&mut service, builtin("math"), "3"), "math");
    assert_eq!(run(&service, "math", ""), Ok("3".to_string()));
    assert_eq!(service.unload_module("math"), Ok("math".to_string()));
    assert_eq!(run(&service, "math", ""), Err(Error::ModuleNotFound));
    assert_eq!(service.unload_module("math"), Err(Error::ModuleNotFound));
}

#[test]
fn load_a_gist_by_its_landing_url() {
    let mut service = Svc::new();
    assert_eq!(load(&mut service, gist("sorcio", "math.wasm"), "code"), "sorcio/math");
    assert_eq!(run(&service, "sorcio/math", ""), Ok("code".to_string()));
    assert_eq!(run(&service, "sorcio/other", ""), Err(Error::ModuleNotFound));
    assert_eq!(run(&service, "math", ""), Err(Error::ModuleNotFound));
}

#[test]
fn loading_again_resolves_the_stored_url() {
    let mut service = Svc::new();
    load(&mut service, gist("sorcio", "math.wasm"), "old");
    let url = service.load_module("sorcio/math").unwrap();
    assert_eq!(url.text, format!("https://gist.github.com/sorcio/{ID}"));

    // the URL still gives the module: it is loaded again
    let again = gist("sorcio", "math.wasm");
    assert_eq!(service.check_reloaded("sorcio/math", &url, &again), Ok(()));
    let fqn = FullyQualifiedNameBuf::for_module(&again).unwrap();
    assert_eq!(service.load_web_module(&fqn, again, Ok("new".to_string())), Ok(()));
    assert_eq!(run(&service, "sorcio/math", ""), Ok("new".to_string()));

    // the URL now gives another name: the slot stays as it is
    let renamed = gist("sorcio", "other.wasm");
    assert_eq!(
        service.check_reloaded("sorcio/math", &url, &renamed),
        Err(Error::ModuleGone("sorcio/math".to_string(), url.text.clone()))
    );
    let moved = gist("eve", "math.wasm");
    assert_eq!(
        service.check_reloaded("sorcio/math", &url, &moved),
        Err(Error::ModuleGone("sorcio/math".to_string(), url.text.clone()))
    );
    assert_eq!(run(&service, "sorcio/math", ""), Ok("new".to_string()));
}

#[test]
fn loading_again_needs_a_module_that_was_loaded() {
    let mut service = Svc::new();
    assert_eq!(service.load_module("sorcio/math"), Err(Error::ModuleNotFound));
    assert_eq!(service.load_module("/math"), Err(Error::InvalidModuleName));
    assert_eq!(run(&service, "sorcio/math", ""), Err(Error::ModuleNotFound));
    // the slot is reserved by the attempt, and counts as known
    assert_eq!(service.add_alias("m", "sorcio/math"), Ok(()));
    assert_eq!(service.add_alias("m", "sorcio/never"), Err(Error::ModuleNotFound));
    assert_eq!(run(&service, "m", ""), Err(Error::ModuleNotFound));
}

#[test]
fn a_failed_compilation_leaves_the_slot() {
    let mut service = Svc::new();
    load(&mut service, builtin("math"), "old");
    let module = builtin("math");
    let fqn = service.load_module_from_url(&module).unwrap();
    assert_eq!(
        service.load_web_module(&fqn, module, Err("bad magic".to_string())),
        Err(Error::Wasm("bad magic".to_string()))
    );
    assert_eq!(run(&service, "math", ""), Ok("old".to_string()));
}

#[test]
fn outcomes_of_a_call() {
    let service = Svc::new();
    let data = || {
        let mut data = RuntimeData::new(String::new(), OUTPUT_CAPACITY);
        data.output("partial");
        data
    };
    assert_eq!(
        service.run_result(CallOutcome::Returned, data()),
        Ok("partial".to_string())
    );
    assert_eq!(
        service.run_result(CallOutcome::NoSuchFunction, data()),
        Err(Error::FunctionNotFound)
    );
    assert_eq!(
        service.run_result(CallOutcome::WrongSignature, data()),
        Err(Error::WrongFunctionType)
    );
    assert_eq!(
        service.run_result(CallOutcome::DeadlinePassed, data()),
        Err(Error::TimedOut)
    );
    assert_eq!(
        service.run_result(CallOutcome::Trapped("unreachable".to_string()), data()),
        Err(Error::Wasm("unreachable".to_string()))
    );
    assert_eq!(
        service.run_result(CallOutcome::NotInstantiated("no memory".to_string()), data()),
        Err(Error::Wasm("no memory".to_string()))
    );
}

#[test]
fn aliases_lead_to_modules_and_go_with_them() {
    let mut service = Svc::new();
    load(&mut service, gist("user", "m.wasm"), "code of m");
    assert_eq!(service.add_alias("m", "user/m"), Ok(()));
    assert_eq!(service.add_alias("m2", "m"), Ok(()));
    assert_eq!(run(&service, "m2", ""), Ok("code of m".to_string()));
    assert_eq!(run(&service, "m", ""), Ok("code of m".to_string()));
    assert_eq!(run(&service, "m2", ""), run(&service, "user/m", ""));
    assert_eq!(service.run_target("m2").unwrap().as_str(), "user/m");
    assert_eq!(service.run_target("dir/m2.wasm").unwrap().as_str(), "user/m");
    assert_eq!(service.unload_module("user/m"), Ok("user/m".to_string()));
    assert_eq!(run(&service, "m2", ""), Err(Error::ModuleNotFound));
    assert_eq!(run(&service, "m", ""), Err(Error::ModuleNotFound));
    assert_eq!(service.remove_alias("m"), Err(Error::ModuleNotFound));
    assert_eq!(service.remove_alias("m2"), Err(Error::ModuleNotFound));
}

#[test]
fn aliases_need_a_known_target_and_a_name() {
    let mut service = Svc::new();
    load(&mut service, builtin("math"), "3");
    assert_eq!(service.add_alias("m", "nothing"), Err(Error::ModuleNotFound));
    assert_eq!(service.add_alias("m", "/math"), Err(Error::InvalidModuleName));
    assert_eq!(service.add_alias("..", "math"), Err(Error::InvalidModuleName));
    assert_eq!(service.add_alias("dir/m.wasm", "math"), Ok(()));
    assert_eq!(run(&service, "m", ""), Ok("3".to_string()));
    assert_eq!(service.remove_alias(".."), Err(Error::InvalidModuleName));
    assert_eq!(service.remove_alias("x/m.wat"), Ok("math".to_string()));
    assert_eq!(run(&service, "m", ""), Err(Error::ModuleNotFound));
    assert_eq!(run(&service, "..", ""), Err(Error::InvalidModuleName));
    assert_eq!(run(&service, "a@b/m", ""), Err(Error::InvalidModuleName));
    assert_eq!(run(&service, "a@b", ""), Err(Error::InvalidModuleName));
    assert_eq!(service.add_alias("a@b", "math"), Err(Error::InvalidModuleName));
    assert_eq!(service.remove_alias("a@b"), Err(Error::InvalidModuleName));
}

#[test]
fn removing_an_alias_takes_those_that_lead_to_it() {
    let mut service = Svc::new();
    load(&mut service, builtin("baz"), "z");
    assert_eq!(service.add_alias("bar", "baz"), Ok(()));
    assert_eq!(service.add_alias("foo", "bar"), Ok(()));
    assert_eq!(run(&service, "foo", ""), Ok("z".to_string()));
    assert_eq!(service.remove_alias("bar"), Ok("baz".to_string()));
    assert_eq!(run(&service, "foo", ""), Err(Error::ModuleNotFound));
    assert_eq!(run(&service, "bar", ""), Err(Error::ModuleNotFound));
    assert_eq!(run(&service, "baz", ""), Ok("z".to_string()));
}

#[test]
fn unloading_refuses_what_is_no_name() {
    let mut service = Svc::new();
    assert_eq!(service.unload_module("/m"), Err(Error::InvalidModuleName));
    assert_eq!(service.unload_module("u@x/m"), Err(Error::InvalidModuleName));
}

#[test]
fn urls_are_refused_before_anything_is_fetched() {
    assert_eq!(
        ParsedUrl::parse("gist.github.com/u/abc").map(resolve),
        Err(InvalidUrl::ParseError)
    );
    assert!(matches!(
        resolve(ParsedUrl::parse("https://github.com/u/abc").unwrap()),
        Err(Error::InvalidUrl(InvalidUrl::RejectedOrigin))
    ));
}

#[test]
fn the_command_loop_turns_commands_into_steps() {
    let service = Svc::new();
    assert_eq!(
        service.listen(Command::LoadModule("m".to_string())),
        Step::Load("m".to_string())
    );
    assert_eq!(
        service.listen(Command::RunModule {
            module: "m".to_string(),
            entry_point: "e".to_string(),
            args: "a b".to_string(),
        }),
        Step::Run {
            module: "m".to_string(),
            entry_point: "e".to_string(),
            args: "a b".to_string(),
        }
    );
    assert_eq!(service.listen(Command::Idle), Step::Skip);
    assert_eq!(service.listen(Command::Quit), Step::Stop);
}

#[test]
fn the_epoch_timer_ticks_while_invocations_are_in_flight() {
    let mut timer = EpochTimer::new();
    assert!(timer.wait());
    timer.start();
    assert!(!timer.wait());
    timer.start();
    timer.finish();
    assert!(!timer.wait());
    timer.finish();
    assert!(timer.wait());
    timer.shutdown();
    assert!(!timer.wait());
    timer.finish();
    assert!(!timer.wait());
    assert_eq!(EpochTimer::default(), EpochTimer::new());
}

#[test]
fn bounds_of_an_invocation() {
    assert_eq!(INVOCATION_PERMITS, 2);
    assert_eq!(CALL_TIMEOUT_MILLIS, 5000);
    assert_eq!(EPOCH_INTERVAL_MILLIS, 5);
    assert_eq!(EPOCH_DEADLINE_DELTA, 1);
}

#[test]
fn the_engine_compiles_modules_and_counts_epochs() {
    let options = engine_options();
    assert!(options.debug_info && options.backtrace_details && options.async_support);
    assert!(options.epoch_interruption && options.optimize_for_speed);
    assert_eq!((HOST_NAMESPACE, ABORT_NAMESPACE, MEMORY_EXPORT), ("wotto", "env", "memory"));

    let engine = wasmtime::Engine::default();
    increment_epoch(&engine);

    // the smallest module: the magic number and the version
    let mut module = builtin("empty");
    assert_eq!(module.content(), Some(&b"\0asm".to_vec()));
    assert!(compile_module(&engine, &module).is_err());
    let url = module.url().clone();
    module = ResolvedModule::from_builtin(url, &vec![Probe::File]).unwrap();
    module.set_content(b"\0asm\x01\0\0\0".to_vec());
    let compiled = compile_module(&engine, &module).unwrap();
    assert_eq!(compiled.exports().count(), 0);

    let mut service: Service<wasmtime::Module> = Service::new();
    let fqn = service.load_module_from_url(&module).unwrap();
    assert_eq!(service.load_web_module(&fqn, module, Ok(compiled)), Ok(()));
    assert!(service.run_module("empty").is_ok());
    let broken = builtin("empty");
    let failed = compile_module(&engine, &broken);
    assert!(matches!(
        service.load_web_module(&fqn, broken, failed.map_err(|e| e.to_string())),
        Err(Error::Wasm(_))
    ));
    assert!(service.run_module("empty").is_ok());
}

#[test]
fn a_builtin_in_the_text_format_is_compiled() {
    let engine = wasmtime::Engine::default();
    let url = ParsedUrl::parse("builtin:hello").unwrap();
    let probes = vec![Probe::Failed("no such file".to_string()), Probe::File];
    let mut module = ResolvedModule::from_builtin(url, &probes).unwrap();
    assert_eq!(
        module.ensure_content(),
        Fetch::Builtin("builtin/hello.wat".to_string())
    );
    module.set_content(b"(module (func (export \"e\")))".to_vec());
    let compiled = compile_module(&engine, &module).unwrap();
    assert_eq!(compiled.exports().count(), 1);
    // the same engine says the same of the same bytes
    assert!(compile_module(&engine, &module).is_ok());
    let broken = builtin("hello");
    let first = compile_module(&engine, &broken).map(|_| ());
    let second = compile_module(&engine, &broken).map(|_| ());
    assert!(first.is_err());
    assert_eq!(first, second);
}
