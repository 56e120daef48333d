//! The service façade: what loading, unloading, running and aliasing do
//! to the registry and to the alias book.
//!
//! The service holds the state and takes the decisions. Fetching,
//! compiling and running are the caller's: an operation that needs one
//! of them comes in steps, and the caller does the outside work between
//! the steps.

use crate::aliases::{dependents, hop, lemma_resolution_reaches, resolution};
use crate::aliases::{AliasBook, MAX_ALIAS_HOPS};
use crate::error::Error;
use crate::names::{canonical_name, is_canonical, is_fqn, module_fqn};
use crate::names::{CanonicalName, FullyQualifiedName, FullyQualifiedNameBuf};
use crate::registry::Registry;
use crate::runtime::RuntimeData;
use crate::url::ParsedUrl;
use crate::webload::ResolvedModule;
use vstd::prelude::*;

verus! {

/// The time that a call of a guest's entry point may take, in
/// milliseconds.
pub const CALL_TIMEOUT_MILLIS: u64 = 5000;

/// The number of invocations that may run at a time.
pub const INVOCATION_PERMITS: usize = 2;

/// The time between two ticks of the epoch timer, in milliseconds.
pub const EPOCH_INTERVAL_MILLIS: u64 = 5;

/// By how many ticks the deadline of a guest moves on each time the guest
/// has yielded at a tick.
pub const EPOCH_DEADLINE_DELTA: u64 = 1;

/// A module in the registry: what it was resolved from, and its compiled
/// code.
pub struct WottoModule<C> {
    resolved: ResolvedModule,
    code: C,
}

impl<C> WottoModule<C> {
    pub closed spec fn resolved_of(self) -> ResolvedModule {
        self.resolved
    }

    pub closed spec fn code_of(self) -> C {
        self.code
    }

    pub fn new(resolved: ResolvedModule, code: C) -> (r: Self)
        ensures
            r.resolved_of() == resolved,
            r.code_of() == code,
    {
        WottoModule { resolved, code }
    }

    pub fn resolved(&self) -> (r: &ResolvedModule)
        ensures
            *r == self.resolved_of(),
    {
        &self.resolved
    }

    pub fn code(&self) -> (r: &C)
        ensures
            *r == self.code_of(),
    {
        &self.code
    }
}

/// A command for the command loop.
#[derive(Debug, PartialEq, Eq)]
pub enum Command {
    LoadModule(String),
    RunModule { module: String, entry_point: String, args: String },
    Quit,
    Idle,
}

/// What the command loop does with a command.
#[derive(Debug, PartialEq, Eq)]
pub enum Step {
    /// Load the module of this name and send the result.
    Load(String),
    /// Run the entry point of the module with the arguments and send the
    /// result.
    Run { module: String, entry_point: String, args: String },
    /// Go on with the next command.
    Skip,
    /// Leave the loop.
    Stop,
}

/// How a call of a guest's entry point ended.
#[derive(Debug, PartialEq, Eq)]
pub enum CallOutcome {
    /// The module could not be instantiated; the engine's message.
    NotInstantiated(String),
    /// The module exports no function of the entry point's name.
    NoSuchFunction,
    /// The function does not take nothing and give nothing.
    WrongSignature,
    /// The guest trapped, or the host failed; the engine's message.
    Trapped(String),
    /// The deadline passed before the call returned.
    DeadlinePassed,
    /// The call returned.
    Returned,
}

/// The name under which `run` looks a module up: what the canonical name
/// of `name` stands for as an alias, or else `name` itself, which then
/// has to be a fully-qualified name.
pub open spec fn run_target(aliases: Map<Seq<char>, Seq<char>>, name: Seq<char>) -> Result<
    Seq<char>,
    Error,
> {
    match canonical_name(name) {
        None => Err(Error::InvalidModuleName),
        Some(short) => match resolution(aliases, short, MAX_ALIAS_HOPS as nat) {
            Some(target) => Ok(target),
            None => if is_fqn(name) {
                Ok(name)
            } else {
                Err(Error::InvalidModuleName)
            },
        },
    }
}

/// The module that `run` finds for `name`, or the error with which it
/// fails: `ModuleNotFound` where the target has no slot or an empty one.
pub open spec fn run_lookup<C>(
    modules: Map<Seq<char>, Option<WottoModule<C>>>,
    aliases: Map<Seq<char>, Seq<char>>,
    name: Seq<char>,
) -> Result<WottoModule<C>, Error> {
    match run_target(aliases, name) {
        Err(e) => Err(e),
        Ok(target) => if modules.dom().contains(target) && modules[target] is Some {
            Ok(modules[target]->0)
        } else {
            Err(Error::ModuleNotFound)
        },
    }
}

/// Why `alias` cannot be made to stand for `refers_to`, if it cannot: the
/// target is no fully-qualified name; or it is neither in the registry
/// nor an alias; or the alias has no canonical name.
pub open spec fn alias_refusal<C>(
    modules: Map<Seq<char>, Option<WottoModule<C>>>,
    aliases: Map<Seq<char>, Seq<char>>,
    alias: Seq<char>,
    refers_to: Seq<char>,
) -> Option<Error> {
    if !is_fqn(refers_to) {
        Some(Error::InvalidModuleName)
    } else if !modules.dom().contains(refers_to) && !aliases.dom().contains(refers_to) {
        Some(Error::ModuleNotFound)
    } else if canonical_name(alias) is None {
        Some(Error::InvalidModuleName)
    } else {
        None
    }
}

/// The slot of `name`, empty where the name has none.
pub open spec fn slot_of<C>(
    modules: Map<Seq<char>, Option<WottoModule<C>>>,
    name: Seq<char>,
) -> Option<WottoModule<C>> {
    if modules.dom().contains(name) {
        modules[name]
    } else {
        None
    }
}

/// The state of the service: the registry of modules with compiled code
/// of type `C`, and the alias book.
pub struct Service<C> {
    registry: Registry<WottoModule<C>>,
    aliases: AliasBook,
}

impl<C> Service<C> {
    /// The invariant of the service.
    pub closed spec fn wf(&self) -> bool {
        self.registry.wf() && self.aliases.wf()
    }

    /// The registry: each name with its slot.
    pub closed spec fn modules(&self) -> Map<Seq<char>, Option<WottoModule<C>>> {
        self.registry@
    }

    /// The alias book: each alias with what it stands for.
    pub closed spec fn aliases(&self) -> Map<Seq<char>, Seq<char>> {
        self.aliases@
    }

    /// A service without modules and without aliases.
    pub fn new() -> (r: Self)
        ensures
            r.wf(),
            r.modules() == Map::<Seq<char>, Option<WottoModule<C>>>::empty(),
            r.aliases() == Map::<Seq<char>, Seq<char>>::empty(),
    {
        Service { registry: Registry::new(), aliases: AliasBook::new() }
    }

    /// Makes the canonical name of `alias` stand for `refers_to`, which is
    /// a name in the registry or an alias.
    pub fn add_alias(&mut self, alias: &str, refers_to: &str) -> (r: Result<(), Error>)
        requires
            old(self).wf(),
        ensures
            final(self).wf(),
            final(self).modules() == old(self).modules(),
            match alias_refusal(old(self).modules(), old(self).aliases(), alias@, refers_to@) {
                None => {
                    &&& r == Ok::<(), Error>(())
                    &&& final(self).aliases() == old(self).aliases().insert(
                        canonical_name(alias@)->0,
                        refers_to@,
                    )
                },
                Some(e) => {
                    &&& r == Err::<(), Error>(e)
                    &&& final(self).aliases() == old(self).aliases()
                },
            },
    {
        let target = match FullyQualifiedName::from_str(refers_to) {
            Ok(fqn) => fqn,
            Err(_) => { return Err(Error::InvalidModuleName); },
        };
        if !(self.registry.contains_key(refers_to) || self.aliases.has(refers_to)) {
            return Err(Error::ModuleNotFound);
        }
        let short = match CanonicalName::try_from(alias) {
            Ok(short) => short,
            Err(e) => { return Err(e); },
        };
        self.aliases.add(&short, &target);
        Ok(())
    }

    /// Removes the canonical name of `alias` from the aliases, and with it
    /// every alias that leads to it; hands back what the alias stood for.
    /// Where it is no alias the call fails with `ModuleNotFound`, and the
    /// aliases that lead to the name are removed all the same.
    pub fn remove_alias(&mut self, alias: &str) -> (r: Result<String, Error>)
        requires
            old(self).wf(),
        ensures
            final(self).wf(),
            final(self).modules() == old(self).modules(),
            match canonical_name(alias@) {
                None => {
                    &&& r == Err::<String, Error>(Error::InvalidModuleName)
                    &&& final(self).aliases() == old(self).aliases()
                },
                Some(short) => {
                    &&& final(self).aliases() == old(self).aliases().remove_keys(
                        dependents(old(self).aliases(), short).insert(short),
                    )
                    &&& match r {
                        Ok(target) => {
                            &&& old(self).aliases().dom().contains(short)
                            &&& target@ == old(self).aliases()[short]
                        },
                        Err(e) => {
                            &&& !old(self).aliases().dom().contains(short)
                            &&& e == Error::ModuleNotFound
                        },
                    }
                },
            },
    {
        let short = match CanonicalName::try_from(alias) {
            Ok(short) => short,
            Err(e) => { return Err(e); },
        };
        match self.aliases.remove(&short) {
            Some(target) => Ok(target.to_string()),
            None => Err(Error::ModuleNotFound),
        }
    }

    /// Takes the module `name` out of the registry, and every alias that
    /// leads to it out of the aliases. The slot of `name` goes in any
    /// case; where there was none, or an empty one, the call fails with
    /// `ModuleNotFound` and the aliases stay.
    pub fn unload_module(&mut self, name: &str) -> (r: Result<String, Error>)
        requires
            old(self).wf(),
        ensures
            final(self).wf(),
            match r {
                Ok(unloaded) => {
                    &&& is_fqn(name@)
                    &&& slot_of(old(self).modules(), name@) is Some
                    &&& unloaded@ == name@
                    &&& final(self).modules() == old(self).modules().remove(name@)
                    &&& final(self).aliases() == old(self).aliases().remove_keys(
                        dependents(old(self).aliases(), name@),
                    )
                },
                Err(Error::InvalidModuleName) => {
                    &&& !is_fqn(name@)
                    &&& final(self).modules() == old(self).modules()
                    &&& final(self).aliases() == old(self).aliases()
                },
                Err(Error::ModuleNotFound) => {
                    &&& is_fqn(name@)
                    &&& slot_of(old(self).modules(), name@) is None
                    &&& final(self).modules() == old(self).modules().remove(name@)
                    &&& final(self).aliases() == old(self).aliases()
                },
                Err(_) => false,
            },
    {
        let key = match FullyQualifiedName::from_str(name) {
            Ok(key) => key,
            Err(e) => { return Err(e); },
        };
        match self.registry.take_entry(name) {
            Some(_) => {
                self.aliases.remove_target(&key);
                Ok(key.to_string())
            },
            None => Err(Error::ModuleNotFound),
        }
    }

    /// The first step of loading the module `name` again: reserves its
    /// slot and hands back the URL that it was resolved from, which the
    /// caller resolves once more. Fails with `ModuleNotFound` where the
    /// slot is empty: there is nothing to load the module from.
    pub fn load_module(&mut self, name: &str) -> (r: Result<ParsedUrl, Error>)
        requires
            old(self).wf(),
        ensures
            final(self).wf(),
            final(self).aliases() == old(self).aliases(),
            match r {
                Ok(url) => {
                    &&& is_fqn(name@)
                    &&& slot_of(old(self).modules(), name@) matches Some(module) && url@
                        == module.resolved_of().url@
                    &&& final(self).modules() == old(self).modules()
                },
                Err(Error::InvalidModuleName) => {
                    &&& !is_fqn(name@)
                    &&& final(self).modules() == old(self).modules()
                },
                Err(Error::ModuleNotFound) => {
                    &&& is_fqn(name@)
                    &&& slot_of(old(self).modules(), name@) is None
                    &&& final(self).modules() == old(self).modules().insert(name@, None)
                },
                Err(_) => false,
            },
    {
        match FullyQualifiedName::from_str(name) {
            Ok(_) => {},
            Err(e) => { return Err(e); },
        }
        let slot = self.registry.lock_entry_mut(name.to_owned());
        let found = match slot {
            Some(module) => Ok(module.resolved().url().clone()),
            None => Err(Error::ModuleNotFound),
        };
        proof {
            let before = old(self).modules();
            if before.dom().contains(name@) {
                assert(before.insert(name@, before[name@]) =~= before);
            }
        }
        found
    }
}

/// What the second look at a module's URL has to give for the module to
/// be loaded again under `name`: a module of that very name. A URL that
/// now gives another name gives `ModuleGone` with the name and the URL.
pub open spec fn reload_refusal(
    name: Seq<char>,
    url: Seq<char>,
    module: ResolvedModule,
    e: Error,
) -> bool {
    match e {
        Error::InvalidModuleName => module_fqn(module) is None,
        Error::ModuleGone(gone, at) => module_fqn(module) is Some && module_fqn(module)
            != Some(name) && gone@ == name && at@ == url,
        _ => false,
    }
}

impl<C> Service<C> {
    /// The second step of loading the module `name` again: checks what
    /// resolving `url` once more has given. The registry is not touched.
    pub fn check_reloaded(&self, name: &str, url: &ParsedUrl, module: &ResolvedModule) -> (r:
        Result<(), Error>)
        ensures
            match r {
                Ok(()) => module_fqn(*module) == Some(name@),
                Err(e) => reload_refusal(name@, url@.text, *module, e),
            },
    {
        let fqn = match FullyQualifiedNameBuf::for_module(module) {
            Ok(fqn) => fqn,
            Err(e) => { return Err(e); },
        };
        if !fqn.as_name().eq_str(name) {
            return Err(Error::ModuleGone(name.to_owned(), url.text.clone()));
        }
        Ok(())
    }

    /// The first step of loading a module that was resolved from a URL:
    /// names the module and reserves its slot. What the slot holds stays
    /// until the module's code is there.
    pub fn load_module_from_url(&mut self, module: &ResolvedModule) -> (r: Result<
        FullyQualifiedNameBuf,
        Error,
    >)
        requires
            old(self).wf(),
        ensures
            final(self).wf(),
            final(self).aliases() == old(self).aliases(),
            match r {
                Ok(fqn) => {
                    &&& module_fqn(*module) == Some(fqn@)
                    &&& final(self).modules() == old(self).modules().insert(
                        fqn@,
                        slot_of(old(self).modules(), fqn@),
                    )
                },
                Err(e) => {
                    &&& module_fqn(*module) is None
                    &&& e == Error::InvalidModuleName
                    &&& final(self).modules() == old(self).modules()
                },
            },
    {
        let fqn = match FullyQualifiedNameBuf::for_module(module) {
            Ok(fqn) => fqn,
            Err(e) => { return Err(e); },
        };
        let _ = self.registry.lock_entry_mut(fqn.to_string());
        Ok(fqn)
    }

    /// The last step of loading: puts the module with its compiled code
    /// in the slot of `fqn`, in place of what was there. Where compiling
    /// failed, the slot stays as it is and the call fails with the
    /// engine's message. The module has its bytes.
    pub fn load_web_module(
        &mut self,
        fqn: &FullyQualifiedNameBuf,
        webmodule: ResolvedModule,
        compiled: Result<C, String>,
    ) -> (r: Result<(), Error>)
        requires
            old(self).wf(),
            webmodule.content_of() is Some,
        ensures
            final(self).wf(),
            final(self).aliases() == old(self).aliases(),
            match compiled {
                Ok(code) => {
                    &&& r == Ok::<(), Error>(())
                    &&& slot_of(final(self).modules(), fqn@) matches Some(module)
                        && module.resolved_of() == webmodule && module.code_of() == code
                    &&& final(self).modules() == old(self).modules().insert(
                        fqn@,
                        slot_of(final(self).modules(), fqn@),
                    )
                },
                Err(message) => {
                    &&& r matches Err(Error::Wasm(text)) && text@ == message@
                    &&& final(self).modules() == old(self).modules()
                },
            },
    {
        match compiled {
            Ok(code) => {
                let slot = self.registry.lock_entry_mut(fqn.to_string());
                *slot = Some(WottoModule::new(webmodule, code));
                Ok(())
            },
            Err(message) => Err(Error::Wasm(message)),
        }
    }

    /// The name under which `run` looks up the module that `module_name`
    /// names: what the canonical name of `module_name` stands for as an
    /// alias, or else `module_name` itself.
    pub fn run_target(&self, module_name: &str) -> (r: Result<FullyQualifiedNameBuf, Error>)
        requires
            self.wf(),
        ensures
            match r {
                Ok(key) => run_target(self.aliases(), module_name@) == Ok::<Seq<char>, Error>(
                    key@,
                ),
                Err(e) => run_target(self.aliases(), module_name@) == Err::<Seq<char>, Error>(e),
            },
    {
        let short = match CanonicalName::try_from(module_name) {
            Ok(short) => short,
            Err(e) => { return Err(e); },
        };
        match self.aliases.resolve(short.as_str()) {
            Some(target) => Ok(target.to_owned()),
            None => match FullyQualifiedName::from_str(module_name) {
                Ok(key) => Ok(key.to_owned()),
                Err(e) => Err(e),
            },
        }
    }

    /// The first step of running: finds the compiled code of the module
    /// that `module_name` names, through the aliases where the canonical
    /// name of `module_name` is an alias.
    pub fn run_module(&self, module_name: &str) -> (r: Result<&C, Error>)
        requires
            self.wf(),
        ensures
            match r {
                Ok(code) => run_lookup(self.modules(), self.aliases(), module_name@) matches Ok(
                    module,
                ) && module.code_of() == *code,
                Err(e) => run_lookup(self.modules(), self.aliases(), module_name@) == Err::<
                    WottoModule<C>,
                    Error,
                >(e),
            },
    {
        let key = match self.run_target(module_name) {
            Ok(key) => key,
            Err(e) => { return Err(e); },
        };
        match self.registry.wait_entry(key.as_str()) {
            Some(Some(module)) => Ok(module.code()),
            _ => Err(Error::ModuleNotFound),
        }
    }

    /// The last step of running: what the caller of `run` gets, given how
    /// the call of the entry point ended. Only a call that returned gives
    /// the output of the invocation.
    pub fn run_result(&self, outcome: CallOutcome, data: RuntimeData) -> (r: Result<String, Error>)
        ensures
            match outcome {
                CallOutcome::Returned => r matches Ok(output) && output@ == data.output_text(),
                CallOutcome::NotInstantiated(message) => r matches Err(Error::Wasm(text)) && text@
                    == message@,
                CallOutcome::Trapped(message) => r matches Err(Error::Wasm(text)) && text@
                    == message@,
                CallOutcome::NoSuchFunction => r == Err::<String, Error>(Error::FunctionNotFound),
                CallOutcome::WrongSignature => r == Err::<String, Error>(
                    Error::WrongFunctionType,
                ),
                CallOutcome::DeadlinePassed => r == Err::<String, Error>(Error::TimedOut),
            },
    {
        match outcome {
            CallOutcome::Returned => Ok(data.into_output()),
            CallOutcome::NotInstantiated(message) => Err(Error::Wasm(message)),
            CallOutcome::Trapped(message) => Err(Error::Wasm(message)),
            CallOutcome::NoSuchFunction => Err(Error::FunctionNotFound),
            CallOutcome::WrongSignature => Err(Error::WrongFunctionType),
            CallOutcome::DeadlinePassed => Err(Error::TimedOut),
        }
    }

    /// One turn of the command loop: what the loop does with `command`.
    pub fn listen(&self, command: Command) -> (r: Step)
        ensures
            r == match command {
                Command::LoadModule(name) => Step::Load(name),
                Command::RunModule { module, entry_point, args } => Step::Run {
                    module,
                    entry_point,
                    args,
                },
                Command::Idle => Step::Skip,
                Command::Quit => Step::Stop,
            },
    {
        match command {
            Command::LoadModule(name) => Step::Load(name),
            Command::RunModule { module, entry_point, args } => Step::Run {
                module,
                entry_point,
                args,
            },
            Command::Idle => Step::Skip,
            Command::Quit => Step::Stop,
        }
    }
}

impl<C> Default for Service<C> {
    fn default() -> (r: Self)
        ensures
            r.wf(),
            r.modules() == Map::<Seq<char>, Option<WottoModule<C>>>::empty(),
            r.aliases() == Map::<Seq<char>, Seq<char>>::empty(),
    {
        Service::new()
    }
}

impl<C> Service<C> {
    /// Every alias of a service is a canonical name: it is not empty and
    /// has neither `/` nor `@`. So a name that holds one of them is no
    /// alias.
    pub proof fn lemma_aliases_are_canonical(&self)
        requires
            self.wf(),
        ensures
            forall|name: Seq<char>| #[trigger]
                self.aliases().dom().contains(name) ==> is_canonical(name),
    {
        self.aliases.lemma_aliases_are_canonical();
    }

    /// Running through aliases reaches the module: where the canonical
    /// name of `name` leads, alias by alias and in no more hops than
    /// `MAX_ALIAS_HOPS`, to a name `target` that is no canonical name, as
    /// the name of a module of a user is none, `run` finds what the slot of
    /// `target` holds. So every name that leads to `target` runs the same
    /// module, and the name `target` itself does where its own canonical
    /// name is an alias of it.
    pub proof fn lemma_alias_chain_runs_target(
        &self,
        name: Seq<char>,
        target: Seq<char>,
        hops: nat,
    )
        requires
            self.wf(),
            canonical_name(name) is Some,
            1 <= hops <= MAX_ALIAS_HOPS,
            hop(self.aliases(), canonical_name(name)->0, hops) == Some(target),
            !is_canonical(target),
        ensures
            run_lookup(self.modules(), self.aliases(), name) == match slot_of(
                self.modules(),
                target,
            ) {
                Some(module) => Ok::<WottoModule<C>, Error>(module),
                None => Err::<WottoModule<C>, Error>(Error::ModuleNotFound),
            },
    {
        self.lemma_aliases_are_canonical();
        lemma_resolution_reaches(
            self.aliases(),
            canonical_name(name)->0,
            target,
            hops,
            MAX_ALIAS_HOPS as nat,
        );
    }
}

/// A module that has no slot, or an empty one, cannot be run under its
/// own name: `run` fails, unless the canonical name of the name is an
/// alias, which is then what runs. So after `unload_module` has taken a
/// slot out, running the module fails until it is loaded again.
pub proof fn lemma_unloaded_cannot_run<C>(
    modules: Map<Seq<char>, Option<WottoModule<C>>>,
    aliases: Map<Seq<char>, Seq<char>>,
    name: Seq<char>,
)
    requires
        slot_of(modules, name) is None,
        canonical_name(name) matches Some(short) ==> !aliases.dom().contains(short),
    ensures
        run_lookup(modules, aliases, name) is Err,
{
}

/// The counter of the shared epoch timer. It counts the invocations in
/// flight; the timer's worker ticks only while the counter is not zero.
#[derive(Debug, Clone, Copy, PartialEq, Eq)]
pub struct EpochTimer {
    counter: i32,
}

impl Default for EpochTimer {
    fn default() -> (r: Self)
        ensures
            r.count() == 0,
    {
        EpochTimer::new()
    }
}

impl EpochTimer {
    /// The counter.
    pub closed spec fn count(self) -> int {
        self.counter as int
    }

    /// A timer without invocations.
    pub fn new() -> (r: Self)
        ensures
            r.count() == 0,
    {
        EpochTimer { counter: 0 }
    }

    /// An invocation starts: the counter goes up by one. At its end the
    /// caller calls `finish`.
    pub fn start(&mut self)
        ensures
            final(self).count() == if old(self).count() < i32::MAX {
                old(self).count() + 1
            } else {
                old(self).count()
            },
    {
        if self.counter < i32::MAX {
            self.counter = self.counter + 1;
        }
    }

    /// An invocation ends: the counter goes down by one.
    pub fn finish(&mut self)
        ensures
            final(self).count() == if old(self).count() > i32::MIN {
                old(self).count() - 1
            } else {
                old(self).count()
            },
    {
        if self.counter > i32::MIN {
            self.counter = self.counter - 1;
        }
    }

    /// The service shuts down: the counter is set to a value that is not
    /// zero, so that the worker wakes up and can leave.
    pub fn shutdown(&mut self)
        ensures
            final(self).count() == i32::MIN,
    {
        self.counter = i32::MIN;
    }

    /// Whether the worker has to wait before its next tick: no invocation
    /// is in flight.
    pub fn wait(&self) -> (r: bool)
        ensures
            r == (self.count() == 0),
    {
        self.counter == 0
    }
}

} // verus!
