//! The builtin loader: modules that ship with the service, as files under
//! one directory.

use crate::error::{Error, InvalidUrl, WebError};
use crate::names::{file_name, file_name_bounds, file_stem, file_stem_bounds, path_end};
use crate::names::trim_path_end;
use crate::text::{chars_of, last_index_of, lemma_last_index_of, rfind_char, string_of};
use crate::url::ParsedUrl;
use crate::webload::gist::opt_bytes;
use crate::webload::Domain;
use vstd::prelude::*;
use vstd::string::StringExecFns;

verus! {

/// The directory that holds the builtin modules.
pub const BUILTIN_DIR: &'static str = "builtin";

/// Whether the component `..` starts at position `i` of `path`.
pub open spec fn parent_at(path: Seq<char>, i: int) -> bool {
    &&& 0 <= i && i + 2 <= path.len()
    &&& path[i] == '.' && path[i + 1] == '.'
    &&& i == 0 || path[i - 1] == '/'
    &&& i + 2 == path.len() || path[i + 2] == '/'
}

/// Whether all components of `path` are names: the path does not start
/// at the root, does not start with the component `.`, and has no
/// component `..`.
pub open spec fn only_normal(path: Seq<char>) -> bool {
    &&& !(path.len() > 0 && path[0] == '/')
    &&& !(path.len() > 0 && path[0] == '.' && (path.len() == 1 || path[1] == '/'))
    &&& forall|i: int| !parent_at(path, i)
}

/// Whether the file name of `path` has an extension: a `.` that is not
/// its first character.
pub open spec fn has_extension(path: Seq<char>) -> bool {
    match file_name(path) {
        Some(name) => last_index_of(name, '.') > 0,
        None => false,
    }
}

/// Whether `path` is accepted as the path of a builtin module.
pub open spec fn is_builtin_path(path: Seq<char>) -> bool {
    only_normal(path) && !has_extension(path)
}

/// The extension of the `i`th candidate.
pub open spec fn extension(i: int) -> Seq<char> {
    if i == 0 {
        "wasm"@
    } else {
        "wat"@
    }
}

/// The file that is tried for the module at `path` with the extension
/// `ext`: under the builtin directory, the path without the separators
/// that end it, then `.` and the extension.
pub open spec fn candidate(path: Seq<char>, ext: Seq<char>) -> Seq<char> {
    trim_path_end("builtin/"@ + path) + "."@ + ext
}

/// What looking at a candidate file gave.
#[derive(Debug, PartialEq, Eq)]
pub enum Probe {
    /// A regular file is there.
    File,
    /// Something is there that is no regular file.
    NotFile,
    /// The file system answered with this error.
    Failed(String),
}

/// A builtin module, resolved: the file that holds it, and its bytes once
/// they were read.
#[derive(Debug, PartialEq, Eq)]
pub struct BuiltinModule {
    file: BuiltinFile,
    content: Option<Vec<u8>>,
}

/// The path of a file together with its file stem.
#[derive(Debug, PartialEq, Eq)]
struct BuiltinFile {
    full_path: String,
    name: String,
}

impl BuiltinFile {
    #[verifier::type_invariant]
    spec fn well_formed(self) -> bool {
        file_stem(self.full_path@) == Some(self.name@)
    }
}

/// A `BuiltinModule` as plain values.
pub struct ResolvedBuiltin {
    pub full_path: Seq<char>,
    pub content: Option<Seq<u8>>,
}

impl View for BuiltinModule {
    type V = ResolvedBuiltin;

    closed spec fn view(&self) -> ResolvedBuiltin {
        ResolvedBuiltin { full_path: self.file.full_path@, content: opt_bytes(self.content) }
    }
}

/// A path whose last character belongs to a name has a file stem.
pub proof fn lemma_has_stem(path: Seq<char>)
    requires
        path.len() > 0,
        path.last() != '/',
        path.last() != '.',
    ensures
        file_stem(path) is Some,
{
    assert(trim_path_end(path) == path);
    lemma_last_index_of(path, '/');
    let name = path.skip(last_index_of(path, '/') + 1);
    assert(name.len() > 0);
    assert(name.last() == path.last());
    if name == seq!['.', '.'] {
        assert(name.last() == '.');
    }
}

/// Whether the component `..` starts at position `i` of `chars`.
fn is_parent_at(chars: &[char], i: usize) -> (r: bool)
    requires
        i < chars@.len(),
    ensures
        r == parent_at(chars@, i as int),
{
    let n = chars.len();
    i + 1 < n && chars[i] == '.' && chars[i + 1] == '.' && (i == 0 || chars[i - 1] == '/') && (i
        + 2 == n || chars[i + 2] == '/')
}

/// Whether `chars` is accepted as the path of a builtin module.
fn check_path(chars: &[char]) -> (r: bool)
    ensures
        r == is_builtin_path(chars@),
{
    let n = chars.len();
    if n > 0 && (chars[0] == '/' || (chars[0] == '.' && (n == 1 || chars[1] == '/'))) {
        return false;
    }
    let mut i: usize = 0;
    while i < n
        invariant
            i <= n == chars@.len(),
            forall|j: int| 0 <= j < i ==> !parent_at(chars@, j),
        decreases n - i,
    {
        if is_parent_at(chars, i) {
            return false;
        }
        i += 1;
    }
    match file_name_bounds(chars) {
        Some((start, end)) => match rfind_char(chars, start, end, '.') {
            Some(dot) => dot == start,
            None => true,
        },
        None => true,
    }
}

impl BuiltinModule {
    /// The module held by the file `full_path`, not read yet.
    pub fn new(full_path: String) -> (r: Self)
        requires
            file_stem(full_path@) is Some,
        ensures
            r@ == (ResolvedBuiltin { full_path: full_path@, content: None }),
    {
        let chars = chars_of(full_path.as_str());
        let name = match file_stem_bounds(&chars) {
            Some((start, end)) => string_of(&chars, start, end),
            None => String::new(),
        };
        BuiltinModule { file: BuiltinFile { full_path, name }, content: None }
    }

    pub fn domain(&self) -> (r: Domain)
        ensures
            r == Domain::Builtin,
    {
        Domain::Builtin
    }

    /// A builtin module has no user: the empty text.
    pub fn user(&self) -> (r: &'static str)
        ensures
            r@.len() == 0,
    {
        proof {
            reveal_strlit("");
        }
        ""
    }

    /// The name of the module's file: the file stem of its path.
    pub fn name(&self) -> (r: &str)
        ensures
            file_stem(self@.full_path) == Some(r@),
    {
        proof {
            use_type_invariant(&self.file);
        }
        self.file.name.as_str()
    }

    /// The file that holds the module.
    pub fn full_path(&self) -> (r: &str)
        ensures
            r@ == self@.full_path,
    {
        self.file.full_path.as_str()
    }

    pub fn content(&self) -> (r: Option<&Vec<u8>>)
        ensures
            match r {
                Some(bytes) => self@.content == Some(bytes@),
                None => self@.content is None,
            },
    {
        self.content.as_ref()
    }

    /// Stores the bytes that were read from the file.
    pub fn set_content(&mut self, content: Vec<u8>)
        ensures
            final(self)@ == (ResolvedBuiltin { content: Some(content@), ..old(self)@ }),
    {
        self.content = Some(content);
    }

    /// Takes the bytes out of the handle, which then has none.
    pub fn take_content(&mut self) -> (r: Option<Vec<u8>>)
        ensures
            opt_bytes(r) == old(self)@.content,
            final(self)@ == (ResolvedBuiltin { content: None, ..old(self)@ }),
    {
        self.content.take()
    }
}

/// The candidate file for the module at the path `chars` with the
/// extension `ext`.
fn candidate_path(chars: &Vec<char>, ext: &str) -> (r: String)
    ensures
        r@ == candidate(chars@, ext@),
{
    let mut joined = chars_of("builtin/");
    let mut i: usize = 0;
    while i < chars.len()
        invariant
            i <= chars@.len(),
            joined@ == "builtin/"@ + chars@.take(i as int),
        decreases chars@.len() - i,
    {
        proof {
            assert(chars@.take(i + 1) == chars@.take(i as int).push(chars@[i as int]));
        }
        joined.push(chars[i]);
        i += 1;
    }
    proof {
        assert(chars@.take(i as int) == chars@);
    }
    let end = path_end(&joined);
    let mut path = string_of(&joined, 0, end);
    proof {
        assert(joined@.subrange(0, end as int) == joined@.take(end as int));
    }
    path.append(".");
    path.append(ext);
    path
}

/// The files that are tried for the builtin module that `url` names, in
/// the order in which they are tried. A path that is not accepted gives
/// `InvalidPath`.
pub fn candidates(url: &ParsedUrl) -> (r: Result<Vec<String>, Error>)
    ensures
        match r {
            Ok(paths) => is_builtin_path(url@.path) && paths@.len() == 2 && forall|i: int|
                0 <= i < 2 ==> (#[trigger] paths@[i])@ == candidate(url@.path, extension(i)),
            Err(e) => !is_builtin_path(url@.path) && e == Error::InvalidUrl(
                InvalidUrl::InvalidPath,
            ),
        },
{
    let chars = chars_of(url.path.as_str());
    if !check_path(&chars) {
        return Err(Error::InvalidUrl(InvalidUrl::InvalidPath));
    }
    let mut paths: Vec<String> = Vec::new();
    paths.push(candidate_path(&chars, "wasm"));
    paths.push(candidate_path(&chars, "wat"));
    Ok(paths)
}

/// How many candidates were looked at.
pub open spec fn probed(probes: Seq<Probe>) -> int {
    if probes.len() < 2 {
        probes.len() as int
    } else {
        2
    }
}

/// The first candidate that was found to be a regular file, or
/// `probed(probes)` where none was.
pub open spec fn first_file(probes: Seq<Probe>) -> int {
    if probes.len() > 0 && probes[0] is File {
        0
    } else if probes.len() > 1 && probes[1] is File {
        1
    } else {
        probed(probes)
    }
}

/// Why the candidate with this outcome was passed over.
pub open spec fn rejection(probe: Probe, error: WebError) -> bool {
    match probe {
        Probe::File => false,
        Probe::NotFile => error == WebError::NotWasm,
        Probe::Failed(message) => error matches WebError::IoError(text) && text@ == message@,
    }
}

/// Whether `r` is what the outcomes `probes` give for the builtin module
/// at `path`: the first candidate that is a regular file; where there is
/// none, an error that lists every candidate that was looked at with the
/// reason why it was passed over; `InvalidPath` where the path is not
/// accepted.
pub open spec fn resolves_to(
    path: Seq<char>,
    probes: Seq<Probe>,
    r: Result<BuiltinModule, Error>,
) -> bool {
    match r {
        Ok(module) => is_builtin_path(path) && first_file(probes) < probed(probes) && module@ == (
        ResolvedBuiltin {
            full_path: candidate(path, extension(first_file(probes))),
            content: None,
        }),
        Err(Error::InvalidUrl(e)) => !is_builtin_path(path) && e == InvalidUrl::InvalidPath,
        Err(Error::CannotFetch(WebError::Multiple(errors))) => is_builtin_path(path)
            && first_file(probes) == probed(probes) && errors@.len() == probed(probes)
            && forall|i: int|
            0 <= i < errors@.len() ==> (#[trigger] errors@[i]).0@ == candidate(path, extension(i))
                && rejection(probes[i], errors@[i].1),
        Err(_) => false,
    }
}

/// Resolves the builtin module that `url` names, given what looking at
/// its candidates gave: `probes[i]` is the outcome for the `i`th path of
/// `candidates`, and candidates after the first regular file need not
/// have been looked at.
pub fn resolve_module(url: &ParsedUrl, probes: &Vec<Probe>) -> (r: Result<BuiltinModule, Error>)
    ensures
        resolves_to(url@.path, probes@, r),
{
    let mut paths = match candidates(url) {
        Ok(paths) => paths,
        Err(e) => { return Err(e); },
    };
    let wat = paths.pop().unwrap();
    let wasm = paths.pop().unwrap();
    proof {
        reveal_strlit("wasm");
        reveal_strlit("wat");
        reveal_strlit(".");
        lemma_has_stem(wasm@);
        lemma_has_stem(wat@);
    }
    let mut errors: Vec<(String, WebError)> = Vec::new();
    if probes.len() > 0 {
        match &probes[0] {
            Probe::File => { return Ok(BuiltinModule::new(wasm)); },
            Probe::NotFile => errors.push((wasm, WebError::NotWasm)),
            Probe::Failed(message) => errors.push((wasm, WebError::IoError(message.clone()))),
        }
    }
    if probes.len() > 1 {
        match &probes[1] {
            Probe::File => { return Ok(BuiltinModule::new(wat)); },
            Probe::NotFile => errors.push((wat, WebError::NotWasm)),
            Probe::Failed(message) => errors.push((wat, WebError::IoError(message.clone()))),
        }
    }
    Err(Error::CannotFetch(WebError::Multiple(errors)))
}

} // verus!
