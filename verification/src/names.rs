//! Canonical names and fully-qualified names of modules.

use crate::error::Error;
use crate::text::{chars_of, rfind_char, string_of};
use crate::text::{last_index_of, lemma_last_index_of};
use crate::webload::{Domain, ResolvedModule};
use vstd::prelude::*;
use vstd::string::StringExecFns;

verus! {

/// `path` without the separators and the `.` components that end it.
/// `/` is the only separator.
pub open spec fn trim_path_end(path: Seq<char>) -> Seq<char>
    decreases path.len(),
{
    if path.len() == 0 {
        path
    } else if path.last() == '/' {
        trim_path_end(path.drop_last())
    } else if path.last() == '.' && (path.len() == 1 || path[path.len() - 2] == '/') {
        trim_path_end(path.drop_last())
    } else {
        path
    }
}

/// The last component of `path`, unless the path has none or ends in `..`.
pub open spec fn file_name(path: Seq<char>) -> Option<Seq<char>> {
    let trimmed = trim_path_end(path);
    let name = trimmed.skip(last_index_of(trimmed, '/') + 1);
    if name.len() == 0 || name == seq!['.', '.'] {
        None
    } else {
        Some(name)
    }
}

/// A file name without its extension: what stands before the last `.`,
/// or the whole name where it has no `.` or only one at its start.
pub open spec fn stem_of_name(name: Seq<char>) -> Seq<char> {
    let dot = last_index_of(name, '.');
    if dot <= 0 {
        name
    } else {
        name.take(dot)
    }
}

/// The file stem of `path`: its last component without the extension.
pub open spec fn file_stem(path: Seq<char>) -> Option<Seq<char>> {
    match file_name(path) {
        Some(name) => Some(stem_of_name(name)),
        None => None,
    }
}

/// What holds of every canonical name: it is not empty and has neither
/// `/` nor `@`.
pub open spec fn is_canonical(name: Seq<char>) -> bool {
    name.len() > 0 && !name.contains('/') && !name.contains('@')
}

/// The canonical name of the module that `path` names: its file stem,
/// which must not hold `@`.
pub open spec fn canonical_name(path: Seq<char>) -> Option<Seq<char>> {
    match file_stem(path) {
        Some(stem) => if stem.contains('@') {
            None
        } else {
            Some(stem)
        },
        None => None,
    }
}

/// The canonical name of a path is a canonical name.
pub proof fn lemma_canonical_name(path: Seq<char>)
    ensures
        canonical_name(path) matches Some(name) ==> is_canonical(name),
{
    lemma_file_stem(path);
}

/// A file stem is not empty and has no `/`.
pub proof fn lemma_file_stem(path: Seq<char>)
    ensures
        file_stem(path) matches Some(stem) ==> stem.len() > 0 && !stem.contains('/'),
{
    let trimmed = trim_path_end(path);
    let slash = last_index_of(trimmed, '/');
    lemma_last_index_of(trimmed, '/');
    let name = trimmed.skip(slash + 1);
    if file_name(path) is Some {
        let dot = last_index_of(name, '.');
        lemma_last_index_of(name, '.');
        let stem = stem_of_name(name);
        assert forall|j: int| 0 <= j < name.len() implies name[j] != '/' by {
            assert(name[j] == trimmed[slash + 1 + j]);
        }
        assert forall|j: int| 0 <= j < stem.len() implies stem[j] != '/' by {
            assert(stem[j] == name[j]);
        }
        if stem.contains('/') {
            let k = choose|k: int| 0 <= k < stem.len() && stem[k] == '/';
            assert(stem[k] != '/');
        }
    }
}

/// The end in `chars` of `trim_path_end(chars)`.
pub fn path_end(chars: &[char]) -> (end: usize)
    ensures
        end <= chars@.len(),
        trim_path_end(chars@) == chars@.take(end as int),
{
    let mut end: usize = chars.len();
    proof {
        assert(chars@.take(end as int) == chars@);
    }
    while end > 0 && (chars[end - 1] == '/' || (chars[end - 1] == '.' && (end == 1 || chars[end
        - 2] == '/')))
        invariant
            end <= chars@.len(),
            trim_path_end(chars@) == trim_path_end(chars@.take(end as int)),
        decreases end,
    {
        proof {
            assert(chars@.take(end as int).drop_last() == chars@.take(end - 1));
        }
        end -= 1;
    }
    end
}

/// The bounds in `chars` of the file name of the path `chars`.
pub fn file_name_bounds(chars: &[char]) -> (r: Option<(usize, usize)>)
    ensures
        match r {
            Some((start, end)) => start < end <= chars@.len() && file_name(chars@) == Some(
                chars@.subrange(start as int, end as int),
            ) && trim_path_end(chars@) == chars@.take(end as int),
            None => file_name(chars@) is None,
        },
{
    let end = path_end(chars);
    proof {
        assert(chars@.take(end as int) == chars@.subrange(0, end as int));
    }
    let start: usize = match rfind_char(chars, 0, end, '/') {
        Some(slash) => slash + 1,
        None => 0,
    };
    proof {
        assert(chars@.take(end as int).skip(start as int) == chars@.subrange(
            start as int,
            end as int,
        ));
    }
    if start == end {
        return None;
    }
    if end - start == 2 && chars[start] == '.' && chars[start + 1] == '.' {
        proof {
            assert(chars@.subrange(start as int, end as int) == seq!['.', '.']);
        }
        return None;
    }
    proof {
        let name = chars@.subrange(start as int, end as int);
        if name == seq!['.', '.'] {
            assert(name.len() == 2);
            assert(name[0] == chars@[start as int]);
            assert(name[1] == chars@[start + 1]);
        }
    }
    Some((start, end))
}

/// The bounds in `chars` of the file stem of the path `chars`.
pub fn file_stem_bounds(chars: &[char]) -> (r: Option<(usize, usize)>)
    ensures
        match r {
            Some((start, end)) => start <= end <= chars@.len() && file_stem(chars@) == Some(
                chars@.subrange(start as int, end as int),
            ),
            None => file_stem(chars@) is None,
        },
{
    match file_name_bounds(chars) {
        None => None,
        Some((start, end)) => {
            let stem_end: usize = match rfind_char(chars, start, end, '.') {
                Some(dot) => if dot == start {
                    end
                } else {
                    dot
                },
                None => end,
            };
            proof {
                let name = chars@.subrange(start as int, end as int);
                assert(name.take(stem_end - start) == chars@.subrange(
                    start as int,
                    stem_end as int,
                ));
            }
            Some((start, stem_end))
        },
    }
}

/// The name of a module without directory and extension.
#[derive(Debug, PartialEq, Eq)]
pub struct CanonicalName {
    name: String,
}

impl View for CanonicalName {
    type V = Seq<char>;

    closed spec fn view(&self) -> Seq<char> {
        self.name@
    }
}

impl Clone for CanonicalName {
    fn clone(&self) -> (r: Self)
        ensures
            r@ == self@,
    {
        proof {
            use_type_invariant(self);
        }
        CanonicalName { name: self.name.clone() }
    }
}

impl CanonicalName {
    #[verifier::type_invariant]
    spec fn well_formed(self) -> bool {
        is_canonical(self.name@)
    }

    /// The canonical name of the module that `value` names: the file stem
    /// of `value` read as a path. Fails where `value` has no file stem,
    /// or one that holds `@`.
    pub fn try_from(value: &str) -> (r: Result<CanonicalName, Error>)
        ensures
            match r {
                Ok(name) => file_stem(value@) == Some(name@) && canonical_name(value@) == Some(
                    name@,
                ) && is_canonical(name@),
                Err(e) => (file_stem(value@) is None || file_stem(value@)->0.contains('@'))
                    && canonical_name(value@) is None && e == Error::InvalidModuleName,
            },
    {
        let chars = chars_of(value);
        proof {
            lemma_file_stem(chars@);
        }
        match file_stem_bounds(&chars) {
            Some((start, end)) => {
                let at = crate::text::find_char(&chars, start, end, '@');
                proof {
                    crate::text::lemma_first_index_of(
                        chars@.subrange(start as int, end as int),
                        '@',
                    );
                }
                if at < end {
                    Err(Error::InvalidModuleName)
                } else {
                    Ok(CanonicalName { name: string_of(&chars, start, end) })
                }
            },
            None => Err(Error::InvalidModuleName),
        }
    }

    /// The name as text.
    pub fn as_str(&self) -> (text: &str)
        ensures
            text@ == self@,
            is_canonical(self@),
    {
        proof {
            use_type_invariant(self);
        }
        self.name.as_str()
    }
}

/// The text of the fully-qualified name of the module `canonical` of
/// `user` under `domain`.
pub open spec fn fqn_text(domain: Domain, canonical: Seq<char>, user: Seq<char>) -> Seq<char> {
    match domain {
        Domain::Github => user + seq!['/'] + canonical,
        Domain::Builtin => canonical,
        Domain::Other(label) => user + seq!['@'] + label@ + seq!['/'] + canonical,
    }
}

/// How `text` reads as a fully-qualified name: the domain of its namespace,
/// or `None` where the text is refused. The namespace is what stands before
/// the last `/`; a text without `/` names a builtin module.
pub open spec fn fqn_domain(text: Seq<char>) -> Option<Domain> {
    let slash = last_index_of(text, '/');
    if slash < 0 {
        Some(Domain::Builtin)
    } else if slash == 0 || text.take(slash).contains('@') {
        None
    } else {
        Some(Domain::Github)
    }
}

/// Whether `text` is accepted as a fully-qualified name.
pub open spec fn is_fqn(text: Seq<char>) -> bool {
    fqn_domain(text) is Some
}

/// Formatting a name and parsing it again gives the same domain: for a
/// canonical name under the builtin domain, and under GitHub for a user
/// name that is not empty and has no `@`.
pub proof fn lemma_fqn_round_trip(domain: Domain, canonical: Seq<char>, user: Seq<char>)
    requires
        is_canonical(canonical),
        domain is Github || domain is Builtin,
        domain is Github ==> user.len() > 0 && !user.contains('@'),
    ensures
        fqn_domain(fqn_text(domain, canonical, user)) == Some(domain),
{
    let text = fqn_text(domain, canonical, user);
    match domain {
        Domain::Github => {
            let at = user.len() as int;
            assert forall|j: int| at < j < text.len() implies text[j] != '/' by {
                assert(text[j] == canonical[j - at - 1]);
                assert(canonical.contains(canonical[j - at - 1]));
            }
            crate::text::lemma_last_index_is(text, '/', at);
            assert(text.take(at) == user);
        },
        _ => {
            assert forall|j: int| 0 <= j < text.len() implies text[j] != '/' by {
                assert(canonical.contains(canonical[j]));
            }
            crate::text::lemma_last_index_is(text, '/', -1);
        },
    }
}

/// The text of the fully-qualified name of a resolved module, where its
/// file has a canonical name.
pub open spec fn module_fqn(module: ResolvedModule) -> Option<Seq<char>> {
    match module.name_of() {
        Some(name) => match canonical_name(name) {
            Some(stem) => Some(fqn_text(module.domain_of(), stem, module.user_of())),
            None => None,
        },
        None => None,
    }
}

/// How the characters read as a fully-qualified name.
fn classify(chars: &[char]) -> (r: Option<Domain>)
    ensures
        r == fqn_domain(chars@),
{
    proof {
        assert(chars@.subrange(0, chars@.len() as int) == chars@);
    }
    match rfind_char(chars, 0, chars.len(), '/') {
        None => Some(Domain::Builtin),
        Some(slash) => {
            let at = crate::text::find_char(chars, 0, slash, '@');
            proof {
                let ns = chars@.subrange(0, slash as int);
                assert(ns == chars@.take(slash as int));
                crate::text::lemma_first_index_of(ns, '@');
            }
            if slash == 0 || at < slash {
                None
            } else {
                Some(Domain::Github)
            }
        },
    }
}

/// A fully-qualified name, borrowed: the identity of a module in the
/// registry.
#[derive(Debug, Clone, Copy, PartialEq, Eq, Hash)]
pub struct FullyQualifiedName<'a> {
    fqn: &'a str,
}

/// A fully-qualified name, owned.
#[derive(Debug, Clone, PartialEq, Eq, Hash)]
pub struct FullyQualifiedNameBuf {
    fqn: String,
}

impl<'a> View for FullyQualifiedName<'a> {
    type V = Seq<char>;

    closed spec fn view(&self) -> Seq<char> {
        self.fqn@
    }
}

impl View for FullyQualifiedNameBuf {
    type V = Seq<char>;

    closed spec fn view(&self) -> Seq<char> {
        self.fqn@
    }
}

impl<'a> FullyQualifiedName<'a> {
    /// Reads `s` as a fully-qualified name. The name keeps the text as
    /// it is; a text that is refused gives `InvalidModuleName`.
    pub fn from_str(s: &'a str) -> (r: Result<FullyQualifiedName<'a>, Error>)
        ensures
            match r {
                Ok(name) => is_fqn(s@) && name@ == s@,
                Err(e) => !is_fqn(s@) && e == Error::InvalidModuleName,
            },
    {
        let chars = chars_of(s);
        match classify(&chars) {
            Some(_) => Ok(FullyQualifiedName { fqn: s }),
            None => Err(Error::InvalidModuleName),
        }
    }

    /// Takes `s` for a fully-qualified name as it is, without reading it.
    pub fn from_str_unchecked(s: &'a str) -> (r: FullyQualifiedName<'a>)
        ensures
            r@ == s@,
    {
        FullyQualifiedName { fqn: s }
    }

    /// The name that an alias goes by where it is itself the target of
    /// another alias.
    pub fn alias(name: &'a CanonicalName) -> (r: FullyQualifiedName<'a>)
        ensures
            r@ == name@,
    {
        FullyQualifiedName { fqn: name.as_str() }
    }

    /// The domain that the name's text stands for, where the text is
    /// accepted as a fully-qualified name.
    pub fn domain(&self) -> (r: Option<Domain>)
        ensures
            r == fqn_domain(self@),
    {
        let chars = chars_of(self.fqn);
        classify(&chars)
    }

    pub fn as_str(&self) -> (text: &'a str)
        ensures
            text@ == self@,
    {
        self.fqn
    }

    pub fn to_owned(&self) -> (r: FullyQualifiedNameBuf)
        ensures
            r@ == self@,
    {
        FullyQualifiedNameBuf { fqn: self.fqn.to_owned() }
    }

    pub fn to_string(&self) -> (text: String)
        ensures
            text@ == self@,
    {
        self.fqn.to_owned()
    }

    /// Whether the name's text is `other`, character by character.
    pub fn eq_str(&self, other: &str) -> (r: bool)
        ensures
            r == (self@ == other@),
    {
        crate::text::same_text(self.fqn, other)
    }
}

impl FullyQualifiedNameBuf {
    /// The name of the module `canonical_name` of `user` under `domain`.
    pub fn new(domain: Domain, canonical_name: &CanonicalName, user: &str) -> (r: Self)
        ensures
            r@ == fqn_text(domain, canonical_name@, user@),
    {
        proof {
            reveal_strlit("/");
            reveal_strlit("@");
            assert("/"@ == seq!['/']);
            assert("@"@ == seq!['@']);
        }
        let fqn = match domain {
            Domain::Github => {
                let mut text = user.to_owned();
                text.append("/");
                text.append(canonical_name.as_str());
                text
            },
            Domain::Builtin => canonical_name.as_str().to_owned(),
            Domain::Other(label) => {
                let mut text = user.to_owned();
                text.append("@");
                text.append(label);
                text.append("/");
                text.append(canonical_name.as_str());
                text
            },
        };
        FullyQualifiedNameBuf { fqn }
    }

    /// The name under which `module` is registered: that of its domain,
    /// its user and the canonical name of its file. Fails where the
    /// module's file has no canonical name.
    pub fn for_module(module: &ResolvedModule) -> (r: Result<Self, Error>)
        ensures
            match r {
                Ok(fqn) => module_fqn(*module) == Some(fqn@),
                Err(e) => module_fqn(*module) is None && e == Error::InvalidModuleName,
            },
    {
        match CanonicalName::try_from(module.name()) {
            Ok(name) => Ok(Self::new(module.domain(), &name, module.user())),
            Err(e) => Err(e),
        }
    }

    /// The same name, borrowed.
    pub fn as_name(&self) -> (r: FullyQualifiedName<'_>)
        ensures
            r@ == self@,
    {
        FullyQualifiedName { fqn: self.fqn.as_str() }
    }

    pub fn as_str(&self) -> (text: &str)
        ensures
            text@ == self@,
    {
        self.fqn.as_str()
    }

    pub fn to_string(&self) -> (text: String)
        ensures
            text@ == self@,
    {
        self.fqn.clone()
    }
}

} // verus!
