//! Resolvers: from a URL to a loader, and from a loader to a resolved
//! module whose content is fetched later.

pub mod builtin;
pub mod gist;
pub mod select;

use crate::error::{Error, InvalidUrl};
use crate::names::file_stem;
use crate::text::same_text;
use crate::url::{ParsedUrl, UrlParts};
use crate::webload::builtin::{candidate, extension, is_builtin_path};
use crate::webload::builtin::{BuiltinModule, Probe};
use crate::webload::gist::{gist_of, raw_url};
use crate::webload::gist::{Gist, GistResolvedModule};
use vstd::prelude::*;

verus! {

/// The authority that a user name belongs to.
#[non_exhaustive]
#[derive(Debug, Clone, Copy, PartialEq, Eq)]
pub enum Domain {
    /// The user is a GitHub account.
    Github,
    /// The module ships with the service and has no user.
    Builtin,
    /// The user belongs to the authority of this label.
    Other(&'static str),
}

/// The strategy that turns a URL into a resolved module and, later, into
/// bytes.
#[derive(Debug, Clone, Copy, PartialEq, Eq)]
pub enum Loader {
    Gist,
    Builtin,
}

/// The loader that claims `url`, if any. An `https` URL goes by its
/// origin: the gist loader claims the two hosts of the gist service at
/// the default port. The scheme `builtin` is the builtin loader's.
pub open spec fn loader_for(url: UrlParts) -> Option<Loader> {
    if url.scheme == "https"@ {
        if url.port == Some(443u16) && (url.host == Some("gist.github.com"@) || url.host == Some(
            "gist.githubusercontent.com"@,
        )) {
            Some(Loader::Gist)
        } else {
            None
        }
    } else if url.scheme == "builtin"@ {
        Some(Loader::Builtin)
    } else {
        None
    }
}

impl Loader {
    /// The loader that claims `url`; `RejectedOrigin` where none does.
    pub fn from_url(url: &ParsedUrl) -> (r: Result<Loader, Error>)
        ensures
            match r {
                Ok(loader) => loader_for(url@) == Some(loader),
                Err(e) => loader_for(url@) is None && e == Error::InvalidUrl(
                    InvalidUrl::RejectedOrigin,
                ),
            },
    {
        if same_text(url.scheme.as_str(), "https") {
            let at_default_port = match url.port {
                Some(port) => port == 443,
                None => false,
            };
            let at_gist_host = match &url.host {
                Some(host) => same_text(host.as_str(), "gist.github.com") || same_text(
                    host.as_str(),
                    "gist.githubusercontent.com",
                ),
                None => false,
            };
            if at_default_port && at_gist_host {
                Ok(Loader::Gist)
            } else {
                Err(Error::InvalidUrl(InvalidUrl::RejectedOrigin))
            }
        } else if same_text(url.scheme.as_str(), "builtin") {
            Ok(Loader::Builtin)
        } else {
            Err(Error::InvalidUrl(InvalidUrl::RejectedOrigin))
        }
    }
}

/// What a loader has resolved, one case per loader.
#[derive(Debug, PartialEq, Eq)]
pub enum Resolved {
    Gist(GistResolvedModule),
    Builtin(BuiltinModule),
}

/// A module that a loader has resolved from a URL: enough to name it and
/// to fetch its bytes, and the bytes once they are there.
#[derive(Debug, PartialEq, Eq)]
pub struct ResolvedModule {
    pub url: ParsedUrl,
    pub resolved: Resolved,
}

/// What has to be done to have the bytes of a resolved module.
#[derive(Debug, PartialEq, Eq)]
pub enum Fetch {
    /// Nothing: the bytes are there.
    Ready,
    /// Fetch this URL from the gist service.
    Gist(String),
    /// Read this file.
    Builtin(String),
}

impl ResolvedModule {
    /// The loader that resolved the module.
    pub open spec fn loader_of(self) -> Loader {
        match self.resolved {
            Resolved::Gist(_) => Loader::Gist,
            Resolved::Builtin(_) => Loader::Builtin,
        }
    }

    /// The domain of the module's user.
    pub open spec fn domain_of(self) -> Domain {
        match self.resolved {
            Resolved::Gist(_) => Domain::Github,
            Resolved::Builtin(_) => Domain::Builtin,
        }
    }

    /// The module's user; none for a builtin module.
    pub open spec fn user_of(self) -> Seq<char> {
        match self.resolved {
            Resolved::Gist(module) => module@.user,
            Resolved::Builtin(_) => Seq::empty(),
        }
    }

    /// The name of the module's file, where it has one: the path in the
    /// gist, or the file stem of the builtin file.
    pub open spec fn name_of(self) -> Option<Seq<char>> {
        match self.resolved {
            Resolved::Gist(module) => Some(module@.file_path),
            Resolved::Builtin(module) => file_stem(module@.full_path),
        }
    }

    /// The module's bytes, once they are there.
    pub open spec fn content_of(self) -> Option<Seq<u8>> {
        match self.resolved {
            Resolved::Gist(module) => module@.content,
            Resolved::Builtin(module) => module@.content,
        }
    }

    /// The URL that the module was resolved from.
    pub fn url(&self) -> (r: &ParsedUrl)
        ensures
            *r == self.url,
    {
        &self.url
    }

    pub fn loader(&self) -> (r: Loader)
        ensures
            r == self.loader_of(),
    {
        match &self.resolved {
            Resolved::Gist(_) => Loader::Gist,
            Resolved::Builtin(_) => Loader::Builtin,
        }
    }

    pub fn domain(&self) -> (r: Domain)
        ensures
            r == self.domain_of(),
    {
        match &self.resolved {
            Resolved::Gist(module) => module.domain(),
            Resolved::Builtin(module) => module.domain(),
        }
    }

    pub fn user(&self) -> (r: &str)
        ensures
            r@ == self.user_of(),
    {
        match &self.resolved {
            Resolved::Gist(module) => module.user(),
            Resolved::Builtin(module) => module.user(),
        }
    }

    pub fn name(&self) -> (r: &str)
        ensures
            self.name_of() == Some(r@),
    {
        match &self.resolved {
            Resolved::Gist(module) => module.name(),
            Resolved::Builtin(module) => module.name(),
        }
    }

    pub fn content(&self) -> (r: Option<&Vec<u8>>)
        ensures
            match r {
                Some(bytes) => self.content_of() == Some(bytes@),
                None => self.content_of() is None,
            },
    {
        match &self.resolved {
            Resolved::Gist(module) => module.content(),
            Resolved::Builtin(module) => module.content(),
        }
    }

    /// What has to be done to have the module's bytes: nothing where they
    /// are there, else the fetch of the module's loader.
    pub fn ensure_content(&self) -> (r: Fetch)
        ensures
            match r {
                Fetch::Ready => self.content_of() is Some,
                Fetch::Gist(url) => {
                    &&& self.content_of() is None
                    &&& self.resolved matches Resolved::Gist(module) && url@ == raw_url(module@)
                },
                Fetch::Builtin(path) => {
                    &&& self.content_of() is None
                    &&& self.resolved matches Resolved::Builtin(module) && path@
                        == module@.full_path
                },
            },
    {
        if self.content().is_some() {
            return Fetch::Ready;
        }
        match &self.resolved {
            Resolved::Gist(module) => Fetch::Gist(module.build_raw_url()),
            Resolved::Builtin(module) => Fetch::Builtin(module.full_path().to_owned()),
        }
    }

    /// Stores the bytes that the fetch of `ensure_content` gave. The
    /// module had none before.
    pub fn set_content(&mut self, content: Vec<u8>)
        requires
            old(self).content_of() is None,
        ensures
            final(self).content_of() == Some(content@),
            final(self).url == old(self).url,
            final(self).loader_of() == old(self).loader_of(),
            final(self).domain_of() == old(self).domain_of(),
            final(self).user_of() == old(self).user_of(),
            final(self).name_of() == old(self).name_of(),
    {
        match &mut self.resolved {
            Resolved::Gist(module) => module.set_content(content),
            Resolved::Builtin(module) => module.set_content(content),
        }
    }
}

/// A resolution that waits for the outside world: the loader has read the
/// URL and knows what to ask for.
#[derive(Debug, PartialEq, Eq)]
pub enum Pending {
    /// Wanted: the document that the code host's API gives at
    /// `gist.build_api_url()`.
    Gist { url: ParsedUrl, gist: Gist },
    /// Wanted: a look at the files `paths`, in this order, up to the first
    /// that is a regular file.
    Builtin { url: ParsedUrl, paths: Vec<String> },
}

/// Why `url` cannot be resolved, if its text alone shows it: no loader
/// claims it, or its loader does not accept the path.
pub open spec fn refusal(url: UrlParts) -> Option<InvalidUrl> {
    match loader_for(url) {
        None => Some(InvalidUrl::RejectedOrigin),
        Some(Loader::Gist) => if gist_of(url.path, url.fragment) is None {
            Some(InvalidUrl::InvalidPath)
        } else {
            None
        },
        Some(Loader::Builtin) => if is_builtin_path(url.path) {
            None
        } else {
            Some(InvalidUrl::InvalidPath)
        },
    }
}

/// Starts the resolution of `url`: picks the loader and lets it read the
/// URL.
pub fn resolve(url: ParsedUrl) -> (r: Result<Pending, Error>)
    ensures
        match r {
            Ok(Pending::Gist { url: kept, gist }) => refusal(url@) is None && loader_for(url@)
                == Some(Loader::Gist) && kept == url && gist_of(url@.path, url@.fragment) == Some(
                gist@,
            ),
            Ok(Pending::Builtin { url: kept, paths }) => refusal(url@) is None && loader_for(url@)
                == Some(Loader::Builtin) && kept == url && paths@.len() == 2 && forall|i: int|
                0 <= i < 2 ==> (#[trigger] paths@[i])@ == candidate(url@.path, extension(i)),
            Err(e) => refusal(url@) matches Some(reason) && e == Error::InvalidUrl(reason),
        },
{
    match Loader::from_url(&url) {
        Err(e) => Err(e),
        Ok(Loader::Gist) => match Gist::new(&url) {
            Ok(gist) => Ok(Pending::Gist { url, gist }),
            Err(e) => Err(e),
        },
        Ok(Loader::Builtin) => match builtin::candidates(&url) {
            Ok(paths) => Ok(Pending::Builtin { url, paths }),
            Err(e) => Err(e),
        },
    }
}

impl ResolvedModule {
    /// Ends the resolution of the gist `gist`, named by `url`, with the
    /// body of the answer that the code host's API gave.
    pub fn from_gist(url: ParsedUrl, gist: Gist, response: &str) -> (r: Result<
        ResolvedModule,
        Error,
    >)
        ensures
            match r {
                Ok(module) => module.url == url && (module.resolved matches Resolved::Gist(found)
                    && gist::resolves_to(gist@, response@, Ok(found))),
                Err(e) => gist::resolves_to(gist@, response@, Err(e)),
            },
    {
        match gist::resolve_gist(gist, response) {
            Ok(found) => Ok(ResolvedModule { url, resolved: Resolved::Gist(found) }),
            Err(e) => Err(e),
        }
    }

    /// Ends the resolution of the builtin module that `url` names with
    /// what looking at its candidate files gave.
    pub fn from_builtin(url: ParsedUrl, probes: &Vec<Probe>) -> (r: Result<ResolvedModule, Error>)
        ensures
            match r {
                Ok(module) => module.url == url && (module.resolved matches Resolved::Builtin(
                    found,
                ) && builtin::resolves_to(url@.path, probes@, Ok(found))),
                Err(e) => builtin::resolves_to(url@.path, probes@, Err(e)),
            },
    {
        match builtin::resolve_module(&url, probes) {
            Ok(found) => Ok(ResolvedModule { url, resolved: Resolved::Builtin(found) }),
            Err(e) => Err(e),
        }
    }
}

} // verus!
