//! The gist loader: URLs of gists, the choice of a file among those of a
//! gist, and the handle that is enough to fetch the file later.

use crate::error::{Error, InvalidUrl, WebError};
use crate::json::{get, json_value, member, Json};
use crate::text::{word_bounds, words};
use crate::text::{chars_of, hex_digit, lower, split_n_bounds, string_of, trim_bounds};
use crate::text::{ascii_lower, is_hex_digit, split_n, trim_char};
use crate::url::{clone_opt, opt_text, url_parts, ParsedUrl, UrlParts};
use crate::webload::select::{sole, sole_index};
use crate::webload::Domain;
use vstd::prelude::*;
use vstd::string::{StrSliceExecFns, StringExecFns};
use vstd::utf8::{decode_utf8, encode_utf8, valid_utf8};

verus! {

/// The file that holds the credentials for the code host.
pub const CREDENTIALS_FILE: &'static str = "github.token";

/// How the client names itself to the code host.
pub const USER_AGENT: &'static str = "https://github.com/sorcio/rusto";

/// The kind of answer that is asked of the code host's API.
pub const API_ACCEPT: &'static str = "application/vnd.github+json";

/// The version of the code host's API that is asked for.
pub const API_VERSION: &'static str = "2022-11-28";

/// The kind of answer that is asked for the bytes of a file.
pub const RAW_ACCEPT: &'static str = "application/vnd.github.raw";

/// A text of hexadecimal digits, at least one.
pub open spec fn is_hex_text(s: Seq<char>) -> bool {
    s.len() > 0 && forall|i: int| 0 <= i < s.len() ==> is_hex_digit(#[trigger] s[i])
}

/// Whether `chars[from..to]` is a text of hexadecimal digits.
fn is_hex_range(chars: &[char], from: usize, to: usize) -> (r: bool)
    requires
        from <= to <= chars@.len(),
    ensures
        r == is_hex_text(chars@.subrange(from as int, to as int)),
{
    let ghost s = chars@.subrange(from as int, to as int);
    if from == to {
        return false;
    }
    let mut i: usize = from;
    while i < to
        invariant
            from <= i <= to <= chars@.len(),
            s == chars@.subrange(from as int, to as int),
            forall|j: int| 0 <= j < i - from ==> is_hex_digit(#[trigger] s[j]),
        decreases to - i,
    {
        if !hex_digit(chars[i]) {
            proof {
                assert(s[i - from] == chars@[i as int]);
            }
            return false;
        }
        proof {
            assert(s[i - from] == chars@[i as int]);
        }
        i += 1;
    }
    true
}

/// Whether `s` is a text of hexadecimal digits, at least one.
pub fn is_hex_string(s: &str) -> (r: bool)
    ensures
        r == is_hex_text(s@),
{
    let chars = chars_of(s);
    proof {
        assert(chars@.subrange(0, chars@.len() as int) == chars@);
    }
    is_hex_range(&chars, 0, chars.len())
}

/// What the URL of a gist holds.
#[derive(Debug, PartialEq, Eq)]
pub struct Gist {
    user: String,
    gist_id: String,
    blob: Option<String>,
    commit: Option<String>,
    file_path: Option<String>,
    fragment: Option<String>,
}

/// A `Gist` as plain values.
pub struct GistParts {
    pub user: Seq<char>,
    pub gist_id: Seq<char>,
    pub blob: Option<Seq<char>>,
    pub commit: Option<Seq<char>>,
    pub file_path: Option<Seq<char>>,
    pub fragment: Option<Seq<char>>,
}

impl View for Gist {
    type V = GistParts;

    closed spec fn view(&self) -> GistParts {
        GistParts {
            user: self.user@,
            gist_id: self.gist_id@,
            blob: opt_text(self.blob),
            commit: opt_text(self.commit),
            file_path: opt_text(self.file_path),
            fragment: opt_text(self.fragment),
        }
    }
}

/// The gist that a URL with this path and fragment names, if any. The
/// path, without the `/` at its ends, has one of three shapes:
/// `<user>/<gist_id>/raw/<blob>/<file_path>`, `<user>/<gist_id>` and
/// `<user>/<gist_id>/<commit>`. The identifiers are hexadecimal, the file
/// path is not empty, and only the last two shapes keep the fragment.
pub open spec fn gist_of(path: Seq<char>, fragment: Option<Seq<char>>) -> Option<GistParts> {
    let seg = split_n(trim_char(path, '/'), '/', 5);
    if seg.len() == 5 && seg[2] == "raw"@ {
        if is_hex_text(seg[1]) && is_hex_text(seg[3]) && seg[4].len() > 0 {
            Some(
                GistParts {
                    user: seg[0],
                    gist_id: seg[1],
                    blob: Some(seg[3]),
                    commit: None,
                    file_path: Some(seg[4]),
                    fragment: None,
                },
            )
        } else {
            None
        }
    } else if seg.len() == 2 {
        if is_hex_text(seg[1]) {
            Some(
                GistParts {
                    user: seg[0],
                    gist_id: seg[1],
                    blob: None,
                    commit: None,
                    file_path: None,
                    fragment,
                },
            )
        } else {
            None
        }
    } else if seg.len() == 3 {
        if is_hex_text(seg[1]) && is_hex_text(seg[2]) {
            Some(
                GistParts {
                    user: seg[0],
                    gist_id: seg[1],
                    blob: None,
                    commit: Some(seg[2]),
                    file_path: None,
                    fragment,
                },
            )
        } else {
            None
        }
    } else {
        None
    }
}

/// A gist that a URL names has a blob exactly where it has a file path,
/// and then it has no commit; its identifiers are hexadecimal.
pub proof fn lemma_gist_shape(path: Seq<char>, fragment: Option<Seq<char>>)
    ensures
        gist_of(path, fragment) matches Some(gist) ==> {
            &&& is_hex_text(gist.gist_id)
            &&& gist.blob is Some <==> gist.file_path is Some
            &&& gist.blob is Some ==> gist.commit is None && gist.fragment is None
            &&& gist.blob matches Some(blob) ==> is_hex_text(blob)
            &&& gist.commit matches Some(commit) ==> is_hex_text(commit)
            &&& gist.file_path matches Some(file) ==> file.len() > 0
        },
{
}

impl Gist {
    /// Reads the gist that `url` names from its path and fragment.
    pub fn new(url: &ParsedUrl) -> (r: Result<Gist, Error>)
        ensures
            match r {
                Ok(gist) => gist_of(url@.path, url@.fragment) == Some(gist@),
                Err(e) => gist_of(url@.path, url@.fragment) is None && e == Error::InvalidUrl(
                    InvalidUrl::InvalidPath,
                ),
            },
    {
        Self::parse(url)
    }

    /// Reads the gist that `url` names from its path and fragment.
    pub fn parse(url: &ParsedUrl) -> (r: Result<Gist, Error>)
        ensures
            match r {
                Ok(gist) => gist_of(url@.path, url@.fragment) == Some(gist@),
                Err(e) => gist_of(url@.path, url@.fragment) is None && e == Error::InvalidUrl(
                    InvalidUrl::InvalidPath,
                ),
            },
    {
        let chars = chars_of(url.path.as_str());
        let (from, to) = trim_bounds(&chars, '/');
        let seg = split_n_bounds(&chars, from, to, '/', 5);
        let ghost pieces = split_n(trim_char(url@.path, '/'), '/', 5);
        proof {
            reveal_strlit("raw");
        }
        if seg.len() == 5 {
            let (a, b) = seg[2];
            let is_raw = b - a == 3 && chars[a] == 'r' && chars[a + 1] == 'a' && chars[a + 2]
                == 'w';
            proof {
                let third = chars@.subrange(a as int, b as int);
                assert(third == pieces[2]);
                assert("raw"@.len() == 3);
                assert("raw"@[0] == 'r' && "raw"@[1] == 'a' && "raw"@[2] == 'w');
                assert(third.len() == b - a);
                if is_raw {
                    assert(third =~= "raw"@);
                } else if third == "raw"@ {
                    assert(third[0] == chars@[a as int]);
                    assert(third[1] == chars@[a + 1]);
                    assert(third[2] == chars@[a + 2]);
                }
            }
            if !is_raw {
                return Err(Error::InvalidUrl(InvalidUrl::InvalidPath));
            }
            if !is_hex_range(&chars, seg[1].0, seg[1].1) || !is_hex_range(
                &chars,
                seg[3].0,
                seg[3].1,
            ) || seg[4].0 == seg[4].1 {
                return Err(Error::InvalidUrl(InvalidUrl::InvalidPath));
            }
            Ok(
                Gist {
                    user: string_of(&chars, seg[0].0, seg[0].1),
                    gist_id: string_of(&chars, seg[1].0, seg[1].1),
                    blob: Some(string_of(&chars, seg[3].0, seg[3].1)),
                    commit: None,
                    file_path: Some(string_of(&chars, seg[4].0, seg[4].1)),
                    fragment: None,
                },
            )
        } else if seg.len() == 2 {
            if !is_hex_range(&chars, seg[1].0, seg[1].1) {
                return Err(Error::InvalidUrl(InvalidUrl::InvalidPath));
            }
            Ok(
                Gist {
                    user: string_of(&chars, seg[0].0, seg[0].1),
                    gist_id: string_of(&chars, seg[1].0, seg[1].1),
                    blob: None,
                    commit: None,
                    file_path: None,
                    fragment: clone_opt(&url.fragment),
                },
            )
        } else if seg.len() == 3 {
            if !is_hex_range(&chars, seg[1].0, seg[1].1) || !is_hex_range(
                &chars,
                seg[2].0,
                seg[2].1,
            ) {
                return Err(Error::InvalidUrl(InvalidUrl::InvalidPath));
            }
            Ok(
                Gist {
                    user: string_of(&chars, seg[0].0, seg[0].1),
                    gist_id: string_of(&chars, seg[1].0, seg[1].1),
                    blob: None,
                    commit: Some(string_of(&chars, seg[2].0, seg[2].1)),
                    file_path: None,
                    fragment: clone_opt(&url.fragment),
                },
            )
        } else {
            Err(Error::InvalidUrl(InvalidUrl::InvalidPath))
        }
    }
}

/// The URL of the code host's API that describes the gist, at the commit
/// where the gist names one.
pub open spec fn api_url(gist: GistParts) -> Seq<char> {
    match gist.commit {
        Some(commit) => "https://api.github.com/gists/"@ + gist.gist_id + "/"@ + commit,
        None => "https://api.github.com/gists/"@ + gist.gist_id,
    }
}

/// The file name hint of a fragment: what follows `file-`.
pub open spec fn hint_of(fragment: Option<Seq<char>>) -> Option<Seq<char>> {
    match fragment {
        Some(f) => if f.len() >= 5 && f.take(5) == "file-"@ {
            Some(f.skip(5))
        } else {
            None
        },
        None => None,
    }
}

/// Whether a character of a hint stands for a character of a file name:
/// the same letter in either case, or `-` for `.`.
pub open spec fn hint_char_matches(h: char, c: char) -> bool {
    (ascii_lower(h) == '-' && ascii_lower(c) == '.') || ascii_lower(h) == ascii_lower(c)
}

/// Whether a hint stands for a file name, character by character.
pub open spec fn hint_matches(hint: Seq<char>, name: Seq<char>) -> bool {
    hint.len() == name.len() && forall|i: int|
        0 <= i < hint.len() ==> hint_char_matches(#[trigger] hint[i], name[i])
}

/// Whether two gists are the same file at the same blob.
pub open spec fn same_blob(gist: GistParts, other: Option<GistParts>) -> bool {
    match other {
        Some(o) => gist.user == o.user && gist.gist_id == o.gist_id && gist.blob is Some
            && gist.blob == o.blob,
        None => false,
    }
}

/// A borrowed view of an optional string.
fn opt_str(s: &Option<String>) -> (r: Option<&str>)
    ensures
        match r {
            Some(t) => opt_text(*s) == Some(t@),
            None => opt_text(*s) is None,
        },
{
    match s {
        Some(t) => Some(t.as_str()),
        None => None,
    }
}

impl Gist {
    /// The URL of the code host's API that describes this gist.
    pub fn build_api_url(&self) -> (url: String)
        ensures
            url@ == api_url(self@),
    {
        let mut url = "https://api.github.com/gists/".to_owned();
        url.append(self.gist_id.as_str());
        match &self.commit {
            Some(commit) => {
                url.append("/");
                url.append(commit.as_str());
            },
            None => {},
        }
        url
    }

    pub fn user(&self) -> (r: &str)
        ensures
            r@ == self@.user,
    {
        self.user.as_str()
    }

    pub fn gist_id(&self) -> (r: &str)
        ensures
            r@ == self@.gist_id,
    {
        self.gist_id.as_str()
    }

    pub fn blob(&self) -> (r: Option<&str>)
        ensures
            match r {
                Some(t) => self@.blob == Some(t@),
                None => self@.blob is None,
            },
    {
        opt_str(&self.blob)
    }

    pub fn commit(&self) -> (r: Option<&str>)
        ensures
            match r {
                Some(t) => self@.commit == Some(t@),
                None => self@.commit is None,
            },
    {
        opt_str(&self.commit)
    }

    pub fn file_path(&self) -> (r: Option<&str>)
        ensures
            match r {
                Some(t) => self@.file_path == Some(t@),
                None => self@.file_path is None,
            },
    {
        opt_str(&self.file_path)
    }

    /// The hint at a file name that the URL's fragment gives: what follows
    /// `file-` in it.
    pub fn file_name_hint(&self) -> (r: Option<GistFileNameHint>)
        ensures
            match r {
                Some(hint) => hint_of(self@.fragment) == Some(hint@),
                None => hint_of(self@.fragment) is None,
            },
    {
        match &self.fragment {
            None => None,
            Some(fragment) => {
                let chars = chars_of(fragment.as_str());
                proof {
                    reveal_strlit("file-");
                }
                if chars.len() >= 5 && chars[0] == 'f' && chars[1] == 'i' && chars[2] == 'l'
                    && chars[3] == 'e' && chars[4] == '-' {
                    proof {
                        assert(chars@.take(5) =~= "file-"@);
                        assert(chars@.subrange(5, chars@.len() as int) == chars@.skip(5));
                    }
                    Some(GistFileNameHint { hint: string_of(&chars, 5, chars.len()) })
                } else {
                    proof {
                        if chars@.len() >= 5 && chars@.take(5) == "file-"@ {
                            let t = chars@.take(5);
                            assert(t[0] == 'f' && t[1] == 'i' && t[2] == 'l' && t[3] == 'e' && t[4]
                                == '-');
                        }
                    }
                    None
                }
            },
        }
    }

    /// Whether `url` names the same file of the same gist at the same
    /// blob as this gist, which then names a blob.
    pub fn eq_with_blob(&self, url: &ParsedUrl) -> (r: bool)
        ensures
            r == same_blob(self@, gist_of(url@.path, url@.fragment)),
    {
        match Gist::parse(url) {
            Ok(other) => {
                let same = match (&self.blob, &other.blob) {
                    (Some(a), Some(b)) => *a == *b,
                    _ => false,
                };
                self.user == other.user && self.gist_id == other.gist_id && same
            },
            Err(_) => false,
        }
    }
}

/// A hint at the name of a file, as the fragment of a gist's URL gives it.
#[derive(Debug, PartialEq, Eq)]
pub struct GistFileNameHint {
    hint: String,
}

impl View for GistFileNameHint {
    type V = Seq<char>;

    closed spec fn view(&self) -> Seq<char> {
        self.hint@
    }
}

impl GistFileNameHint {
    /// Whether the hint stands for the file name `other`: letters are
    /// compared without regard to case, and `-` in the hint also stands
    /// for `.` in the name.
    pub fn matches(&self, other: &str) -> (r: bool)
        ensures
            r == hint_matches(self@, other@),
    {
        let hint = chars_of(self.hint.as_str());
        let name = chars_of(other);
        if hint.len() != name.len() {
            return false;
        }
        let mut i: usize = 0;
        while i < hint.len()
            invariant
                hint@ == self@,
                name@ == other@,
                hint@.len() == name@.len(),
                i <= hint@.len(),
                forall|j: int| 0 <= j < i ==> hint_char_matches(#[trigger] hint@[j], name@[j]),
            decreases hint@.len() - i,
        {
            let h = lower(hint[i]);
            let c = lower(name[i]);
            if !((h == '-' && c == '.') || h == c) {
                proof {
                    assert(!hint_char_matches(hint@[i as int], name@[i as int]));
                }
                return false;
            }
            i += 1;
        }
        true
    }
}

/// Whether `name` ends with `suffix`.
pub open spec fn ends_with(name: Seq<char>, suffix: Seq<char>) -> bool {
    name.len() >= suffix.len() && name.skip(name.len() - suffix.len()) == suffix
}

/// Whether `name` ends with `suffix`.
fn has_suffix(name: &str, suffix: &str) -> (r: bool)
    ensures
        r == ends_with(name@, suffix@),
{
    let a = chars_of(name);
    let b = chars_of(suffix);
    if a.len() < b.len() {
        return false;
    }
    let from = a.len() - b.len();
    let tail = string_of(&a, from, a.len());
    proof {
        assert(a@.subrange(from as int, a@.len() as int) == a@.skip(from as int));
    }
    crate::text::same_text(tail.as_str(), suffix)
}

/// Whether a file of a gist declares the language `WebAssembly`.
pub open spec fn declares_wasm(file: Json) -> bool {
    match file.object() {
        Some(fields) => match member(fields, "language"@) {
            Some(language) => language.text() == Some("WebAssembly"@),
            None => false,
        },
        None => false,
    }
}

/// Whether a file of a gist declares the language `WebAssembly`.
fn is_declared_wasm(file: &Json) -> (r: bool)
    ensures
        r == declares_wasm(*file),
{
    match file.as_object() {
        Some(fields) => match get(fields, "language") {
            Some(language) => match language.as_str() {
                Some(text) => crate::text::same_text(text, "WebAssembly"),
                None => false,
            },
            None => false,
        },
        None => false,
    }
}

/// For each file, whether the hint stands for its name.
pub open spec fn hinted(files: Seq<(String, Json)>, hint: Seq<char>) -> Seq<bool> {
    Seq::new(files.len(), |i: int| hint_matches(hint, files[i].0@))
}

/// For each file, whether its name ends with `suffix`.
pub open spec fn suffixed(files: Seq<(String, Json)>, suffix: Seq<char>) -> Seq<bool> {
    Seq::new(files.len(), |i: int| ends_with(files[i].0@, suffix))
}

/// For each file, whether it declares the language `WebAssembly`.
pub open spec fn declared(files: Seq<(String, Json)>) -> Seq<bool> {
    Seq::new(files.len(), |i: int| declares_wasm(files[i].1))
}

/// The file of a gist that is taken where the URL names none: the only
/// file; else the only one that the hint stands for; else the only one
/// named `.wasm`; else the only one named `.wat`; else the only one that
/// declares the language `WebAssembly`.
pub open spec fn guessed_index(files: Seq<(String, Json)>, hint: Option<Seq<char>>) -> Option<
    int,
> {
    if files.len() == 1 {
        Some(0)
    } else if hint is Some && sole(hinted(files, hint->0)) is Some {
        sole(hinted(files, hint->0))
    } else if sole(suffixed(files, ".wasm"@)) is Some {
        sole(suffixed(files, ".wasm"@))
    } else if sole(suffixed(files, ".wat"@)) is Some {
        sole(suffixed(files, ".wat"@))
    } else {
        sole(declared(files))
    }
}

/// The name and the fields of the file that `guessed_index` takes; none
/// where it takes no file, or one that is no JSON object.
pub open spec fn guessed(files: Seq<(String, Json)>, hint: Option<Seq<char>>) -> Option<
    (Seq<char>, Seq<(String, Json)>),
> {
    match guessed_index(files, hint) {
        Some(i) => match files[i].1.object() {
            Some(fields) => Some((files[i].0@, fields)),
            None => None,
        },
        None => None,
    }
}

/// The position of the only file that the hint stands for.
fn sole_hinted(files: &Vec<(String, Json)>, hint: &GistFileNameHint) -> (r: Option<usize>)
    ensures
        match r {
            Some(i) => sole(hinted(files@, hint@)) == Some(i as int) && i < files@.len(),
            None => sole(hinted(files@, hint@)) is None,
        },
{
    let mut flags: Vec<bool> = Vec::new();
    let mut i: usize = 0;
    while i < files.len()
        invariant
            i <= files@.len(),
            flags@.len() == i,
            forall|j: int| 0 <= j < i ==> flags@[j] == hint_matches(hint@, files@[j].0@),
        decreases files@.len() - i,
    {
        flags.push(hint.matches(files[i].0.as_str()));
        i += 1;
    }
    proof {
        assert(flags@ =~= hinted(files@, hint@));
    }
    sole_index(&flags)
}

/// The position of the only file whose name ends with `suffix`.
fn sole_suffixed(files: &Vec<(String, Json)>, suffix: &str) -> (r: Option<usize>)
    ensures
        match r {
            Some(i) => sole(suffixed(files@, suffix@)) == Some(i as int) && i < files@.len(),
            None => sole(suffixed(files@, suffix@)) is None,
        },
{
    let mut flags: Vec<bool> = Vec::new();
    let mut i: usize = 0;
    while i < files.len()
        invariant
            i <= files@.len(),
            flags@.len() == i,
            forall|j: int| 0 <= j < i ==> flags@[j] == ends_with(files@[j].0@, suffix@),
        decreases files@.len() - i,
    {
        flags.push(has_suffix(files[i].0.as_str(), suffix));
        i += 1;
    }
    proof {
        assert(flags@ =~= suffixed(files@, suffix@));
    }
    sole_index(&flags)
}

/// The position of the only file that declares the language `WebAssembly`.
fn sole_declared(files: &Vec<(String, Json)>) -> (r: Option<usize>)
    ensures
        match r {
            Some(i) => sole(declared(files@)) == Some(i as int) && i < files@.len(),
            None => sole(declared(files@)) is None,
        },
{
    let mut flags: Vec<bool> = Vec::new();
    let mut i: usize = 0;
    while i < files.len()
        invariant
            i <= files@.len(),
            flags@.len() == i,
            forall|j: int| 0 <= j < i ==> flags@[j] == declares_wasm(files@[j].1),
        decreases files@.len() - i,
    {
        flags.push(is_declared_wasm(&files[i].1));
        i += 1;
    }
    proof {
        assert(flags@ =~= declared(files@));
    }
    sole_index(&flags)
}

/// The position of the file that is taken where the URL names none.
fn guess_index(files: &Vec<(String, Json)>, gist: &Gist) -> (r: Option<usize>)
    ensures
        match r {
            Some(i) => guessed_index(files@, hint_of(gist@.fragment)) == Some(i as int) && i
                < files@.len(),
            None => guessed_index(files@, hint_of(gist@.fragment)) is None,
        },
{
    if files.len() == 1 {
        return Some(0);
    }
    if let Some(hint) = gist.file_name_hint() {
        if let Some(i) = sole_hinted(files, &hint) {
            return Some(i);
        }
    }
    if let Some(i) = sole_suffixed(files, ".wasm") {
        return Some(i);
    }
    if let Some(i) = sole_suffixed(files, ".wat") {
        return Some(i);
    }
    sole_declared(files)
}

/// Chooses the file of a gist whose URL names none, and hands back its
/// name and its fields.
pub fn guess_gist_file_name<'a>(files: &'a Vec<(String, Json)>, gist: &Gist) -> (r: Option<
    (String, &'a Vec<(String, Json)>),
>)
    ensures
        match r {
            Some((name, fields)) => guessed(files@, hint_of(gist@.fragment)) == Some(
                (name@, fields@),
            ),
            None => guessed(files@, hint_of(gist@.fragment)) is None,
        },
{
    match guess_index(files, gist) {
        Some(i) => match files[i].1.as_object() {
            Some(fields) => Some((files[i].0.clone(), fields)),
            None => None,
        },
        None => None,
    }
}

/// A file of a gist, resolved: enough to fetch its bytes later, and the
/// bytes themselves once they are there.
#[derive(Debug, PartialEq, Eq)]
pub struct GistResolvedModule {
    user: String,
    gist_id: String,
    file_path: String,
    blob: String,
    content: Option<Vec<u8>>,
}

/// A `GistResolvedModule` as plain values.
pub struct ResolvedGist {
    pub user: Seq<char>,
    pub gist_id: Seq<char>,
    pub file_path: Seq<char>,
    pub blob: Seq<char>,
    pub content: Option<Seq<u8>>,
}

/// The view of optional bytes.
pub open spec fn opt_bytes(bytes: Option<Vec<u8>>) -> Option<Seq<u8>> {
    match bytes {
        Some(b) => Some(b@),
        None => None,
    }
}

impl View for GistResolvedModule {
    type V = ResolvedGist;

    closed spec fn view(&self) -> ResolvedGist {
        ResolvedGist {
            user: self.user@,
            gist_id: self.gist_id@,
            file_path: self.file_path@,
            blob: self.blob@,
            content: opt_bytes(self.content),
        }
    }
}

/// The URL from which the bytes of a resolved file are fetched. It is put
/// together from the parts of the handle, never taken over from a
/// document.
pub open spec fn raw_url(module: ResolvedGist) -> Seq<char> {
    "https://gist.githubusercontent.com/"@ + module.user + "/"@ + module.gist_id + "/raw/"@
        + module.blob + "/"@ + module.file_path
}

impl GistResolvedModule {
    /// The file `file_path` at `blob` of the gist `gist`, with its bytes
    /// where they are known already.
    pub fn new(gist: Gist, file_path: String, blob: String, content: Option<Vec<u8>>) -> (r: Self)
        ensures
            r@ == (ResolvedGist {
                user: gist@.user,
                gist_id: gist@.gist_id,
                file_path: file_path@,
                blob: blob@,
                content: opt_bytes(content),
            }),
    {
        GistResolvedModule {
            user: gist.user().to_owned(),
            gist_id: gist.gist_id().to_owned(),
            file_path,
            blob,
            content,
        }
    }

    /// The URL from which the bytes of the file are fetched.
    pub fn build_raw_url(&self) -> (url: String)
        ensures
            url@ == raw_url(self@),
    {
        let mut url = "https://gist.githubusercontent.com/".to_owned();
        url.append(self.user.as_str());
        url.append("/");
        url.append(self.gist_id.as_str());
        url.append("/raw/");
        url.append(self.blob.as_str());
        url.append("/");
        url.append(self.file_path.as_str());
        url
    }

    /// Stores the bytes of the file, which were not there before.
    pub fn set_content(&mut self, content: Vec<u8>)
        requires
            old(self)@.content is None,
        ensures
            final(self)@ == (ResolvedGist { content: Some(content@), ..old(self)@ }),
    {
        self.content = Some(content);
    }

    pub fn domain(&self) -> (r: Domain)
        ensures
            r == Domain::Github,
    {
        Domain::Github
    }

    pub fn user(&self) -> (r: &str)
        ensures
            r@ == self@.user,
    {
        self.user.as_str()
    }

    /// The name of the module's file: its path in the gist.
    pub fn name(&self) -> (r: &str)
        ensures
            r@ == self@.file_path,
    {
        self.file_path.as_str()
    }

    pub fn content(&self) -> (r: Option<&Vec<u8>>)
        ensures
            match r {
                Some(bytes) => self@.content == Some(bytes@),
                None => self@.content is None,
            },
    {
        self.content.as_ref()
    }

    /// Takes the bytes out of the handle, which then has none.
    pub fn take_content(&mut self) -> (r: Option<Vec<u8>>)
        ensures
            opt_bytes(r) == old(self)@.content,
            final(self)@ == (ResolvedGist { content: None, ..old(self)@ }),
    {
        self.content.take()
    }
}

/// The name and the fields of the file of the gist that the document
/// `json` describes: the file that the URL names, or else the one that
/// `guessed` takes.
pub open spec fn chosen_file(json: Json, gist: GistParts) -> Option<
    (Seq<char>, Seq<(String, Json)>),
> {
    match json.object() {
        Some(top) => match member(top, "files"@) {
            Some(listing) => match listing.object() {
                Some(files) => match gist.file_path {
                    Some(path) => match member(files, path) {
                        Some(file) => match file.object() {
                            Some(fields) => Some((path, fields)),
                            None => None,
                        },
                        None => None,
                    },
                    None => guessed(files, hint_of(gist.fragment)),
                },
                None => None,
            },
            None => None,
        },
        None => None,
    }
}

/// The bytes of a file that its description carries: the UTF-8 form of
/// its `content`, unless the description is marked `truncated`.
pub open spec fn inline_content(fields: Seq<(String, Json)>) -> Option<Seq<u8>> {
    let truncated = match member(fields, "truncated"@) {
        Some(flag) => flag.boolean() == Some(true),
        None => false,
    };
    if truncated {
        None
    } else {
        match member(fields, "content"@) {
            Some(content) => match content.text() {
                Some(text) => Some(encode_utf8(text)),
                None => None,
            },
            None => None,
        }
    }
}

/// The text of the `raw_url` of a file's description.
pub open spec fn raw_url_text(fields: Seq<(String, Json)>) -> Option<Seq<char>> {
    match member(fields, "raw_url"@) {
        Some(url) => url.text(),
        None => None,
    }
}

/// The handle for the file `name` of `gist`, given the bytes that the
/// description carries and the raw URL that it gives.
///
/// A gist whose URL names a blob keeps that blob. Where the raw URL names
/// the same user, gist and blob, the description is of that blob and its
/// bytes are taken; else the description is set aside and the file is the
/// one of the URL, to be fetched. A gist whose URL names no blob takes
/// the blob of the raw URL, which must be the raw URL of a gist.
pub open spec fn resolved_with(
    gist: GistParts,
    name: Seq<char>,
    content: Option<Seq<u8>>,
    raw: UrlParts,
) -> Option<ResolvedGist> {
    match gist.blob {
        Some(blob) => if same_blob(gist, gist_of(raw.path, raw.fragment)) {
            Some(
                ResolvedGist {
                    user: gist.user,
                    gist_id: gist.gist_id,
                    file_path: name,
                    blob,
                    content,
                },
            )
        } else {
            match gist.file_path {
                Some(path) => Some(
                    ResolvedGist {
                        user: gist.user,
                        gist_id: gist.gist_id,
                        file_path: path,
                        blob,
                        content: None,
                    },
                ),
                None => None,
            }
        },
        None => match gist_of(raw.path, raw.fragment) {
            Some(parsed) => match parsed.blob {
                Some(blob) => Some(
                    ResolvedGist {
                        user: gist.user,
                        gist_id: gist.gist_id,
                        file_path: name,
                        blob,
                        content,
                    },
                ),
                None => None,
            },
            None => None,
        },
    }
}

/// The handle that the document `json` gives for `gist`.
pub open spec fn extracted(json: Json, gist: GistParts) -> Option<ResolvedGist> {
    match chosen_file(json, gist) {
        Some((name, fields)) => match raw_url_text(fields) {
            Some(text) => match url_parts(text) {
                Some(raw) => resolved_with(gist, name, inline_content(fields), raw),
                None => None,
            },
            None => None,
        },
        None => None,
    }
}

/// The view of an optional handle.
pub open spec fn opt_resolved(module: Option<GistResolvedModule>) -> Option<ResolvedGist> {
    match module {
        Some(m) => Some(m@),
        None => None,
    }
}

/// The UTF-8 bytes of an optional text.
fn bytes_of(text: Option<&str>) -> (r: Option<Vec<u8>>)
    ensures
        opt_bytes(r) == match text {
            Some(t) => Some(encode_utf8(t@)),
            None => None,
        },
{
    match text {
        Some(t) => Some(t.as_bytes_vec()),
        None => None,
    }
}

/// The handle for the file `name` of `gist`, given the text that the
/// file's description carries and the raw URL that it gives.
pub fn resolve_with_raw_url(
    gist: Gist,
    name: String,
    content: Option<&str>,
    raw: &ParsedUrl,
) -> (r: Option<GistResolvedModule>)
    ensures
        opt_resolved(r) == resolved_with(
            gist@,
            name@,
            match content {
                Some(t) => Some(encode_utf8(t@)),
                None => None,
            },
            raw@,
        ),
{
    match &gist.blob {
        Some(blob) => {
            let blob = blob.clone();
            if gist.eq_with_blob(raw) {
                Some(GistResolvedModule::new(gist, name, blob, bytes_of(content)))
            } else {
                match &gist.file_path {
                    Some(path) => {
                        let path = path.clone();
                        Some(GistResolvedModule::new(gist, path, blob, None))
                    },
                    None => None,
                }
            }
        },
        None => match Gist::new(raw) {
            Ok(parsed) => match parsed.blob {
                Some(blob) => Some(GistResolvedModule::new(gist, name, blob, bytes_of(content))),
                None => None,
            },
            Err(_) => None,
        },
    }
}

/// The text that a file's description carries, unless it is marked as
/// truncated.
fn inline_text<'a>(fields: &'a Vec<(String, Json)>) -> (r: Option<&'a str>)
    ensures
        inline_content(fields@) == match r {
            Some(t) => Some(encode_utf8(t@)),
            None => None,
        },
{
    let truncated = match get(fields, "truncated") {
        Some(flag) => match flag.as_bool() {
            Some(b) => b,
            None => false,
        },
        None => false,
    };
    if truncated {
        None
    } else {
        match get(fields, "content") {
            Some(content) => content.as_str(),
            None => None,
        }
    }
}

/// Finds in the document that describes a gist the file that `gist`
/// names or, where it names none, the one that `guess_gist_file_name`
/// takes, and makes the handle for it.
pub fn extract_gist_from_json(json: &Json, gist: Gist) -> (r: Option<GistResolvedModule>)
    ensures
        opt_resolved(r) == extracted(*json, gist@),
{
    let top = match json.as_object() {
        Some(top) => top,
        None => { return None; },
    };
    let files = match get(top, "files") {
        Some(listing) => match listing.as_object() {
            Some(files) => files,
            None => { return None; },
        },
        None => { return None; },
    };
    let (name, fields) = match gist.file_path() {
        Some(path) => match get(files, path) {
            Some(file) => match file.as_object() {
                Some(fields) => (path.to_owned(), fields),
                None => { return None; },
            },
            None => { return None; },
        },
        None => match guess_gist_file_name(files, &gist) {
            Some(found) => found,
            None => { return None; },
        },
    };
    let content = inline_text(fields);
    let text = match get(fields, "raw_url") {
        Some(url) => match url.as_str() {
            Some(text) => text,
            None => { return None; },
        },
        None => { return None; },
    };
    match ParsedUrl::parse(text) {
        Ok(raw) => resolve_with_raw_url(gist, name, content, &raw),
        Err(_) => None,
    }
}

/// How a request to the code host ended.
#[derive(Debug, PartialEq, Eq)]
pub enum HttpAnswer {
    /// The client could not be set up, or the request could not be put
    /// together; the client's message.
    NotSent(String),
    /// The request failed on its way, or the host answered with an error
    /// status; the client's message.
    Failed(String),
    /// The body of the answer could not be read; the client's message.
    Unreadable(String),
    /// The body of the answer.
    Body(Vec<u8>),
}

/// The bytes that a request for the content of a file gave, or the error
/// that the request ended with. A request that failed on its way, or
/// whose answer could not be read to its end, may succeed when it is made
/// again; one that could not be sent will not.
pub fn content_of_answer(answer: HttpAnswer) -> (r: Result<Vec<u8>, Error>)
    ensures
        match answer {
            HttpAnswer::Body(bytes) => r matches Ok(content) && content@ == bytes@,
            HttpAnswer::NotSent(message) => r matches Err(
                Error::CannotFetch(WebError::ReqwestError(text)),
            ) && text@ == message@,
            HttpAnswer::Failed(message) => r matches Err(
                Error::CannotFetch(WebError::TemporaryFailure(text)),
            ) && text@ == message@,
            HttpAnswer::Unreadable(message) => r matches Err(
                Error::CannotFetch(WebError::TemporaryFailure(text)),
            ) && text@ == message@,
        },
{
    match answer {
        HttpAnswer::Body(bytes) => Ok(bytes),
        HttpAnswer::NotSent(message) => Err(Error::CannotFetch(WebError::ReqwestError(message))),
        HttpAnswer::Failed(message) => Err(Error::CannotFetch(WebError::TemporaryFailure(message))),
        HttpAnswer::Unreadable(message) => Err(
            Error::CannotFetch(WebError::TemporaryFailure(message)),
        ),
    }
}

/// The text that a request for the description of a gist gave, or the
/// error that the request ended with. Here an answer that could not be
/// read counts as an error of the client, and so does a body that is no
/// text.
pub fn document_of_answer(answer: HttpAnswer) -> (r: Result<String, Error>)
    ensures
        match answer {
            HttpAnswer::Body(bytes) => match r {
                Ok(text) => valid_utf8(bytes@) && text@ == decode_utf8(bytes@),
                Err(e) => !valid_utf8(bytes@) && (e matches Error::CannotFetch(
                    WebError::ReqwestError(message),
                ) && message@ == "error decoding response body"@),
            },
            HttpAnswer::NotSent(message) => r matches Err(
                Error::CannotFetch(WebError::ReqwestError(text)),
            ) && text@ == message@,
            HttpAnswer::Failed(message) => r matches Err(
                Error::CannotFetch(WebError::TemporaryFailure(text)),
            ) && text@ == message@,
            HttpAnswer::Unreadable(message) => r matches Err(
                Error::CannotFetch(WebError::ReqwestError(text)),
            ) && text@ == message@,
        },
{
    match answer {
        HttpAnswer::Body(bytes) => match crate::text::utf8_text(bytes.as_slice()) {
            Some(text) => {
                proof {
                    vstd::utf8::encode_utf8_decode_utf8(text@);
                }
                Ok(text.to_owned())
            },
            None => Err(
                Error::CannotFetch(
                    WebError::ReqwestError("error decoding response body".to_owned()),
                ),
            ),
        },
        HttpAnswer::NotSent(message) => Err(Error::CannotFetch(WebError::ReqwestError(message))),
        HttpAnswer::Failed(message) => Err(Error::CannotFetch(WebError::TemporaryFailure(message))),
        HttpAnswer::Unreadable(message) => Err(Error::CannotFetch(WebError::ReqwestError(message))),
    }
}

/// Whether `r` is what the body `response` of the API's answer gives for
/// `gist`: the handle that the document gives; `NotWasm` where the
/// document gives none; an error of the client where the body is no JSON
/// document.
pub open spec fn resolves_to(
    gist: GistParts,
    response: Seq<char>,
    r: Result<GistResolvedModule, Error>,
) -> bool {
    match r {
        Ok(module) => json_value(response) matches Some(json) && extracted(json, gist) == Some(
            module@,
        ),
        Err(e) => match json_value(response) {
            Some(json) => extracted(json, gist) is None && e == Error::CannotFetch(
                WebError::NotWasm,
            ),
            None => e matches Error::CannotFetch(WebError::ReqwestError(message)) && message@
                == "error decoding response body"@,
        },
    }
}

/// Resolves `gist` from the body of the answer that the code host's API
/// gave for `build_api_url`.
pub fn resolve_gist(gist: Gist, response: &str) -> (r: Result<GistResolvedModule, Error>)
    ensures
        resolves_to(gist@, response@, r),
{
    match Json::parse(response) {
        Some(json) => match extract_gist_from_json(&json, gist) {
            Some(module) => Ok(module),
            None => Err(Error::CannotFetch(WebError::NotWasm)),
        },
        None => Err(
            Error::CannotFetch(WebError::ReqwestError("error decoding response body".to_owned())),
        ),
    }
}

/// The user name and the password for the code host, as the text of the
/// credentials file gives them: its first two words. A text with fewer
/// words gives `NoCredentials`.
pub fn github_basic_auth(text: &str) -> (r: Result<(String, String), Error>)
    ensures
        match r {
            Ok((username, password)) => words(text@, true).len() >= 2 && username@ == words(
                text@,
                true,
            )[0] && password@ == words(text@, true)[1],
            Err(e) => words(text@, true).len() < 2 && e == Error::CannotFetch(
                WebError::NoCredentials,
            ),
        },
{
    let chars = chars_of(text);
    let bounds = word_bounds(&chars, true);
    if bounds.len() >= 2 {
        let username = string_of(&chars, bounds[0].0, bounds[0].1);
        let password = string_of(&chars, bounds[1].0, bounds[1].1);
        Ok((username, password))
    } else {
        Err(Error::CannotFetch(WebError::NoCredentials))
    }
}

} // verus!
