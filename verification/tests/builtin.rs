use wotto::error::{Error, InvalidUrl, WebError};
use wotto::names::FullyQualifiedNameBuf;
use wotto::url::ParsedUrl;
use wotto::webload::builtin::{candidates, resolve_module, BuiltinModule, Probe, BUILTIN_DIR};
use wotto::webload::{Domain, Fetch, Loader, ResolvedModule};

fn url(text: &str) -> ParsedUrl {
    ParsedUrl::parse(text).unwrap()
}

fn paths(text: &str) -> Result<Vec<String>, Error> {
    candidates(&url(text))
}

const INVALID: Result<Vec<String>, Error> = Err(Error::InvalidUrl(InvalidUrl::InvalidPath));

#[test]
fn candidates_are_wasm_then_wat_under_the_directory() {
    assert_eq!(BUILTIN_DIR, "builtin");
    assert_eq!(
        paths("builtin:math"),
        Ok(vec!["builtin/math.wasm".to_string(), "builtin/math.wat".to_string()])
    );
    assert_eq!(
        paths("builtin:bar/foo"),
        Ok(vec!["builtin/bar/foo.wasm".to_string(), "builtin/bar/foo.wat".to_string()])
    );
    assert_eq!(
        paths("builtin:bar//foo/"),
        Ok(vec!["builtin/bar//foo.wasm".to_string(), "builtin/bar//foo.wat".to_string()])
    );
    assert_eq!(
        paths("builtin:a/./b"),
        Ok(vec!["builtin/a/./b.wasm".to_string(), "builtin/a/./b.wat".to_string()])
    );
    assert_eq!(
        paths("builtin:.hidden"),
        Ok(vec!["builtin/.hidden.wasm".to_string(), "builtin/.hidden.wat".to_string()])
    );
}

#[test]
fn candidates_agree_with_the_standard_library() {
    for text in ["math", "bar/foo", "bar//foo/", "a/./b", ".hidden", "a/b/.", "x/"] {
        let parsed = url(&format!("builtin:{text}"));
        let base = std::path::Path::new(BUILTIN_DIR).join(&parsed.path);
        let expected: Vec<String> = ["wasm", "wat"]
            .iter()
            .map(|ext| base.with_extension(ext).to_str().unwrap().to_string())
            .collect();
        assert_eq!(candidates(&parsed), Ok(expected), "{text}");
    }
}

#[test]
fn paths_that_are_refused() {
    assert_eq!(paths("builtin:foo.wasm"), INVALID);
    assert_eq!(paths("builtin:bar/foo.wasm"), INVALID);
    assert_eq!(paths("builtin:foo."), INVALID);
    assert_eq!(paths("builtin:../foo"), INVALID);
    assert_eq!(paths("builtin:bar/../foo"), INVALID);
    assert_eq!(paths("builtin:bar/.."), INVALID);
    assert_eq!(paths("builtin:/foo"), INVALID);
    assert_eq!(paths("builtin:./foo"), INVALID);
    assert_eq!(paths("builtin:."), INVALID);
}

#[test]
fn validity_agrees_with_the_standard_library() {
    let texts = [
        "math", "a/b", "a//b", "a/./b", "a/b/", "a/b/.", ".a", "a.b", "a.", "..", "../a", "a/..",
        "a/../b", "/a", "./a", ".", "a/.b", "a/b.c/d", "a/...", "..a", "a..", "a/..b/c",
    ];
    for text in texts {
        let parsed = url(&format!("builtin:{text}"));
        let path = std::path::Path::new(&parsed.path);
        let normal = path
            .components()
            .all(|c| matches!(c, std::path::Component::Normal(_)));
        let accepted = normal && path.extension().is_none();
        assert_eq!(candidates(&parsed).is_ok(), accepted, "{text}");
    }
}

#[test]
fn the_first_regular_file_is_the_module() {
    let math = url("builtin:math");
    let module = resolve_module(&math, &vec![Probe::File]).unwrap();
    assert_eq!(module.full_path(), "builtin/math.wasm");
    assert_eq!(module.name(), "math");
    assert_eq!(module.user(), "");
    assert_eq!(module.domain(), Domain::Builtin);
    assert_eq!(module.content(), None);
    let module = resolve_module(&math, &vec![Probe::Failed("gone".to_string()), Probe::File]);
    assert_eq!(module.unwrap().full_path(), "builtin/math.wat");
    let module = resolve_module(&math, &vec![Probe::File, Probe::File]).unwrap();
    assert_eq!(module.full_path(), "builtin/math.wasm");
    let module = resolve_module(&math, &vec![Probe::NotFile, Probe::File, Probe::File]).unwrap();
    assert_eq!(module.full_path(), "builtin/math.wat");
}

#[test]
fn without_a_regular_file_every_candidate_is_listed() {
    let math = url("builtin:math");
    assert_eq!(
        resolve_module(&math, &vec![Probe::Failed("no such file".to_string()), Probe::NotFile]),
        Err(Error::CannotFetch(WebError::Multiple(vec![
            (
                "builtin/math.wasm".to_string(),
                WebError::IoError("no such file".to_string())
            ),
            ("builtin/math.wat".to_string(), WebError::NotWasm),
        ])))
    );
    assert_eq!(
        resolve_module(&math, &vec![Probe::NotFile]),
        Err(Error::CannotFetch(WebError::Multiple(vec![(
            "builtin/math.wasm".to_string(),
            WebError::NotWasm
        )])))
    );
    assert_eq!(
        resolve_module(&math, &vec![]),
        Err(Error::CannotFetch(WebError::Multiple(vec![])))
    );
    assert_eq!(
        resolve_module(&url("builtin:math.wasm"), &vec![Probe::File]),
        Err(Error::InvalidUrl(InvalidUrl::InvalidPath))
    );
}

#[test]
fn a_builtin_module_is_read_once() {
    let mut module = ResolvedModule::from_builtin(url("builtin:bar/math"), &vec![Probe::File])
        .unwrap();
    assert_eq!(module.loader(), Loader::Builtin);
    assert_eq!(module.domain(), Domain::Builtin);
    assert_eq!(module.user(), "");
    assert_eq!(module.name(), "math");
    assert_eq!(module.url().path, "bar/math");
    assert_eq!(module.content(), None);
    assert_eq!(
        module.ensure_content(),
        Fetch::Builtin("builtin/bar/math.wasm".to_string())
    );
    module.set_content(vec![0, 97, 115, 109]);
    assert_eq!(module.ensure_content(), Fetch::Ready);
    assert_eq!(module.content(), Some(&vec![0, 97, 115, 109]));
    assert_eq!(FullyQualifiedNameBuf::for_module(&module).unwrap().as_str(), "math");
}

#[test]
fn a_builtin_module_keeps_what_it_was_given() {
    let mut module = BuiltinModule::new("builtin/a/b.wat".to_string());
    assert_eq!(module.name(), "b");
    module.set_content(vec![1]);
    module.set_content(vec![2]);
    assert_eq!(module.take_content(), Some(vec![2]));
    assert_eq!(module.take_content(), None);
}
