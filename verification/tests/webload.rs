use wotto::error::{Error, InvalidUrl};
use wotto::url::ParsedUrl;
use wotto::webload::{resolve, Loader, Pending};

#[test]
fn printa_e_vedi() {
    println!("{:?}", url::Url::parse("builtin:bar/foo.wasm"));
    println!("{:?}", url::Url::parse("builtin:foo.wasm"));
    println!("{:?}", url::Url::parse("builtin:").unwrap().origin());
}

#[test]
fn test_loader() {
    assert_eq!(
        Loader::from_url(&ParsedUrl::parse("https://gist.github.com/aa").unwrap()).unwrap(),
        Loader::Gist
    );
    assert_eq!(
        Loader::from_url(&ParsedUrl::parse("https://gist.githubusercontent.com/").unwrap())
            .unwrap(),
        Loader::Gist
    );
    assert_eq!(
        Loader::from_url(&ParsedUrl::parse("builtin:").unwrap()).unwrap(),
        Loader::Builtin
    );

    assert!(matches!(
        Loader::from_url(&ParsedUrl::parse("https://github.com/aa").unwrap()),
        Err(Error::InvalidUrl(InvalidUrl::RejectedOrigin))
    ));
}

#[test]
fn url_is_taken_apart() {
    let url = ParsedUrl::parse("https://Gist.GitHub.com/u/abc?x=1#file-a-b").unwrap();
    assert_eq!(url.text, "https://gist.github.com/u/abc?x=1#file-a-b");
    assert_eq!(url.scheme, "https");
    assert_eq!(url.host.as_deref(), Some("gist.github.com"));
    assert_eq!(url.port, Some(443));
    assert_eq!(url.path, "/u/abc");
    assert_eq!(url.fragment.as_deref(), Some("file-a-b"));

    let builtin = ParsedUrl::parse("builtin:bar/foo").unwrap();
    assert_eq!(builtin.scheme, "builtin");
    assert_eq!(builtin.host, None);
    assert_eq!(builtin.port, None);
    assert_eq!(builtin.path, "bar/foo");
    assert_eq!(builtin.fragment, None);
    assert_eq!(builtin.clone(), builtin);

    assert_eq!(ParsedUrl::parse("not a url"), Err(InvalidUrl::ParseError));
    assert_eq!(ParsedUrl::parse(""), Err(InvalidUrl::ParseError));
}

#[test]
fn loader_goes_by_scheme_and_origin() {
    let rejected = [
        "http://gist.github.com/aa",
        "https://gist.github.com:8443/aa",
        "https://gist.github.com.evil.example/aa",
        "https://api.github.com/gists/aa",
        "ftp://gist.github.com/aa",
        "file:///etc/passwd",
    ];
    for text in rejected {
        assert_eq!(
            Loader::from_url(&ParsedUrl::parse(text).unwrap()),
            Err(Error::InvalidUrl(InvalidUrl::RejectedOrigin)),
            "{text}"
        );
    }
    assert_eq!(
        Loader::from_url(&ParsedUrl::parse("https://gist.github.com:443/aa").unwrap()),
        Ok(Loader::Gist)
    );
    assert_eq!(
        Loader::from_url(&ParsedUrl::parse("https://user:pw@gist.github.com/aa").unwrap()),
        Ok(Loader::Gist)
    );
}

#[test]
fn resolution_starts_with_what_to_ask_for() {
    let gist = resolve(ParsedUrl::parse("https://gist.github.com/u/abc123").unwrap()).unwrap();
    match gist {
        Pending::Gist { url, gist } => {
            assert_eq!(url.path, "/u/abc123");
            assert_eq!(gist.build_api_url(), "https://api.github.com/gists/abc123");
        }
        other => panic!("{other:?}"),
    }
    let builtin = resolve(ParsedUrl::parse("builtin:math").unwrap()).unwrap();
    match builtin {
        Pending::Builtin { url, paths } => {
            assert_eq!(url.path, "math");
            assert_eq!(paths, vec!["builtin/math.wasm".to_string(), "builtin/math.wat".to_string()]);
        }
        other => panic!("{other:?}"),
    }
    assert_eq!(
        resolve(ParsedUrl::parse("https://example.com/u/abc123").unwrap()),
        Err(Error::InvalidUrl(InvalidUrl::RejectedOrigin))
    );
    assert_eq!(
        resolve(ParsedUrl::parse("https://gist.github.com/u/xyz").unwrap()),
        Err(Error::InvalidUrl(InvalidUrl::InvalidPath))
    );
    assert_eq!(
        resolve(ParsedUrl::parse("builtin:../math").unwrap()),
        Err(Error::InvalidUrl(InvalidUrl::InvalidPath))
    );
}

#[test]
fn errors_have_messages() {
    assert_eq!(InvalidUrl::ParseError.message(), "url cannot be parsed");
    assert_eq!(InvalidUrl::RejectedOrigin.message(), "rejected origin");
    assert_eq!(
        InvalidUrl::CredentialsNotAllowed.message(),
        "url cannot contain username or password"
    );
    assert_eq!(InvalidUrl::InvalidPath.message(), "invalid path");
    assert_eq!(
        Error::from(InvalidUrl::InvalidPath),
        Error::InvalidUrl(InvalidUrl::InvalidPath)
    );
    assert_eq!(
        Error::from(wotto::error::WebError::NotWasm),
        Error::CannotFetch(wotto::error::WebError::NotWasm)
    );
}

#[test]
fn errors_of_the_service_have_messages() {
    let web = wotto::error::WebError::Multiple(vec![
        (
            "builtin/m.wasm".to_string(),
            wotto::error::WebError::IoError("gone".to_string()),
        ),
        ("builtin/m.wat".to_string(), wotto::error::WebError::NotWasm),
        (
            "more".to_string(),
            wotto::error::WebError::Multiple(vec![(
                "inner".to_string(),
                wotto::error::WebError::TooLarge,
            )]),
        ),
    ]);
    assert_eq!(
        web.message(),
        "multiple errors: [builtin/m.wasm: I/O error; builtin/m.wat: not a webassembly module; \
         more: multiple errors: [inner: file too large]]"
    );
    assert_eq!(
        wotto::error::WebError::Multiple(vec![]).message(),
        "multiple errors: []"
    );
    assert_eq!(
        wotto::error::WebError::TemporaryFailure("503".to_string()).message(),
        "temporary failure: 503"
    );
    assert_eq!(
        wotto::error::WebError::ReqwestError("tls".to_string()).message(),
        "web client error: tls"
    );
    assert_eq!(wotto::error::WebError::NoCredentials.message(), "missing credentials");
    let cases = [
        (Error::Wasm("trap".to_string()), "wasm runtime error: trap"),
        (Error::InvalidModuleName, "invalid module name"),
        (Error::ModuleNotFound, "no such module"),
        (Error::FunctionNotFound, "no such function"),
        (Error::WrongFunctionType, "wrong function signature"),
        (Error::MemoryNotExported, "memory is not exported"),
        (Error::InvalidPointer, "invalid pointer"),
        (Error::TimedOut, "execution timed out"),
        (
            Error::InvalidUrl(InvalidUrl::RejectedOrigin),
            "invalid url: rejected origin",
        ),
        (
            Error::CannotFetch(wotto::error::WebError::NotWasm),
            "error while fetching url: not a webassembly module",
        ),
        (
            Error::ModuleGone("u/m".to_string(), "https://x/".to_string()),
            "module u/m previously at url https://x/ not found",
        ),
    ];
    for (error, text) in cases {
        assert_eq!(error.message(), text);
    }
}
