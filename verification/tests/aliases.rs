use wotto::aliases::{AliasBook, MAX_ALIAS_HOPS};
use wotto::names::{CanonicalName, FullyQualifiedName};

#[test]
fn test_alias_simple() {
    let mut ab = AliasBook::default();
    assert!(!ab.has("foo"));
    assert!(ab.remove(&CanonicalName::try_from("foo").unwrap()).is_none());
    ab.add(
        &CanonicalName::try_from("foo").unwrap(),
        &FullyQualifiedName::from_str("user/foo").unwrap(),
    );
    assert!(ab.has("foo"));
    assert_eq!(
        ab.resolve("foo").unwrap(),
        FullyQualifiedName::from_str("user/foo").unwrap()
    );
    assert_eq!(
        ab.remove(&CanonicalName::try_from("foo").unwrap()).unwrap(),
        FullyQualifiedName::from_str("user/foo").unwrap().to_owned()
    );
    assert!(!ab.has("foo"));
}

#[test]
fn test_alias_chain() {
    // foo -> bar -> baz
    let foo = CanonicalName::try_from("foo").unwrap();
    let bar = CanonicalName::try_from("bar").unwrap();
    let baz = FullyQualifiedName::from_str("baz").unwrap();

    let mut ab = AliasBook::default();
    ab.add(&bar, &baz);
    ab.add(&foo, &FullyQualifiedName::alias(&bar));

    assert_eq!(ab.resolve(foo.as_str()).unwrap(), baz);
    assert_eq!(ab.resolve(bar.as_str()).unwrap(), baz);

    // removing in the middle of the chain removes both aliases
    assert_eq!(ab.remove(&bar).unwrap(), baz.to_owned());
    assert!(!ab.has(foo.as_str()));
    assert!(!ab.has(bar.as_str()));
}

fn canonical(name: &str) -> CanonicalName {
    CanonicalName::try_from(name).unwrap()
}

fn add(ab: &mut AliasBook, alias: &str, target: &str) {
    ab.add(&canonical(alias), &FullyQualifiedName::from_str_unchecked(target));
}

#[test]
fn removal_reaches_every_alias_that_leads_to_the_name() {
    // a -> b -> c -> d, and e -> c, and f -> x
    let mut ab = AliasBook::default();
    add(&mut ab, "c", "d");
    add(&mut ab, "b", "c");
    add(&mut ab, "a", "b");
    add(&mut ab, "e", "c");
    add(&mut ab, "f", "x");
    assert_eq!(ab.remove(&canonical("c")).unwrap().as_str(), "d");
    assert!(!ab.has("a"));
    assert!(!ab.has("b"));
    assert!(!ab.has("c"));
    assert!(!ab.has("e"));
    assert!(ab.has("f"));
    assert!(ab.resolve("a").is_none());
}

#[test]
fn remove_target_leaves_what_does_not_lead_to_it() {
    let mut ab = AliasBook::default();
    add(&mut ab, "m", "user/m");
    add(&mut ab, "m2", "m");
    add(&mut ab, "n", "user/n");
    ab.remove_target(&FullyQualifiedName::from_str("user/m").unwrap());
    assert!(!ab.has("m"));
    assert!(!ab.has("m2"));
    assert_eq!(ab.resolve("n").unwrap().as_str(), "user/n");
}

#[test]
fn resolve_stops_in_a_cycle() {
    let mut ab = AliasBook::default();
    add(&mut ab, "a", "b");
    add(&mut ab, "b", "a");
    // an even number of hops from `a` ends at `a`
    assert_eq!(MAX_ALIAS_HOPS % 2, 0);
    assert_eq!(ab.resolve("a").unwrap().as_str(), "a");
    assert_eq!(ab.resolve("b").unwrap().as_str(), "b");
    add(&mut ab, "s", "s");
    assert_eq!(ab.resolve("s").unwrap().as_str(), "s");
}

#[test]
fn resolve_follows_no_more_than_the_limit() {
    let mut ab = AliasBook::default();
    let count = MAX_ALIAS_HOPS + 3;
    for i in 0..count {
        add(&mut ab, &format!("n{i}"), &format!("n{}", i + 1));
    }
    assert_eq!(
        ab.resolve("n0").unwrap().as_str(),
        format!("n{MAX_ALIAS_HOPS}")
    );
    assert_eq!(
        ab.resolve("n10").unwrap().as_str(),
        format!("n{count}")
    );
}

#[test]
fn removing_an_alias_in_a_cycle_removes_the_cycle() {
    let mut ab = AliasBook::default();
    add(&mut ab, "a", "b");
    add(&mut ab, "b", "a");
    add(&mut ab, "c", "d");
    assert_eq!(ab.remove(&canonical("a")).unwrap().as_str(), "b");
    assert!(!ab.has("a"));
    assert!(!ab.has("b"));
    assert!(ab.has("c"));
}

#[test]
fn add_replaces_what_the_alias_stood_for() {
    let mut ab = AliasBook::default();
    add(&mut ab, "a", "x");
    add(&mut ab, "a", "y");
    assert_eq!(ab.resolve("a").unwrap().as_str(), "y");
    assert_eq!(ab.aliases_of("x"), Vec::<String>::new());
    assert_eq!(ab.aliases_of("y"), vec!["a".to_string()]);
    add(&mut ab, "b", "y");
    let mut both = ab.aliases_of("y");
    both.sort();
    assert_eq!(both, vec!["a".to_string(), "b".to_string()]);
}
