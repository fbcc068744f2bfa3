use nixpacks::environment::{apply_entries, parse_entry, Environment};
use nixpacks::error::{Cause, Error, ProviderId, Subject};
use nixpacks::string_map::StringMap;

fn map(pairs: &[(&str, &str)]) -> StringMap {
    let mut m = StringMap::new();
    for (k, v) in pairs {
        m.insert(k.to_string(), v.to_string());
    }
    m
}

#[test]
fn insert_replaces_and_get_finds() {
    let mut m = StringMap::new();
    assert!(m.is_empty());
    assert_eq!(m.get("a"), None);
    m.insert("a".to_string(), "1".to_string());
    m.insert("b".to_string(), "2".to_string());
    m.insert("a".to_string(), "3".to_string());
    assert!(!m.is_empty());
    assert_eq!(m.get("a").map(|s| s.as_str()), Some("3"));
    assert_eq!(m.get("b").map(|s| s.as_str()), Some("2"));
    assert!(m.contains_key("a"));
    assert!(!m.contains_key("c"));
    assert!(!m.contains_key(""));
    assert_eq!(m.to_vec().len(), 2);
}

#[test]
fn maps_are_equal_whatever_the_order_of_insertion() {
    let one = map(&[("a", "1"), ("b", "2"), ("c", "3")]);
    let two = map(&[("c", "3"), ("a", "0"), ("b", "2"), ("a", "1")]);
    assert_eq!(one, two);
    assert!(one.same_as(&two));
    assert_eq!(one.clone(), one);
    assert_ne!(one, map(&[("a", "1"), ("b", "2")]));
    assert_ne!(one, map(&[("a", "1"), ("b", "2"), ("c", "4")]));
    assert_ne!(one, map(&[("a", "1"), ("b", "2"), ("d", "3")]));
    assert!(map(&[("a", "1")]).is_included_in(&one));
    assert!(!one.is_included_in(&map(&[("a", "1")])));
    assert!(map(&[]).is_included_in(&map(&[])));
}

#[test]
fn extend_prefers_the_other_map() {
    let mut m = map(&[("a", "1"), ("b", "2")]);
    m.extend(&map(&[("b", "3"), ("c", "4")]));
    assert_eq!(m, map(&[("a", "1"), ("b", "3"), ("c", "4")]));
    m.extend(&StringMap::new());
    assert_eq!(m, map(&[("a", "1"), ("b", "3"), ("c", "4")]));
}

#[test]
fn entries_split_at_the_first_equals_sign() {
    assert_eq!(parse_entry("A=b"), Ok(("A".to_string(), "b".to_string())));
    assert_eq!(parse_entry("A="), Ok(("A".to_string(), "".to_string())));
    assert_eq!(parse_entry("A=b=c"), Ok(("A".to_string(), "b=c".to_string())));
    assert_eq!(parse_entry("\u{e9}=\u{f6}"), Ok(("\u{e9}".to_string(), "\u{f6}".to_string())));
    assert_eq!(parse_entry("A"), Err(Error::Parse));
    assert_eq!(parse_entry(""), Err(Error::Parse));
    assert_eq!(parse_entry("=b"), Err(Error::Parse));
    assert_eq!(parse_entry("="), Err(Error::Parse));
}

#[test]
fn entries_override_the_base_and_each_other() {
    let base = map(&[("HOME", "/root"), ("A", "0")]);
    let entries = vec!["A=1".to_string(), "B=2".to_string(), "A=3".to_string()];
    assert_eq!(
        apply_entries(base.clone(), &entries),
        Ok(map(&[("HOME", "/root"), ("A", "3"), ("B", "2")]))
    );
    assert_eq!(apply_entries(base.clone(), &vec![]), Ok(base.clone()));
    assert_eq!(
        apply_entries(base.clone(), &vec!["A=1".to_string(), "B".to_string()]),
        Err(Error::Parse)
    );
    let env = Environment::from_envs(base, &entries).unwrap();
    assert_eq!(env.get("A").map(|s| s.as_str()), Some("3"));
    assert_eq!(env.get("HOME").map(|s| s.as_str()), Some("/root"));
    assert_eq!(env.get("C"), None);
    assert_eq!(env.variables().to_vec().len(), 3);
    assert!(Environment::from_envs(StringMap::new(), &vec!["x".to_string()]).is_err());
}

#[test]
fn config_variables_carry_the_prefix() {
    let env = Environment::new(map(&[("NIXPACKS_NODE_VERSION", "14"), ("NODE_VERSION", "12")]));
    assert_eq!(env.get_config_variable("NODE_VERSION").map(|s| s.as_str()), Some("14"));
    assert_eq!(env.get("NODE_VERSION").map(|s| s.as_str()), Some("12"));
    assert_eq!(env.get_config_variable("NIXPACKS_NODE_VERSION"), None);
    assert_eq!(env.get_config_variable(""), None);
    assert_eq!(Environment::default().get_config_variable("NODE_VERSION"), None);
    assert_eq!(Environment::default(), Environment::new(StringMap::new()));
}

#[test]
fn errors_are_attributed_to_providers() {
    let node = ProviderId::Node;
    let file = Subject::PackageJson;
    let at = |cause: Cause| Error::Provider { provider: node, cause, subject: file };
    assert_eq!(Error::Io.attribute_to(node, file), at(Cause::Io));
    assert_eq!(Error::Parse.attribute_to(node, file), at(Cause::Parse));
    assert_eq!(Error::Path.attribute_to(node, file), at(Cause::Path));
    assert_eq!(Error::Plan.attribute_to(node, file), at(Cause::Parse));
    let deno =
        Error::Provider { provider: ProviderId::Deno, cause: Cause::Parse, subject: Subject::Pattern };
    assert_eq!(Error::Parse.attribute_to(ProviderId::Deno, Subject::Pattern), deno);
    assert_eq!(deno.attribute_to(node, file), deno);
    assert_eq!(at(Cause::Io).provider(), Some(node));
    assert_eq!(at(Cause::Io).file(), Some("package.json"));
    assert_eq!(deno.provider(), Some(ProviderId::Deno));
    assert_eq!(deno.file(), None);
    assert_eq!(Error::Io.provider(), None);
    assert_eq!(Error::Plan.file(), None);
    assert_eq!(Subject::PackageJson.file(), Some("package.json"));
    assert_eq!(Subject::Pattern.file(), None);
    let all = [Error::Io, Error::Parse, Error::Path, Error::Plan, at(Cause::Io), deno, at(Cause::Path)];
    for (i, a) in all.iter().enumerate() {
        assert!(!a.describe().is_empty());
        for b in all.iter().skip(i + 1) {
            assert_ne!(a.describe(), b.describe());
        }
    }
}
