use connection_handshake::error::ValidationError;
use connection_handshake::stateless::check_versions;
use connection_handshake::version::{clone_strings, clone_versions, supported_versions, ProtocolVersion};

fn version(identifier: &str, features: &[&str]) -> ProtocolVersion {
    ProtocolVersion::new(
        identifier.to_string(),
        features.iter().map(|f| f.to_string()).collect(),
    )
}

fn ordered() -> Vec<&'static str> {
    vec!["ORDER_ORDERED", "ORDER_UNORDERED"]
}

#[test]
fn chain_supports_version_one_with_both_orderings() {
    let supported = supported_versions();
    assert_eq!(supported.len(), 1);
    assert_eq!(supported[0].identifier, "1");
    assert_eq!(
        supported[0].features,
        vec!["ORDER_ORDERED".to_string(), "ORDER_UNORDERED".to_string()]
    );
}

#[test]
fn new_keeps_identifier_and_features() {
    let v = version("1.0", &["A", "B"]);
    assert_eq!(v.identifier, "1.0");
    assert_eq!(v.features, vec!["A".to_string(), "B".to_string()]);
}

#[test]
fn has_feature_finds_only_listed_features() {
    let v = version("1", &["ORDER_ORDERED", "ORDER_UNORDERED"]);
    assert!(v.has_feature(&"ORDER_ORDERED".to_string()));
    assert!(v.has_feature(&"ORDER_UNORDERED".to_string()));
    assert!(!v.has_feature(&"ORDER_RANDOM".to_string()));
    assert!(!v.has_feature(&"".to_string()));
    assert!(!version("1", &[]).has_feature(&"ORDER_ORDERED".to_string()));
}

#[test]
fn compatible_needs_the_same_identifier() {
    let a = version("1", &["ORDER_ORDERED"]);
    let b = version("2", &["ORDER_ORDERED"]);
    assert!(!a.is_compatible_with(&b));
    assert!(!b.is_compatible_with(&a));
    assert!(a.is_compatible_with(&a));
}

#[test]
fn compatible_needs_a_shared_feature() {
    let a = version("1", &["ORDER_ORDERED", "ORDER_RANDOM"]);
    let b = version("1", &["ORDER_UNORDERED", "ORDER_RANDOM"]);
    let c = version("1", &["ORDER_UNORDERED"]);
    let none = version("1", &[]);
    assert!(a.is_compatible_with(&b));
    assert!(b.is_compatible_with(&a));
    assert!(!a.is_compatible_with(&c));
    assert!(b.is_compatible_with(&c));
    assert!(!a.is_compatible_with(&none));
    assert!(!none.is_compatible_with(&none));
}

#[test]
fn supported_by_looks_at_every_entry() {
    let supported = vec![version("1.0", &ordered()), version("2.0", &ordered())];
    assert!(version("1.0", &["ORDER_ORDERED"]).is_supported_by(&supported));
    assert!(version("2.0", &["ORDER_UNORDERED"]).is_supported_by(&supported));
    assert!(!version("9.9", &ordered()).is_supported_by(&supported));
    assert!(!version("1.0", &ordered()).is_supported_by(&Vec::new()));
}

#[test]
fn supported_candidate_passes() {
    let supported = vec![version("1.0", &ordered()), version("2.0", &ordered())];
    let candidates = vec![version("1.0", &ordered())];
    assert_eq!(check_versions(&candidates, &supported), Ok(()));
}

#[test]
fn unknown_candidate_is_unsupported() {
    let supported = vec![version("1.0", &ordered()), version("2.0", &ordered())];
    let candidates = vec![version("9.9", &ordered())];
    assert_eq!(
        check_versions(&candidates, &supported),
        Err(ValidationError::UnsupportedVersion)
    );
}

#[test]
fn one_supported_candidate_among_many_is_enough() {
    let supported = vec![version("1.0", &ordered()), version("2.0", &ordered())];
    let candidates = vec![
        version("9.9", &ordered()),
        version("0.1", &ordered()),
        version("2.0", &["ORDER_UNORDERED"]),
    ];
    assert_eq!(check_versions(&candidates, &supported), Ok(()));
}

#[test]
fn empty_candidate_list_is_rejected_as_empty() {
    let supported = vec![version("1.0", &ordered())];
    assert_eq!(
        check_versions(&Vec::new(), &supported),
        Err(ValidationError::EmptyVersionList)
    );
    assert_eq!(
        check_versions(&Vec::new(), &Vec::new()),
        Err(ValidationError::EmptyVersionList)
    );
}

#[test]
fn nothing_is_supported_by_an_empty_set() {
    let candidates = vec![version("1.0", &ordered())];
    assert_eq!(
        check_versions(&candidates, &Vec::new()),
        Err(ValidationError::UnsupportedVersion)
    );
}

#[test]
fn matching_identifier_without_common_feature_is_unsupported() {
    let supported = vec![version("1.0", &ordered())];
    let candidates = vec![version("1.0", &["ORDER_RANDOM"]), version("1.0", &[])];
    assert_eq!(
        check_versions(&candidates, &supported),
        Err(ValidationError::UnsupportedVersion)
    );
}

#[test]
fn copies_are_equal_to_what_they_copy() {
    let v = version("1", &ordered());
    assert_eq!(v.clone(), v);
    let list = vec![version("1", &ordered()), version("2", &[])];
    assert_eq!(clone_versions(&list), list);
    let strings = vec!["a".to_string(), "".to_string(), "ORDER_ORDERED".to_string()];
    assert_eq!(clone_strings(&strings), strings);
}
