use eesh::alias::CommandAliases;

#[test]
fn built_in_defaults_resolve() {
    let aliases = CommandAliases::new();
    assert_eq!(aliases.get("leader"), Some(","));
    assert_eq!(aliases.get("commander"), Some("/"));
}

#[test]
fn lookup_is_case_insensitive() {
    let aliases = CommandAliases::new();
    assert_eq!(aliases.get("LEADER"), Some(","));
    assert_eq!(aliases.get("Commander"), Some("/"));
}

#[test]
fn unknown_names_resolve_to_nothing() {
    let aliases = CommandAliases::new();
    assert_eq!(aliases.get("send"), None);
    assert_eq!(aliases.get(""), None);
}

#[test]
fn override_beats_the_built_in() {
    let mut aliases = CommandAliases::new();
    aliases.insert("leader".to_string(), ";".to_string());
    assert_eq!(aliases.get("leader"), Some(";"));
    assert_eq!(aliases.get("LEADER"), Some(";"));
    // The other built-in is untouched.
    assert_eq!(aliases.get("commander"), Some("/"));
}

#[test]
fn arbitrary_names_can_be_defined() {
    let mut aliases = CommandAliases::new();
    aliases.insert("send".to_string(), "s".to_string());
    assert_eq!(aliases.get("send"), Some("s"));
    assert_eq!(aliases.get("SEND"), Some("s"));
}

#[test]
fn override_keys_are_matched_lowercased() {
    // Lookup folds the queried name; stored names are taken as
    // written, so a lowercase entry matches any casing of the query.
    let mut aliases = CommandAliases::new();
    aliases.insert("query".to_string(), "?".to_string());
    assert_eq!(aliases.get("Query"), Some("?"));
    assert_eq!(aliases.get("qUeRy"), Some("?"));
}
