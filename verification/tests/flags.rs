use mqtt_toolkit::cli::spec::flag::error::{FlagMissingArgError, UnknownFlagError};
use mqtt_toolkit::cli::spec::flag::{extract, is_flag, is_long, is_short, query, query_flag_spec, Flag, FlagSet, Id, Query};
use mqtt_toolkit::cli::spec::Arg;

#[test]
fn long_flags() {
    assert!(is_long("--ab"));
    assert!(!is_long("--a"));
    assert!(!is_long("--"));
    assert!(!is_long("-ab"));
    // more than three bytes: one two-byte character after the dashes is enough
    assert!(is_long("--é"));
}

#[test]
fn short_flags() {
    assert!(is_short("-a"));
    assert!(is_short("--"));
    assert!(!is_short("-"));
    assert!(!is_short("a-"));
    assert!(is_flag("-x"));
    assert!(is_flag("--name"));
    assert!(!is_flag("name"));
    assert!(!is_flag(""));
}

#[test]
fn extract_queries() {
    match extract("--keep-alive") {
        Some(Query::Name(n)) => assert_eq!(n, "keep-alive"),
        other => panic!("unexpected {:?}", other),
    }
    match extract("-kvalue") {
        Some(Query::Short(c)) => assert_eq!(c, 'k'),
        other => panic!("unexpected {:?}", other),
    }
    match extract("--a") {
        Some(Query::Short(c)) => assert_eq!(c, '-'),
        other => panic!("unexpected {:?}", other),
    }
    assert!(extract("plain").is_none());
    assert!(extract("-").is_none());
}

#[test]
fn query_text() {
    assert_eq!(Query::Name("port".to_string()).to_text(), "--port");
    assert_eq!(Query::Short('p').to_text(), "-p");
}

#[test]
fn flag_accessors() {
    let f = Flag::new("port", 'p', Arg::Required, "Port to use");
    assert_eq!(f.id().name(), "port");
    assert_eq!(f.id().short(), 'p');
    assert_eq!(*f.arg_spec(), Arg::Required);
    assert_eq!(f.help(), "Port to use");
    assert_eq!(Arg::default(), Arg::NoArg);
}

#[test]
fn id_equality() {
    assert!(Id::new("a", 'b') == Id::new("a", 'b'));
    assert!(Id::new("a", 'b') != Id::new("a", 'c'));
    assert!(Id::new("a", 'b') != Id::new("ab", 'b'));
    assert!(Flag::new("x", 'x', Arg::NoArg, "one") == Flag::new("x", 'x', Arg::Required, "two"));
}

#[test]
fn flag_set_insert_keeps_first() {
    let mut set = FlagSet::new();
    assert!(set.insert(Flag::new("port", 'p', Arg::Required, "first")));
    assert!(!set.insert(Flag::new("port", 'p', Arg::NoArg, "second")));
    assert_eq!(set.len(), 1);
    assert_eq!(set.items()[0].help(), "first");
    assert!(set.insert(Flag::new("port", 'q', Arg::NoArg, "other short")));
    assert_eq!(set.len(), 2);
    assert!(set.contains_id(&Id::new("port", 'q')));
    assert!(!set.contains_id(&Id::new("port", 'x')));
}

#[test]
fn flag_set_replace_takes_place() {
    let mut set = FlagSet::new();
    assert!(set.replace(Flag::new("a", 'a', Arg::NoArg, "1")).is_none());
    assert!(set.replace(Flag::new("b", 'b', Arg::NoArg, "2")).is_none());
    let prev = set.replace(Flag::new("a", 'a', Arg::Required, "3")).unwrap();
    assert_eq!(prev.help(), "1");
    assert_eq!(set.len(), 2);
    assert_eq!(set.items()[0].help(), "3");
    assert_eq!(set.items()[1].help(), "2");
}

#[test]
fn query_finds_first_match() {
    let mut set = FlagSet::new();
    set.insert(Flag::new("host", 'h', Arg::Required, "host"));
    set.insert(Flag::new("port", 'p', Arg::Required, "first port"));
    set.insert(Flag::new("port", 'x', Arg::Required, "second port"));
    assert_eq!(query(&Query::Short('h'), &set).unwrap().help(), "host");
    assert_eq!(query(&Query::Name("port".to_string()), &set).unwrap().help(), "first port");
    assert_eq!(query_flag_spec(&Query::Short('x'), &set).unwrap().help(), "second port");
    assert!(query(&Query::Short('z'), &set).is_none());
    assert!(query_flag_spec(&Query::Name("nope".to_string()), &set).is_none());
}

#[test]
fn flag_error_messages() {
    assert_eq!(UnknownFlagError(Query::Short('z')).message(), "unrecognized flag '-z'");
    assert_eq!(
        FlagMissingArgError(Query::Name("port".to_string())).message(),
        "unrecognzied flag '--port'"
    );
}
