use tracksync::catalog::{open_catalog, Opening};
use tracksync::cmd;
use tracksync::cmd::error::Error;
use tracksync::filter::{check, Error as FilterError};

#[test]
fn filter_script_must_compile() {
    assert!(check(vec!["fn filter(track) { track.artist == \"x\" }".to_string()]).is_ok());
    assert!(check(vec![]).is_ok());
    assert!(matches!(
        check(vec!["fn filter(track) {".to_string()]),
        Err(FilterError::ParseError(_))
    ));
}

#[test]
fn filter_script_must_define_filter() {
    assert!(matches!(
        check(vec!["fn other(track) { true }".to_string()]),
        Err(FilterError::MissingFilter)
    ));
    assert!(matches!(
        check(vec!["fn filter(a, b) { true }".to_string()]),
        Err(FilterError::MissingFilter)
    ));
    assert!(matches!(
        check(vec!["fn filter(t) { true }".to_string(), "let".to_string()]),
        Err(FilterError::ParseError(_))
    ));
}

#[test]
fn commands_validate_their_arguments() {
    let sync = cmd::sync::Args {
        database_path: "/db".to_string(),
        destination: None,
        no_delete: false,
        dry_run: false,
        link: false,
    };
    assert!(matches!(sync.validate(), Err(Error::ValidationError(m)) if m == "missing destination"));
    let sync = cmd::sync::Args { destination: Some("/d".to_string()), ..sync };
    assert!(sync.validate().is_ok());

    let add = cmd::add::Args { database_path: "/db".to_string(), sources: None, is_destination: false };
    assert!(matches!(add.validate(), Err(Error::ValidationError(m)) if m == "missing source(s)"));
    let add = cmd::add::Args { sources: Some(vec!["/m".to_string()]), ..add };
    assert!(add.validate().is_ok());

    let clean = cmd::clean::Args { destination: None };
    assert!(clean.validate().is_err());
    assert!(cmd::clean::Args { destination: Some("/d".to_string()) }.validate().is_ok());

    let filter = cmd::filter::Args { destination: None, read: true, file: None };
    assert!(matches!(filter.validate(), Err(Error::ValidationError(_))));
    assert!(cmd::filter::Args { destination: Some("/d".to_string()), read: false, file: None }.validate().is_ok());
}

#[test]
fn error_messages() {
    assert_eq!(
        Error::ValidationError("missing destination".to_string()).message(),
        "validation error: missing destination"
    );
    assert_eq!(Error::OrphanedFile("/d/f".to_string()).message(), "cannot delete file /d/f");
    assert_eq!(
        Error::FilterError(FilterError::ParseError("bad".to_string())).message(),
        "filtering error: bad"
    );
    assert_eq!(
        Error::FilterError(FilterError::MissingFilter).message(),
        "filtering error: no function filter(track) is defined"
    );
    let e: Error = FilterError::MissingFilter.into();
    assert!(matches!(e, Error::FilterError(FilterError::MissingFilter)));
}

#[test]
fn catalog_role_is_fixed() {
    assert_eq!(open_catalog(None, true).unwrap(), Opening::Initialize);
    assert_eq!(open_catalog(None, false).unwrap(), Opening::Initialize);
    assert_eq!(open_catalog(Some(true), true).unwrap(), Opening::Open);
    assert_eq!(open_catalog(Some(false), false).unwrap(), Opening::Open);
    let e = open_catalog(Some(false), true).unwrap_err();
    assert!(matches!(e, Error::RoleMismatch(false)));
    assert_eq!(e.message(), "the catalog is not a destination one");
    assert!(matches!(open_catalog(Some(true), false), Err(Error::RoleMismatch(true))));
}
