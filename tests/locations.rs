use vittusave::locations::{kind_from_name, Location, LocationError, LocationKind, PCGWSaveMeta};
use vittusave::paths::ExpansionParams;

fn params() -> ExpansionParams {
    ExpansionParams {
        install_dir: "/steam".to_string(),
        user_id: 7,
    }
}

#[test]
fn new_location_is_not_expanded() {
    let loc = Location::new("$HOME/x".to_string(), Some("note".to_string()));
    assert_eq!(loc.path_str(), "$HOME/x");
    assert_eq!(loc.path(), None);
    assert_eq!(loc.note(), Some("note"));
}

#[test]
fn expanded_path_is_recorded() {
    let mut loc = Location::new("<Steam-folder>/userdata/<user-id>".to_string(), None);
    let env = vec![];
    let p = loc.expanded_path("linux", &params(), &env).unwrap();
    assert_eq!(p, "/steam/userdata/7");
    loc.set_path(p);
    assert_eq!(loc.path(), Some("/steam/userdata/7"));
}

#[test]
fn undefined_placeholder_is_reported() {
    let loc = Location::new("$HOME/x".to_string(), None);
    let env = vec![];
    assert_eq!(
        loc.expanded_path("linux", &params(), &env),
        Err(LocationError::UndefinedAbbr)
    );
}

#[test]
fn steam_names_its_own_kind() {
    assert!(matches!(kind_from_name("Steam"), LocationKind::Steam));
    assert!(matches!(kind_from_name("Linux"), LocationKind::OS(ref s) if s == "Linux"));
}

#[test]
fn locations_are_listed_by_kind() {
    let mut meta = PCGWSaveMeta::new();
    assert!(meta.get_locations(&LocationKind::Steam).is_empty());
    meta.set_locations(
        LocationKind::OS("Linux".to_string()),
        vec![Location::new("a".to_string(), None)],
    );
    meta.set_locations(
        LocationKind::Steam,
        vec![
            Location::new("b".to_string(), None),
            Location::new("c".to_string(), None),
        ],
    );
    meta.set_locations(
        LocationKind::OS("Linux".to_string()),
        vec![Location::new("d".to_string(), None)],
    );
    let linux = meta.get_locations(&LocationKind::OS("Linux".to_string()));
    assert_eq!(linux.len(), 1);
    assert_eq!(linux[0].path_str(), "d");
    assert_eq!(meta.get_locations(&LocationKind::Steam).len(), 2);
    assert!(meta.get_locations(&LocationKind::OS("Windows".to_string())).is_empty());
}
