//! Usage-scan tests, with settings records from real `LevelDB` databases.

use rusty_leveldb::LdbIterator;
use ufpm::foundry::worlds::{
    read_enabled_modules, scan_usage, scan_world, Error, Listing, Settings, World, WorldFile,
};
use ufpm::foundry::{Installation, RootSource};

/// A resolved installation.
fn fake_foundry() -> Installation {
    Installation::new("/foundry".to_owned(), RootSource::Explicit)
}

/// A world directory with the given system.
fn world(id: &str, system: &str, settings: Settings) -> World {
    World {
        id: id.to_owned(),
        is_dir: true,
        has_manifest: true,
        manifest: WorldFile::System(Some(system.to_owned())),
        settings,
    }
}

/// A settings document with the given key and value.
fn document(key: &str, value: serde_json::Value) -> String {
    let mut members = serde_json::Map::new();
    members.insert("key".to_owned(), serde_json::Value::String(key.to_owned()));
    members.insert("value".to_owned(), value);
    serde_json::Value::Object(members).to_string()
}

/// The records of a real `LevelDB` with a `core.moduleConfiguration` document.
fn settings(configuration: &str) -> Settings {
    let value = serde_json::Value::String(configuration.to_owned());
    let mut db = rusty_leveldb::DB::open("settings", rusty_leveldb::in_memory()).unwrap();
    db.put(b"!settings!abc", document("core.moduleConfiguration", value).as_bytes()).unwrap();
    db.put(b"!actors!xyz", br#"{ "name": "Strahd" }"#).unwrap();
    db.flush().unwrap();
    let mut iter = db.new_iter().unwrap();
    let mut records = Vec::new();
    while let Some((_, value)) = iter.next() {
        records.push(value);
    }
    Settings::Records(records)
}

/// Systems come from world.json, modules from the settings database;
/// disabled modules do not count.
#[test]
fn collects_systems_and_enabled_modules() {
    let entries =
        vec![world("my-world", "pf2e", settings(r#"{ "dice-so-nice": true, "old-junk": false }"#))];

    let usage = scan_usage(&fake_foundry(), Listing::Entries(entries)).unwrap();

    assert_eq!(usage.worlds, 1);
    assert!(usage.systems.contains(&"pf2e".to_owned()));
    assert!(usage.modules.contains(&"dice-so-nice".to_owned()), "{usage:?}");
    assert!(!usage.modules.contains(&"old-junk".to_owned()));
    assert!(usage.unreadable.is_empty());
}

/// A corrupt database marks the world unreadable instead of failing or
/// silently reporting "unused".
#[test]
fn corrupt_databases_are_reported_unreadable() {
    let corrupt = Settings::NotOpened("corrupt CURRENT file".to_owned());
    let entries = vec![world("broken", "dnd5e", corrupt)];

    let usage = scan_usage(&fake_foundry(), Listing::Entries(entries)).unwrap();

    assert!(usage.systems.contains(&"dnd5e".to_owned()));
    assert_eq!(usage.unreadable.len(), 1);
    assert_eq!(usage.unreadable[0].0, "broken");
    assert_eq!(usage.unreadable[0].1, "could not open the world database: corrupt CURRENT file");
}

/// A world that was never launched (no database) just has no modules.
#[test]
fn worlds_without_databases_are_fine() {
    let entries = vec![world("fresh", "coc7", Settings::Absent)];

    let usage = scan_usage(&fake_foundry(), Listing::Entries(entries)).unwrap();

    assert!(usage.systems.contains(&"coc7".to_owned()));
    assert!(usage.modules.is_empty());
    assert!(usage.unreadable.is_empty());
}

/// Directories without a world.json are not worlds.
#[test]
fn ignores_non_world_directories() {
    let mut not_a_world = world("not-a-world", "pf2e", Settings::Absent);
    not_a_world.has_manifest = false;

    let usage = scan_usage(&fake_foundry(), Listing::Entries(vec![not_a_world])).unwrap();

    assert_eq!(usage.worlds, 0);
    assert!(usage.systems.is_empty());
}

/// A missing worlds directory is no usage; one that cannot be listed is an
/// error.
#[test]
fn worlds_directories_may_be_missing() {
    let usage = scan_usage(&fake_foundry(), Listing::Missing).unwrap();
    assert_eq!(usage.worlds, 0);

    let listing = Listing::Unlistable("denied".to_owned());
    let error = scan_usage(&fake_foundry(), listing).unwrap_err();
    assert_eq!(error.message(), "could not list /foundry/Data/worlds");
    assert_eq!(error.chain(), ["could not list /foundry/Data/worlds", "denied"]);
}

/// Each system and module is listed once, and every world counts.
#[test]
fn usage_of_several_worlds_is_merged() {
    let entries = vec![
        world("one", "pf2e", settings(r#"{ "a": true, "b": true }"#)),
        world("two", "pf2e", settings(r#"{ "b": true, "c": true }"#)),
        World {
            manifest: WorldFile::Invalid("eof".to_owned()),
            ..world("three", "pf2e", Settings::Absent)
        },
    ];

    let usage = scan_usage(&fake_foundry(), Listing::Entries(entries)).unwrap();

    assert_eq!(usage.worlds, 3);
    assert_eq!(usage.systems, ["pf2e"]);
    assert_eq!(usage.modules, ["a", "b", "c"]);
    assert_eq!(
        usage.unreadable,
        [("three".to_owned(), "world.json invalid: eof".to_owned())]
    );
}

/// A single world is scanned by id, and has to exist.
#[test]
fn single_worlds_have_to_exist() {
    let usage =
        scan_world("w", Some(world("w", "pf2e", settings(r#"{ "a": true }"#)))).unwrap();
    assert_eq!(usage.worlds, 1);
    assert_eq!(usage.modules, ["a"]);

    let error = scan_world("ghost", None).unwrap_err();
    assert!(matches!(&error, Error::WorldNotFound { id } if id == "ghost"));
    assert_eq!(error.message(), "world 'ghost' was not found");
    assert_eq!(error.chain(), ["world 'ghost' was not found"]);
}

/// Records that are no module configuration enable nothing, and neither do
/// members that are not `true`.
#[test]
fn other_records_are_skipped() {
    let records = vec![
        b"not json".to_vec(),
        b"[1, 2]".to_vec(),
        document("core.other", serde_json::Value::String(r#"{ "a": true }"#.to_owned())).into_bytes(),
        document(
            "core.moduleConfiguration",
            serde_json::Value::String(r#"{ "a": "true", "b": 1, "c": true }"#.to_owned()),
        )
        .into_bytes(),
    ];
    assert_eq!(read_enabled_modules(Settings::Records(records)).unwrap(), ["c"]);
}

/// A module configuration that cannot be understood makes the world unreadable,
/// whatever else its database holds: its modules are unknown, not unused.
#[test]
fn malformed_configurations_are_unreadable() {
    let record = |value: serde_json::Value| document("core.moduleConfiguration", value).into_bytes();
    let text = |value: &str| record(serde_json::Value::String(value.to_owned()));
    let reason = |bad: Vec<u8>| {
        let records = vec![text(r#"{ "a": true }"#), bad, text(r#"{ "b": true }"#)];
        read_enabled_modules(Settings::Records(records)).unwrap_err()
    };
    assert_eq!(reason(record(serde_json::Value::Bool(true))), "the module configuration is not a string");
    assert_eq!(
        reason(br#"{ "key": "core.moduleConfiguration" }"#.to_vec()),
        "the module configuration is not a string"
    );
    assert_eq!(reason(text("[]")), "the module configuration is not a JSON object");
    assert!(reason(text("{ oops")).starts_with("could not parse the module configuration: "));

    let entries = vec![world("w", "pf2e", Settings::Records(vec![text("[]")]))];
    let usage = scan_usage(&fake_foundry(), Listing::Entries(entries)).unwrap();
    assert_eq!(usage.systems, ["pf2e"]);
    assert_eq!(
        usage.unreadable,
        [("w".to_owned(), "the module configuration is not a JSON object".to_owned())]
    );
}

/// Every way a database can be unreadable has its own reason.
#[test]
fn unreadable_databases_have_reasons() {
    let why = || "x".to_owned();
    let reason = |settings: Settings| read_enabled_modules(settings).unwrap_err();
    assert_eq!(reason(Settings::NoTemporaryDirectory(why())), "could not create a temp dir: x");
    assert_eq!(reason(Settings::NotCopied(why())), "could not copy the world database: x");
    assert_eq!(reason(Settings::NotOpened(why())), "could not open the world database: x");
    assert_eq!(reason(Settings::NotIterated(why())), "could not iterate the world database: x");
}
