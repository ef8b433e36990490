use caesar::paths::{
    resolve_discord_paths, select_latest_build, DirEntry, DiscordFlavor, DiscordPathResolver,
    ResolveError,
};

fn dir_entry(name: &str) -> DirEntry {
    DirEntry { name: name.to_string(), is_dir: true, is_file: false }
}

fn file_entry(name: &str) -> DirEntry {
    DirEntry { name: name.to_string(), is_dir: false, is_file: true }
}

const BASE: &str = "C:/Users/someone/AppData/Local/Discord";

#[test]
fn missing_folder_yields_empty() {
    let flavors = vec![
        DiscordFlavor::Stable,
        DiscordFlavor::Ptb,
        DiscordFlavor::Canary,
        DiscordFlavor::Dev,
    ];
    for flavor in flavors {
        let r = resolve_discord_paths(flavor, &BASE.to_string(), None);
        let records = r.expect("an unreadable base folder is not an error");
        assert!(records.is_empty());
    }
}

#[test]
fn reverse_lexicographic_pick() {
    let entries = vec![
        dir_entry("app-1.0.0"),
        dir_entry("app-1.0.9"),
        dir_entry("app-1.0.10"),
    ];
    let r = resolve_discord_paths(DiscordFlavor::Stable, &BASE.to_string(), Some(&entries));
    let records = r.expect("a matching build folder was present");
    assert_eq!(records.len(), 1);
    // A string-sort artifact, asserted on purpose: "app-1.0.9" sorts after
    // "app-1.0.10", so it is picked although 1.0.10 is the newer version.
    assert_eq!(
        records[0].directory_path,
        "C:/Users/someone/AppData/Local/Discord/app-1.0.9"
    );
}

#[test]
fn single_match_asar_path() {
    let entries = vec![dir_entry("app-2.0.0")];
    let r = resolve_discord_paths(DiscordFlavor::Stable, &BASE.to_string(), Some(&entries));
    let records = r.expect("a matching build folder was present");
    assert_eq!(records.len(), 1);
    assert_eq!(
        records[0].directory_path,
        "C:/Users/someone/AppData/Local/Discord/app-2.0.0"
    );
    assert_eq!(
        records[0].asar_path,
        "C:/Users/someone/AppData/Local/Discord/app-2.0.0/resources/app.asar"
    );
    assert_eq!(records[0].flavor, DiscordFlavor::Stable);
}

#[test]
fn no_versioned_build_is_an_error() {
    let entries = vec![
        dir_entry("packages"),
        dir_entry("blob_storage"),
        file_entry("installer.log"),
    ];
    let r = resolve_discord_paths(DiscordFlavor::Canary, &BASE.to_string(), Some(&entries));
    assert_eq!(r.unwrap_err(), ResolveError::NoVersionedBuildFound);
}

#[test]
fn matching_prefix_on_a_file_does_not_count() {
    // An entry whose name matches the marker but which is not a directory is
    // not a candidate; with no directory candidate at all this is an error.
    let entries = vec![file_entry("app-9.9.9"), dir_entry("packages")];
    let r = resolve_discord_paths(DiscordFlavor::Stable, &BASE.to_string(), Some(&entries));
    assert_eq!(r.unwrap_err(), ResolveError::NoVersionedBuildFound);
}

#[test]
fn files_are_skipped_in_favor_of_directories() {
    let entries = vec![file_entry("app-9.9.9"), dir_entry("app-1.0.0")];
    let r = resolve_discord_paths(DiscordFlavor::Stable, &BASE.to_string(), Some(&entries));
    let records = r.expect("a matching build directory was present");
    assert_eq!(records.len(), 1);
    assert_eq!(
        records[0].directory_path,
        "C:/Users/someone/AppData/Local/Discord/app-1.0.0"
    );
}

#[test]
fn resolving_twice_agrees() {
    let entries = vec![
        dir_entry("app-0.3.1"),
        dir_entry("app-0.10.5"),
        dir_entry("packages"),
    ];
    let base = BASE.to_string();
    let first = resolve_discord_paths(DiscordFlavor::Ptb, &base, Some(&entries)).unwrap();
    let second = resolve_discord_paths(DiscordFlavor::Ptb, &base, Some(&entries)).unwrap();
    assert_eq!(first.len(), second.len());
    for (a, b) in first.iter().zip(second.iter()) {
        assert_eq!(a.flavor, b.flavor);
        assert_eq!(a.directory_path, b.directory_path);
        assert_eq!(a.asar_path, b.asar_path);
    }
}

#[test]
fn resolve_through_the_trait() {
    let entries = vec![dir_entry("app-1.2.3")];
    let base = "/home/someone/.local/share/DiscordCanary".to_string();
    let r = DiscordFlavor::Canary.resolve_discord_paths(&base, Some(&entries));
    let records = r.unwrap();
    assert_eq!(records.len(), 1);
    assert_eq!(records[0].flavor, DiscordFlavor::Canary);
    assert_eq!(
        records[0].directory_path,
        "/home/someone/.local/share/DiscordCanary/app-1.2.3"
    );
}

#[test]
fn select_latest_build_picks_the_greatest_name() {
    let entries = vec![
        dir_entry("app-1.0.0"),
        dir_entry("zzz"),
        dir_entry("app-1.0.9"),
        dir_entry("app-1.0.10"),
        file_entry("app-veryhigh"),
    ];
    assert_eq!(select_latest_build(&entries).unwrap(), "app-1.0.9");
}

#[test]
fn select_latest_build_on_no_candidates() {
    let entries = vec![dir_entry("packages"), file_entry("app-1.0.0")];
    assert!(select_latest_build(&entries).is_none());
    assert!(select_latest_build(&Vec::new()).is_none());
}

#[test]
fn base_directory_joins_the_folder_name() {
    let root = "C:/Users/someone/AppData/Local".to_string();
    let r = DiscordFlavor::Ptb.base_directory(Some(&root));
    assert_eq!(r.unwrap(), "C:/Users/someone/AppData/Local/DiscordPTB");
}

#[test]
fn base_directory_without_a_root_is_misconfigured() {
    let r = DiscordFlavor::Stable.base_directory(None);
    assert_eq!(r.unwrap_err(), ResolveError::EnvironmentMisconfigured);
}
