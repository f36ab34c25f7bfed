//! Where state lives, and where programs are looked for.

use setbuddy::paths::{
    adopts, augmented_path, cache_dir, database_path, fits, join_path, looks_for_previous,
    previous_name, program_places, renames, short_hash, socket_path_for, state_dir, tool_dirs, App,
};

fn text(bytes: &[u8]) -> String {
    String::from_utf8(bytes.to_vec()).unwrap()
}

fn dirs(list: &[&str]) -> Vec<Vec<u8>> {
    list.iter().map(|d| d.as_bytes().to_vec()).collect()
}

fn split_paths(path: &[u8]) -> Vec<String> {
    text(path).split(':').map(String::from).collect()
}

/// An app started from the desktop sees only the system directories, so every
/// tool it runs would look absent.
#[test]
fn a_launchd_path_regains_the_package_manager_directories() {
    let gui = b"/usr/bin:/bin:/usr/sbin:/sbin";
    let augmented = augmented_path(gui, &dirs(&["/opt/homebrew/bin", "/usr/local/bin"]));
    let dirs = split_paths(&augmented);
    assert!(dirs.contains(&String::from("/opt/homebrew/bin")));
    assert!(dirs.contains(&String::from("/usr/local/bin")));
}

#[test]
fn the_existing_path_keeps_its_order_and_its_precedence() {
    let shell = b"/my/tools:/usr/bin";
    let augmented = augmented_path(shell, &dirs(&["/opt/homebrew/bin"]));
    assert_eq!(
        split_paths(&augmented),
        ["/my/tools", "/usr/bin", "/opt/homebrew/bin"]
    );
}

#[test]
fn a_directory_already_on_path_is_not_added_again() {
    let already = b"/opt/homebrew/bin:/usr/bin";
    let augmented = augmented_path(already, &dirs(&["/opt/homebrew/bin", "/usr/local/bin"]));
    let dirs = split_paths(&augmented);
    assert_eq!(
        dirs.iter().filter(|d| *d == "/opt/homebrew/bin").count(),
        1
    );
    assert_eq!(dirs.len(), 3);
}

/// An empty part means the working directory, which is no place to look for a
/// program.
#[test]
fn an_unset_path_does_not_gain_the_working_directory() {
    let augmented = augmented_path(b"", &dirs(&["/opt/homebrew/bin"]));
    assert_eq!(split_paths(&augmented), ["/opt/homebrew/bin"]);
}

#[test]
fn a_directory_that_cannot_be_listed_leaves_the_path_alone() {
    let augmented = augmented_path(b"/usr/bin", &dirs(&["/odd:name"]));
    assert_eq!(augmented, b"/usr/bin");
}

#[test]
fn a_trailing_slash_names_the_same_directory() {
    let augmented = augmented_path(b"/usr/bin/", &dirs(&["/usr/bin"]));
    assert_eq!(split_paths(&augmented), ["/usr/bin/"]);
}

/// A disk of files by their paths.
struct Disk(Vec<(String, String)>);

impl Disk {
    fn is_dir(&self, dir: &str) -> bool {
        self.0.iter().any(|(p, _)| p.starts_with(&format!("{dir}/")))
    }

    fn read(&self, path: &str) -> Option<&str> {
        self.0.iter().find(|(p, _)| p == path).map(|(_, c)| c.as_str())
    }

    fn rename(&mut self, from: &str, to: &str) {
        for (path, _) in self.0.iter_mut() {
            if path == from {
                *path = to.to_string();
            } else if let Some(rest) = path.strip_prefix(&format!("{from}/")) {
                *path = format!("{to}/{rest}");
            }
        }
    }

    fn adopt(&mut self, previous: &str, current: &str) {
        if !adopts(self.is_dir(previous), self.is_dir(current)) {
            return;
        }
        self.rename(previous, current);
        for (from, to) in renames() {
            self.rename(&format!("{current}/{from}"), &format!("{current}/{to}"));
        }
    }
}

/// The rename must not cost the user their library.
#[test]
fn a_library_under_the_previous_name_is_adopted_whole() {
    let previous = format!("/data/{}", previous_name());
    let current = "/data/Setbuddy";
    let mut disk = Disk(Vec::new());
    for suffix in ["", "-wal", "-shm"] {
        disk.0
            .push((format!("{previous}/setwave.db{suffix}"), suffix.to_string()));
    }
    disk.0
        .push((format!("{previous}/artwork/cover.jpg"), "art".to_string()));

    disk.adopt(&previous, current);

    assert!(!disk.is_dir(&previous), "the old directory is moved, not copied");
    assert_eq!(
        disk.read("/data/Setbuddy/artwork/cover.jpg"),
        Some("art"),
        "artwork came too"
    );
    for suffix in ["", "-wal", "-shm"] {
        assert_eq!(
            disk.read(&format!("/data/Setbuddy/setbuddy.db{suffix}")),
            Some(suffix),
            "every file must arrive under the new name"
        );
    }

    // Second run: there is a library in place, so nothing is touched.
    disk.0.push((format!("{previous}/stray.db"), String::new()));
    disk.adopt(&previous, current);
    assert!(
        disk.read(&format!("{previous}/stray.db")).is_some(),
        "an existing library wins"
    );
}

#[test]
fn the_previous_name_is_only_looked_for_where_nothing_was_asked_for() {
    assert!(looks_for_previous(false, false));
    assert!(!looks_for_previous(true, false));
    assert!(!looks_for_previous(false, true));
}

#[test]
fn short_state_directories_keep_the_socket_beside_the_database() {
    let path = socket_path_for(App::Setwave, b"/Users/x/Library/Setwave", b"/tmp");
    assert_eq!(text(&path), "/Users/x/Library/Setwave/mpv.sock");
}

#[test]
fn paths_short_state_directories_keep_the_socket_beside_the_database() {
    let path = socket_path_for(App::Setbuddy, b"/Users/x/Library/Setbuddy", b"/tmp");
    assert_eq!(text(&path), "/Users/x/Library/Setbuddy/engine.sock");
}

#[test]
fn deep_state_directories_fall_back_to_a_short_path() {
    let deep = b"/private/tmp/people-501/-Users-someone-projects-setwave/             1641e1f3-c0f7-4dab-b6f1-8a40d1ccf300/scratchpad/state";
    let path = socket_path_for(App::Setwave, deep, b"/tmp");
    assert!(fits(&path), "fallback must fit: {}", text(&path));
    assert!(text(&path).starts_with("/tmp/"));
}

#[test]
fn paths_deep_state_directories_fall_back_to_a_short_path() {
    let deep = b"/private/tmp/people-501/-Users-someone-projects-setbuddy/             1641e1f3-c0f7-4dab-b6f1-8a40d1ccf300/scratchpad/state";
    let path = socket_path_for(App::Setbuddy, deep, b"/tmp");
    assert!(fits(&path), "fallback must fit: {}", text(&path));
    assert!(text(&path).starts_with("/tmp/"));
}

#[test]
fn the_fallback_is_stable_and_collision_free() {
    let a = "/very/long/path/".repeat(8);
    let b = format!("{}/other", a);
    let temp = b"/tmp";
    assert_eq!(
        socket_path_for(App::Setwave, a.as_bytes(), temp),
        socket_path_for(App::Setwave, a.as_bytes(), temp),
        "the same state dir must always resolve to the same socket"
    );
    assert_ne!(
        socket_path_for(App::Setwave, a.as_bytes(), temp),
        socket_path_for(App::Setwave, b.as_bytes(), temp),
        "different state dirs must not share a socket"
    );
}

#[test]
fn paths_the_fallback_is_stable_and_collision_free() {
    let a = "/very/long/path/".repeat(8);
    let b = format!("{}/other", a);
    let temp = b"/tmp";
    assert_eq!(
        socket_path_for(App::Setbuddy, a.as_bytes(), temp),
        socket_path_for(App::Setbuddy, a.as_bytes(), temp),
        "the same state dir must always resolve to the same socket"
    );
    assert_ne!(
        socket_path_for(App::Setbuddy, a.as_bytes(), temp),
        socket_path_for(App::Setbuddy, b.as_bytes(), temp),
        "different state dirs must not share a socket"
    );
}

#[test]
fn a_long_temporary_directory_is_no_place_for_the_socket() {
    let long = "/long".repeat(40);
    let path = socket_path_for(App::Setbuddy, long.as_bytes(), long.as_bytes());
    assert!(text(&path).starts_with("/tmp/setbuddy-"));
    assert!(fits(&path));
    assert!(fits(&[47u8; 100]));
    assert!(!fits(&[47u8; 101]));
}

#[test]
fn hashes_take_every_byte_in() {
    assert_eq!(text(&short_hash(b"")), "cbf29ce484222325");
    assert_eq!(text(&short_hash(b"a")), "af63dc4c8601ec8c");
    assert_eq!(text(&short_hash(b"foobar")), "85944171f73967e8");
    assert_ne!(short_hash(b"ab"), short_hash(b"ba"));
}

#[test]
fn the_state_directory_is_the_one_asked_for_or_the_applications_own() {
    let here = state_dir(App::Setbuddy, Some(b"/asked"), Some(b"/data"), b"/tmp");
    assert_eq!(text(&here), "/asked");
    let here = state_dir(App::Setbuddy, None, Some(b"/data"), b"/tmp");
    assert_eq!(text(&here), "/data/Setbuddy");
    let here = state_dir(App::Setwave, None, None, b"/tmp/");
    assert_eq!(text(&here), "/tmp/Setwave");
    assert_eq!(text(&database_path(App::Setwave, &here)), "/tmp/Setwave/setwave.db");
    assert_eq!(text(&database_path(App::Setbuddy, &here)), "/tmp/Setwave/setbuddy.db");
    assert_eq!(text(&cache_dir(&here)), "/tmp/Setwave/artwork");
    assert_eq!(text(&join_path(b"", b"x")), "x");
}

#[test]
fn programs_are_looked_for_along_the_path() {
    let places = program_places(b"/usr/bin::/opt/bin/", b"mpv");
    let places: Vec<String> = places.iter().map(|p| text(p)).collect();
    assert_eq!(places, ["/usr/bin/mpv", "mpv", "/opt/bin/mpv"]);
    assert!(tool_dirs(true).len() > tool_dirs(false).len());
}
