use lodestone_core::error::ErrorKind;
use lodestone_core::identity::{instance_dir_name, short_prefix};
use lodestone_core::path::{is_file_protected, relative_to_root, scoped_join};

const ROOT: &str = "/srv/instances/survival-1234abcd";

fn kind_of(r: Result<String, lodestone_core::error::Error>) -> ErrorKind {
    match r {
        Ok(p) => panic!("expected an error, got {}", p),
        Err(e) => e.kind,
    }
}

#[test]
fn resolve_rejects_parent_escape() {
    assert_eq!(kind_of(scoped_join(ROOT, "../../etc/passwd")), ErrorKind::MalformedPath);
}

#[test]
fn resolve_rejects_backslash_escape() {
    assert_eq!(kind_of(scoped_join(ROOT, "..\\..\\secret")), ErrorKind::MalformedPath);
}

#[test]
fn resolve_joins_segments() {
    assert_eq!(scoped_join(ROOT, "a/b/c").unwrap(), format!("{}/a/b/c", ROOT));
}

#[test]
fn resolve_treats_backslash_as_separator() {
    assert_eq!(scoped_join(ROOT, "a\\b\\c.txt").unwrap(), format!("{}/a/b/c.txt", ROOT));
}

#[test]
fn resolve_keeps_absolute_paths_inside_root() {
    assert_eq!(scoped_join(ROOT, "/etc/passwd").unwrap(), format!("{}/etc/passwd", ROOT));
}

#[test]
fn resolve_inner_parent_stays_inside() {
    assert_eq!(scoped_join(ROOT, "a/../b").unwrap(), format!("{}/b", ROOT));
    assert_eq!(scoped_join(ROOT, "./a//./b/").unwrap(), format!("{}/a/b", ROOT));
}

#[test]
fn resolve_inner_parent_escape_fails() {
    assert_eq!(kind_of(scoped_join(ROOT, "a/../../x")), ErrorKind::MalformedPath);
    assert_eq!(kind_of(scoped_join(ROOT, "..")), ErrorKind::MalformedPath);
}

#[test]
fn resolve_empty_is_root() {
    assert_eq!(scoped_join(ROOT, "").unwrap(), ROOT);
    assert_eq!(scoped_join(ROOT, "a/..").unwrap(), ROOT);
}

#[test]
fn protected_extensions() {
    assert!(is_file_protected("/srv/i/server.jar"));
    assert!(is_file_protected("/srv/i/start.sh"));
    assert!(is_file_protected("/srv/i/.lodestone_config"));
    assert!(is_file_protected("/srv/i/plugins/run.bat"));
    assert!(is_file_protected("C:\\srv\\setup.msi"));
    assert!(is_file_protected("/srv/i/x.lua"));
    assert!(is_file_protected("/srv/i/x.exe"));
    assert!(is_file_protected("/srv/i/x.cmd"));
    assert!(is_file_protected("/srv/i/x.out"));
    assert!(is_file_protected("/srv/i/x.inf"));
}

#[test]
fn no_extension_is_protected() {
    assert!(is_file_protected("/srv/i/eula"));
    assert!(is_file_protected("/srv/i/.hidden"));
    assert!(is_file_protected("/srv/i/dir/"));
    assert!(is_file_protected(""));
}

#[test]
fn ordinary_files_are_not_protected() {
    assert!(!is_file_protected("/srv/i/server.properties"));
    assert!(!is_file_protected("/srv/i/world/level.dat"));
    assert!(!is_file_protected("/srv/i/archive.jar.txt"));
    assert!(!is_file_protected("/srv/i/.config.json"));
    assert!(!is_file_protected("/srv/i/trailing."));
    assert!(!is_file_protected("/srv/i/SERVER.JAR"));
}

#[test]
fn relative_paths_below_root() {
    assert_eq!(relative_to_root("/srv/i", "/srv/i/world/level.dat"), Some("world/level.dat".to_string()));
    assert_eq!(relative_to_root("/srv/i", "/srv/i"), Some(String::new()));
    assert_eq!(relative_to_root("/srv/i", "/srv/ix/a"), None);
    assert_eq!(relative_to_root("/srv/i", "/srv"), None);
}

#[test]
fn directory_name_carries_short_prefix() {
    let id: u128 = (0x1234abcdu128 << 96) | 0xffff;
    assert_eq!(short_prefix(id), 0x1234abcd);
    assert_eq!(instance_dir_name("survival", id), "survival-1234abcd");
    assert_eq!(instance_dir_name("x", 7), "x-00000000");
    assert_eq!(instance_dir_name("", u128::MAX), "-ffffffff");
}
