use libexodus::directories::{has_map_extension, map_file_parts, GameDirectories, InvalidMapNameError};
use std::path::PathBuf;

fn resolves_to(basedir: &str, mapinput: &str, expected: &str) {
    let directories = GameDirectories::Mock("".into(), basedir.into(), "".into());
    let result = directories.path_from_userinput(mapinput);
    assert!(result.is_ok());
    assert_eq!(result.as_ref().unwrap(), &PathBuf::from(expected));
}

fn resolves_to_and_back(basedir: &str, mapinput: &str, expected: &str) {
    let directories = GameDirectories::Mock("".into(), basedir.into(), "".into());
    let result = directories.path_from_userinput(mapinput);
    assert!(result.is_ok());
    assert_eq!(result.as_ref().unwrap(), &PathBuf::from(expected));
    let path_back = directories.relative_map_dir_from_path(&result.unwrap());
    assert!(path_back.is_ok());
    assert_eq!(path_back.unwrap(), mapinput);
}

fn errors_with(basedir: &str, mapinput: &str, offending: char) {
    let directories = GameDirectories::Mock("".into(), basedir.into(), "".into());
    let result = directories.path_from_userinput(mapinput);
    assert!(result.is_err());
    match result.unwrap_err() {
        InvalidMapNameError::InvalidCharacter { c } => assert_eq!(c, offending),
        e => panic!("Expected an invalid character, got {:?}", e),
    }
}

#[test]
fn map_from_simple() {
    resolves_to_and_back("/var/maps", "testmap.exm", "/var/maps/testmap.exm");
}

#[test]
fn map_from_with_whitespace() {
    resolves_to("/var/maps", "testmap 2.exm", "/var/maps/testmap_2.exm");
}

#[test]
fn map_from_without_extension() {
    resolves_to("/var/maps", "testmap 1234 new", "/var/maps/testmap_1234_new.exm");
}

#[test]
fn map_from_uppercase() {
    resolves_to("/var/maps", "TestMap 1234 NEW", "/var/maps/testmap_1234_new.exm");
}

#[test]
fn map_from_in_root() {
    resolves_to_and_back("/", "testmap.exm", "/testmap.exm");
}

#[test]
fn map_from_map_folder() {
    resolves_to_and_back(
        "/home/user/.local/share/libexodus/maps",
        "testmap.exm",
        "/home/user/.local/share/libexodus/maps/testmap.exm",
    );
}

#[test]
fn map_from_map_subfolder() {
    resolves_to_and_back(
        "/home/user/.local/share/libexodus/maps",
        "campaign/testmap.exm",
        "/home/user/.local/share/libexodus/maps/campaign/testmap.exm",
    );
}

#[test]
fn map_with_lt() {
    errors_with("/home", "test<map.exm", '<');
}

#[test]
fn map_with_gt() {
    errors_with("/home", "testmap>.exm", '>');
}

#[test]
fn map_with_colon() {
    errors_with("/home", "test:map.exm", ':');
}

#[test]
fn map_with_quotes() {
    errors_with("/home", "\"testmap.exm\"", '"');
}

#[test]
fn map_with_pipe() {
    errors_with("/home", "testmap|.exm", '|');
}

#[test]
fn map_with_backslash() {
    errors_with("/home", "testmap\\.exm", '\\');
}

#[test]
fn map_with_question() {
    errors_with("/home", "testmap?.exm", '?');
}

#[test]
fn map_with_asterisk() {
    errors_with("/home", "testmap*.exm", '*');
}

#[test]
fn test_empty_map() {
    let directories = GameDirectories::Mock("".into(), "/maps".into(), "".into());
    let result = directories.path_from_userinput("");
    assert!(result.is_err());
    assert!(matches!(result.unwrap_err(), InvalidMapNameError::EmptyName))
}

#[test]
fn map_name_of_white_space_only_is_empty() {
    let result = map_file_parts(" \t  ");
    assert!(matches!(result, Err(InvalidMapNameError::EmptyName)));
}

#[test]
fn map_file_parts_skip_empty_pieces() {
    let parts = map_file_parts("  //Campaign  One//Level.EXM ").unwrap();
    assert_eq!(parts, vec!["campaign__one".to_string(), "level.exm".to_string()]);
    let parts = map_file_parts("a/").unwrap();
    assert_eq!(parts, vec!["a".to_string(), ".exm".to_string()]);
}

#[test]
fn config_and_highscores_files() {
    let directories = GameDirectories::Mock("".into(), "/maps".into(), "/cfg".into());
    assert_eq!(directories.config_file(), PathBuf::from("/cfg/config.exc"));
    assert_eq!(directories.highscores_file(), PathBuf::from("/cfg/score.exh"));
}

#[test]
fn relative_map_dir_outside_maps_folder() {
    let directories = GameDirectories::Mock("".into(), "/maps".into(), "/cfg".into());
    let result = directories.relative_map_dir_from_path(&PathBuf::from("/elsewhere/map.exm"));
    assert!(matches!(result, Err(InvalidMapNameError::NotASubpath { .. })));
}

#[test]
fn directories_from_base() {
    let directories = GameDirectories::from_base_dir(PathBuf::from("/base"));
    assert_eq!(directories.maps_dir, PathBuf::from("/base/maps"));
    assert_eq!(directories.config_dir, PathBuf::from("/base/config"));
}

#[test]
fn map_files_are_told_by_their_extension() {
    assert!(has_map_extension(Some("exm")));
    assert!(has_map_extension(Some("EXM")));
    assert!(has_map_extension(Some("eXm")));
    assert!(!has_map_extension(Some("exc")));
    assert!(!has_map_extension(Some("exmx")));
    assert!(!has_map_extension(Some("")));
    assert!(!has_map_extension(None));
}

#[test]
fn path_error_messages() {
    let directories = GameDirectories::Mock("".into(), "/maps".into(), "/cfg".into());
    let err = directories.relative_map_dir_from_path(&PathBuf::from("/elsewhere/map.exm")).unwrap_err();
    assert_eq!(err.to_string(), "Not a sub path of map folder: prefix not found");
    let err = InvalidMapNameError::InvalidPath { p: PathBuf::from("/a/b.exm") };
    assert_eq!(err.to_string(), "Invalid path: \"/a/b.exm\"");
}
