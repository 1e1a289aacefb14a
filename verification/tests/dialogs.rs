use libexodus::dialogs::{
    CreateNewMapDialog, CreateNewMapDialogInput, EditMessageDialog, EditMessageDialogInput, SaveFileDialog,
    SaveFileDialogInput, UnsavedChangesDialog, UnsavedChangesDialogInput,
};
use libexodus::directories::GameDirectories;
use libexodus::tiles::Tile;
use libexodus::tilesets::Tileset;
use libexodus::worldgeneration::{WorldGenerationKind, WorldSize};
use std::path::{Path, PathBuf};

fn directories() -> GameDirectories {
    GameDirectories::Mock("".into(), "/var/maps".into(), "/var/cfg".into())
}

#[test]
fn unsaved_changes_dialog_answers() {
    let mut dialog = UnsavedChangesDialog::new("Discard the map?");
    assert_eq!(dialog.dialog_title(), "There are unsaved changes!");
    assert!(!dialog.is_done());
    assert!(!dialog.is_cancelled());
    dialog.handle(UnsavedChangesDialogInput::No);
    assert!(dialog.is_cancelled());
    assert!(!dialog.is_done());
    dialog.handle(UnsavedChangesDialogInput::Yes);
    assert!(dialog.is_done());
    assert!(!dialog.is_cancelled());
}

#[test]
fn edit_message_dialog_takes_text_until_confirmed() {
    let mut dialog = EditMessageDialog::new(3, "Hello".to_string());
    assert_eq!(dialog.get_message(), "Hello");
    assert_eq!(dialog.get_message_id(), 3);
    assert!(!dialog.is_done());
    assert!(!dialog.is_cancelled());
    dialog.handle(EditMessageDialogInput::Text("Hello, World!".to_string()));
    assert_eq!(dialog.get_message(), "Hello, World!");
    dialog.handle(EditMessageDialogInput::Confirm);
    assert!(dialog.is_done());
    dialog.handle(EditMessageDialogInput::Text("ignored".to_string()));
    assert_eq!(dialog.get_message(), "Hello, World!");
    assert_eq!(dialog.get_message_id(), 3);
    assert!(!dialog.is_cancelled());
}

#[test]
fn save_file_dialog_starts_from_the_map() {
    let directories = directories();
    let path = PathBuf::from("/var/maps/campaign/level.exm");
    let dialog = SaveFileDialog::new(Some(path.as_path()), "Level", "Someone", "0a1b", &directories, None);
    assert_eq!(dialog.get_map_title(), "Level");
    assert_eq!(dialog.get_map_author(), "Someone");
    assert_eq!(dialog.get_filename(), None);
    assert_eq!(dialog.get_forced_tileset(), None);
    assert!(!dialog.is_done());
    assert!(!dialog.is_cancelled());
    let forced = SaveFileDialog::new(None, "", "", "", &directories, Some(Tileset::Classic));
    assert_eq!(forced.get_forced_tileset(), Some(Tileset::Classic));
    let outside = SaveFileDialog::new(Some(Path::new("/elsewhere/level.exm")), "", "", "", &directories, None);
    assert_eq!(outside.get_filename(), None);
}

#[test]
fn save_file_dialog_saves_new_file() {
    let directories = directories();
    let mut dialog = SaveFileDialog::new(None, "Level", "Someone", "0a1b", &directories, None);
    dialog.handle(SaveFileDialogInput::FileName("My Map".to_string()), &directories);
    dialog.handle(SaveFileDialogInput::MapTitle("Better Level".to_string()), &directories);
    dialog.handle(SaveFileDialogInput::MapAuthor("Someone Else".to_string()), &directories);
    dialog.handle(SaveFileDialogInput::Save { target_exists: false }, &directories);
    assert!(dialog.is_done());
    assert_eq!(dialog.get_filename(), Some(PathBuf::from("/var/maps/my_map.exm")));
    assert_eq!(dialog.get_map_title(), "Better Level");
    assert_eq!(dialog.get_map_author(), "Someone Else");
    // Fields take no edits once the dialog is done.
    dialog.handle(SaveFileDialogInput::MapTitle("Ignored".to_string()), &directories);
    assert_eq!(dialog.get_map_title(), "Better Level");
}

#[test]
fn save_file_dialog_asks_before_overwriting() {
    let directories = directories();
    let mut dialog = SaveFileDialog::new(None, "", "", "", &directories, None);
    dialog.handle(SaveFileDialogInput::FileName("level".to_string()), &directories);
    dialog.handle(SaveFileDialogInput::Save { target_exists: true }, &directories);
    assert!(!dialog.is_done());
    assert_eq!(dialog.get_filename(), Some(PathBuf::from("/var/maps/level.exm")));
    dialog.handle(SaveFileDialogInput::RejectOverwrite, &directories);
    assert!(!dialog.is_done());
    dialog.handle(SaveFileDialogInput::Save { target_exists: true }, &directories);
    dialog.handle(SaveFileDialogInput::ConfirmOverwrite, &directories);
    assert!(dialog.is_done());
}

#[test]
fn save_file_dialog_reports_bad_names() {
    let directories = directories();
    let mut dialog = SaveFileDialog::new(None, "", "", "", &directories, None);
    dialog.handle(SaveFileDialogInput::FileName("what?".to_string()), &directories);
    dialog.handle(SaveFileDialogInput::Save { target_exists: false }, &directories);
    assert!(!dialog.is_done());
    assert_eq!(dialog.get_filename(), None);
    // While the error shows, the fields take no edits.
    dialog.handle(SaveFileDialogInput::FileName("fine".to_string()), &directories);
    dialog.handle(SaveFileDialogInput::Save { target_exists: false }, &directories);
    assert!(!dialog.is_done());
    dialog.handle(SaveFileDialogInput::Acknowledge, &directories);
    dialog.handle(SaveFileDialogInput::FileName("fine".to_string()), &directories);
    dialog.handle(SaveFileDialogInput::Save { target_exists: false }, &directories);
    assert!(dialog.is_done());
    assert_eq!(dialog.get_filename(), Some(PathBuf::from("/var/maps/fine.exm")));
}

#[test]
fn save_file_dialog_texture_pack_and_cancel() {
    let directories = directories();
    let mut dialog = SaveFileDialog::new(None, "", "", "", &directories, None);
    // The list of texture packs is disabled until one is forced.
    dialog.handle(SaveFileDialogInput::TexturePack(Tileset::Classic), &directories);
    dialog.handle(SaveFileDialogInput::ForceTexturePack(true), &directories);
    assert_eq!(dialog.get_forced_tileset(), Some(Tileset::TinyPlatformQuestTiles));
    dialog.handle(SaveFileDialogInput::TexturePack(Tileset::Classic), &directories);
    assert_eq!(dialog.get_forced_tileset(), Some(Tileset::Classic));
    dialog.handle(SaveFileDialogInput::ForceTexturePack(false), &directories);
    assert_eq!(dialog.get_forced_tileset(), None);
    dialog.handle(SaveFileDialogInput::Cancel, &directories);
    assert!(dialog.is_cancelled());
    assert!(!dialog.is_done());
}

#[test]
fn create_new_map_dialog_sizes() {
    let mut dialog = CreateNewMapDialog::default();
    assert_eq!(dialog.get_width(), 35);
    assert_eq!(dialog.get_height(), 15);
    dialog.handle(CreateNewMapDialogInput::CustomWidth(10));
    assert_eq!(dialog.get_width(), 35);
    dialog.handle(CreateNewMapDialogInput::Size(WorldSize::Huge));
    assert_eq!(dialog.get_width(), 50);
    assert_eq!(dialog.get_height(), 20);
    dialog.handle(CreateNewMapDialogInput::Size(WorldSize::Custom { width: 5, height: 6 }));
    dialog.handle(CreateNewMapDialogInput::CustomWidth(100));
    dialog.handle(CreateNewMapDialogInput::CustomHeight(0));
    assert_eq!(dialog.get_width(), 64);
    assert_eq!(dialog.get_height(), 1);
    dialog.handle(CreateNewMapDialogInput::CustomWidth(12));
    dialog.handle(CreateNewMapDialogInput::CustomHeight(40));
    assert_eq!(dialog.get_width(), 12);
    assert_eq!(dialog.get_height(), 32);
}

#[test]
fn create_new_map_dialog_generation() {
    let mut dialog = CreateNewMapDialog::default();
    dialog.handle(CreateNewMapDialogInput::Kind(WorldGenerationKind::Filled { color: Tile::WALL }));
    dialog.handle(CreateNewMapDialogInput::Color(Tile::WALLNATURE));
    // Without a preview, accepting does nothing.
    dialog.handle(CreateNewMapDialogInput::Accept);
    dialog.handle(CreateNewMapDialogInput::Cancel);
    assert!(dialog.is_cancelled());
    let mut dialog = CreateNewMapDialog::default();
    assert!(dialog.generate_map().is_none());
    // A generation is under way: the dialog takes no more input.
    dialog.handle(CreateNewMapDialogInput::Cancel);
    assert!(!dialog.is_cancelled());
    assert!(!dialog.is_done());
}
