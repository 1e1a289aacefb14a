//! The state of the game's dialogs, and what each of their buttons and fields does to it.
//!
//! Drawing a dialog is the front end's work; what a click or an edit changes is decided here,
//! by the `handle` method of each dialog.
use crate::directories::{
    clone_path, map_file_name, map_name_message, map_path, owned_path, path_parts, relative_map_name, GameDirectories,
    MapNameErrorView,
};
use crate::tiles::Tile;
use crate::tilesets::Tileset;
use crate::world::GameWorld;
use crate::worldgeneration::{WorldGenerationKind, WorldSize};
use std::path::{Path, PathBuf};
use vstd::prelude::*;

verus! {

/// Where a dialog that asks about unsaved changes stands.
#[derive(Debug, Clone, Copy, PartialEq, Eq, Structural)]
#[allow(non_camel_case_types)]
pub enum UnsavedChangesDialogState {
    CHOOSING,
    YES,
    NO,
}

/// What the player can do in a dialog that asks about unsaved changes.
#[derive(Debug, Clone, Copy, PartialEq, Eq, Structural)]
pub enum UnsavedChangesDialogInput {
    /// The "Yes" button.
    Yes,
    /// The "No" button.
    No,
}

/// Asks whether changes that are not saved may be discarded.
pub struct UnsavedChangesDialog {
    /// The message that is shown to the user
    message: String,
    state: UnsavedChangesDialogState,
}

impl UnsavedChangesDialog {
    /// The message that is shown to the user.
    pub closed spec fn message(self) -> Seq<char> {
        self.message@
    }

    /// Where the dialog stands.
    pub closed spec fn state(self) -> UnsavedChangesDialogState {
        self.state
    }

    /// A dialog that shows `message` and waits for an answer.
    pub fn new(message: &str) -> (r: Self)
        ensures
            r.message() == message@,
            r.state() == UnsavedChangesDialogState::CHOOSING,
    {
        UnsavedChangesDialog { message: String::from_str(message), state: UnsavedChangesDialogState::CHOOSING }
    }

    /// The title of the dialog.
    pub fn dialog_title(&self) -> (r: &'static str)
        ensures
            r@ == "There are unsaved changes!"@,
    {
        "There are unsaved changes!"
    }

    /// What a click does: "Yes" and "No" each settle the answer, also after an earlier one.
    pub fn handle(&mut self, input: UnsavedChangesDialogInput)
        ensures
            final(self).message() == old(self).message(),
            final(self).state() == (match input {
                UnsavedChangesDialogInput::Yes => UnsavedChangesDialogState::YES,
                UnsavedChangesDialogInput::No => UnsavedChangesDialogState::NO,
            }),
    {
        match input {
            UnsavedChangesDialogInput::Yes => self.state = UnsavedChangesDialogState::YES,
            UnsavedChangesDialogInput::No => self.state = UnsavedChangesDialogState::NO,
        }
    }

    /// The player agreed to discard the changes.
    pub fn is_done(&self) -> (r: bool)
        ensures
            r == (self.state() == UnsavedChangesDialogState::YES),
    {
        self.state == UnsavedChangesDialogState::YES
    }

    /// The player refused to discard the changes.
    pub fn is_cancelled(&self) -> (r: bool)
        ensures
            r == (self.state() == UnsavedChangesDialogState::NO),
    {
        self.state == UnsavedChangesDialogState::NO
    }
}

/// Where a dialog that edits the text of a message sign stands.
#[derive(Debug, Clone, Copy, PartialEq, Eq, Structural)]
pub enum EditMessageDialogState {
    Typing,
    Done,
}

/// What the player can do in a dialog that edits a message.
pub enum EditMessageDialogInput {
    /// The text field now holds this text.
    Text(String),
    /// The "OK" button.
    Confirm,
}

/// Edits the text of one message of a map.
pub struct EditMessageDialog {
    /// The message content
    message: String,
    /// The message to edit
    message_id: usize,
    /// The current state of the dialog
    state: EditMessageDialogState,
}

impl EditMessageDialog {
    /// The text of the message.
    pub closed spec fn message(self) -> Seq<char> {
        self.message@
    }

    /// The number of the message.
    pub closed spec fn message_id(self) -> usize {
        self.message_id
    }

    /// Where the dialog stands.
    pub closed spec fn state(self) -> EditMessageDialogState {
        self.state
    }

    /// A dialog that edits message number `message_id`, which now reads `message`.
    pub fn new(message_id: usize, message: String) -> (r: Self)
        ensures
            r.message() == message@,
            r.message_id() == message_id,
            r.state() == EditMessageDialogState::Typing,
    {
        EditMessageDialog { message, message_id, state: EditMessageDialogState::Typing }
    }

    pub fn get_message(&self) -> (r: &str)
        ensures
            r@ == self.message(),
    {
        self.message.as_str()
    }

    pub fn get_message_id(&self) -> (r: usize)
        ensures
            r == self.message_id(),
    {
        self.message_id
    }

    /// What an edit or a click does: both take effect only while the player is typing, and
    /// "OK" ends the typing.
    pub fn handle(&mut self, input: EditMessageDialogInput)
        ensures
            final(self).message_id() == old(self).message_id(),
            old(self).state() == EditMessageDialogState::Done ==> *final(self) == *old(self),
            old(self).state() == EditMessageDialogState::Typing ==> match input {
                EditMessageDialogInput::Text(text) => final(self).message() == text@ && final(self).state()
                    == EditMessageDialogState::Typing,
                EditMessageDialogInput::Confirm => final(self).message() == old(self).message() && final(self).state()
                    == EditMessageDialogState::Done,
            },
    {
        if self.state == EditMessageDialogState::Typing {
            match input {
                EditMessageDialogInput::Text(text) => self.message = text,
                EditMessageDialogInput::Confirm => self.state = EditMessageDialogState::Done,
            }
        }
    }

    /// The player has finished editing.
    pub fn is_done(&self) -> (r: bool)
        ensures
            r == (self.state() == EditMessageDialogState::Done),
    {
        self.state == EditMessageDialogState::Done
    }

    /// This dialog cannot be cancelled.
    pub fn is_cancelled(&self) -> (r: bool)
        ensures
            !r,
    {
        false
    }
}

/// Where a dialog that saves a map stands.
#[derive(Debug, Clone, Copy, PartialEq, Eq, Structural)]
pub enum SaveFileDialogState {
    Choosing,
    Overwrite,
    Done,
    Error,
    Cancelled,
}

/// What the player can do in a dialog that saves a map.
pub enum SaveFileDialogInput {
    /// The file name field now holds this text.
    FileName(String),
    /// The map name field now holds this text.
    MapTitle(String),
    /// The author field now holds this text.
    MapAuthor(String),
    /// The box that forces a texture pack on the map was set or cleared.
    ForceTexturePack(bool),
    /// A texture pack was picked from the list.
    TexturePack(Tileset),
    /// The "Save" button, with whether the file that the file name stands for exists already.
    Save { target_exists: bool },
    /// The "Cancel" button.
    Cancel,
    /// The "OK" button under an error.
    Acknowledge,
    /// The "Yes" button under the question whether to overwrite the file.
    ConfirmOverwrite,
    /// The "No" button under the question whether to overwrite the file.
    RejectOverwrite,
}

/// Everything a dialog that saves a map holds, as plain values.
pub struct SaveFileDialogView {
    pub file_name: Seq<char>,
    pub map_title: Seq<char>,
    pub map_author: Seq<char>,
    pub hash: Seq<char>,
    pub state: SaveFileDialogState,
    pub file_path: Option<PathBuf>,
    pub error_text: Seq<char>,
    pub force_texturepack: bool,
    pub texturepack: Tileset,
}

/// Asks for the file name, the name and the author of a map before it is saved.
pub struct SaveFileDialog {
    /// The file name to be saved
    file_name: String,
    /// The name of the map
    map_title: String,
    /// The name of the map author
    map_author: String,
    /// The hash of the map that is shown to the user
    hash: String,
    /// The current state of the dialog
    state: SaveFileDialogState,
    /// The finalized file path that is created as soon as the user presses the Save button
    file_path: Option<PathBuf>,
    /// Error text that is shown when an error occurs
    error_text: String,
    /// Whether or not to force the user to use a certain texture pack
    force_texturepack: bool,
    /// The texture pack the player is forced to use
    texturepack: Tileset,
}

impl View for SaveFileDialog {
    type V = SaveFileDialogView;

    closed spec fn view(&self) -> SaveFileDialogView {
        SaveFileDialogView {
            file_name: self.file_name@,
            map_title: self.map_title@,
            map_author: self.map_author@,
            hash: self.hash@,
            state: self.state,
            file_path: self.file_path,
            error_text: self.error_text@,
            force_texturepack: self.force_texturepack,
            texturepack: self.texturepack,
        }
    }
}

/// What a dialog that saves a map holds after the player edits a field or clicks a button
/// other than "Save", which depends on the file system.
pub open spec fn save_dialog_after(d: SaveFileDialogView, input: SaveFileDialogInput) -> SaveFileDialogView {
    let choosing = d.state == SaveFileDialogState::Choosing;
    match input {
        SaveFileDialogInput::FileName(s) => if choosing { SaveFileDialogView { file_name: s@, ..d } } else { d },
        SaveFileDialogInput::MapTitle(s) => if choosing { SaveFileDialogView { map_title: s@, ..d } } else { d },
        SaveFileDialogInput::MapAuthor(s) => if choosing { SaveFileDialogView { map_author: s@, ..d } } else { d },
        SaveFileDialogInput::ForceTexturePack(b) => if choosing { SaveFileDialogView { force_texturepack: b, ..d } } else { d },
        SaveFileDialogInput::TexturePack(t) => if choosing && d.force_texturepack {
            SaveFileDialogView { texturepack: t, ..d }
        } else {
            d
        },
        SaveFileDialogInput::Save { .. } => d,
        SaveFileDialogInput::Cancel => SaveFileDialogView { state: SaveFileDialogState::Cancelled, ..d },
        SaveFileDialogInput::Acknowledge => if d.state == SaveFileDialogState::Error {
            SaveFileDialogView { state: SaveFileDialogState::Choosing, ..d }
        } else {
            d
        },
        SaveFileDialogInput::ConfirmOverwrite => if d.state == SaveFileDialogState::Overwrite {
            SaveFileDialogView { state: SaveFileDialogState::Done, ..d }
        } else {
            d
        },
        SaveFileDialogInput::RejectOverwrite => if d.state == SaveFileDialogState::Overwrite {
            SaveFileDialogView { state: SaveFileDialogState::Choosing, ..d }
        } else {
            d
        },
    }
}

impl SaveFileDialog {
    /// A dialog for saving a map named `mapname` by `mapauthor` with the hash `uuid`. The
    /// file name starts as the name of `filename` relative to the maps folder, and empty where
    /// there is no file name or it has no such name. `forced_textures` is the texture pack that the map forces, if any.
    pub fn new(
        filename: Option<&Path>,
        mapname: &str,
        mapauthor: &str,
        uuid: &str,
        directories: &GameDirectories,
        forced_textures: Option<Tileset>,
    ) -> (r: Self)
        ensures
            r@.file_name == (match filename {
                Some(p) => match relative_map_name(directories.spec_maps_dir(), owned_path(p)) {
                    Ok(t) => t,
                    Err(_) => Seq::<char>::empty(),
                },
                None => Seq::<char>::empty(),
            }),
            r@.map_title == mapname@,
            r@.map_author == mapauthor@,
            r@.hash == uuid@,
            r@.state == SaveFileDialogState::Choosing,
            r@.file_path is None,
            r@.error_text == Seq::<char>::empty(),
            r@.force_texturepack == forced_textures is Some,
            r@.texturepack == (match forced_textures {
                Some(t) => t,
                None => Tileset::TinyPlatformQuestTiles,
            }),
    {
        let file_name = match filename {
            Some(p) => match directories.relative_map_dir_from_path(p) {
                Ok(name) => name,
                Err(_) => String::new(),
            },
            None => String::new(),
        };
        let texturepack = match forced_textures {
            Some(t) => t,
            None => Tileset::default(),
        };
        SaveFileDialog {
            file_name,
            map_title: String::from_str(mapname),
            map_author: String::from_str(mapauthor),
            hash: String::from_str(uuid),
            state: SaveFileDialogState::Choosing,
            file_path: None,
            error_text: String::new(),
            force_texturepack: forced_textures.is_some(),
            texturepack,
        }
    }

    /// Resolve the file name and return the full path
    pub fn get_filename(&self) -> (r: Option<PathBuf>)
        ensures
            r == self@.file_path,
    {
        match &self.file_path {
            Some(p) => Some(clone_path(p)),
            None => None,
        }
    }

    pub fn get_map_title(&self) -> (r: &str)
        ensures
            r@ == self@.map_title,
    {
        self.map_title.as_str()
    }

    pub fn get_map_author(&self) -> (r: &str)
        ensures
            r@ == self@.map_author,
    {
        self.map_author.as_str()
    }

    /// The texture pack the map forces, if it forces one.
    pub fn get_forced_tileset(&self) -> (r: Option<Tileset>)
        ensures
            r == (if self@.force_texturepack {
                Some(self@.texturepack)
            } else {
                None
            }),
    {
        if self.force_texturepack {
            Some(self.texturepack)
        } else {
            None
        }
    }

    /// What an edit or a click does. Fields and "Save" take effect only while the player is
    /// choosing, the texture pack only while one is forced; "Cancel" always ends the dialog.
    /// "Save" resolves the file name: where it can be used, the dialog keeps the path and asks
    /// whether to overwrite a file that exists, or is done; where it cannot, the dialog shows
    /// why.
    pub fn handle(&mut self, input: SaveFileDialogInput, directories: &GameDirectories)
        ensures
            !(input is Save) ==> final(self)@ == save_dialog_after(old(self)@, input),
            input matches SaveFileDialogInput::Save { target_exists } ==> {
                let d = old(self)@;
                let e = final(self)@;
                if d.state != SaveFileDialogState::Choosing {
                    e == d
                } else {
                    match map_file_name(d.file_name) {
                        Ok(name) => e == SaveFileDialogView {
                            file_path: Some(map_path(directories.spec_maps_dir(), path_parts(name))),
                            state: if target_exists {
                                SaveFileDialogState::Overwrite
                            } else {
                                SaveFileDialogState::Done
                            },
                            ..d
                        },
                        Err(v) => e == SaveFileDialogView {
                            state: SaveFileDialogState::Error,
                            error_text: map_name_message(v),
                            ..d
                        },
                    }
                }
            },
    {
        let choosing = self.state == SaveFileDialogState::Choosing;
        match input {
            SaveFileDialogInput::FileName(s) => if choosing {
                self.file_name = s;
            },
            SaveFileDialogInput::MapTitle(s) => if choosing {
                self.map_title = s;
            },
            SaveFileDialogInput::MapAuthor(s) => if choosing {
                self.map_author = s;
            },
            SaveFileDialogInput::ForceTexturePack(b) => if choosing {
                self.force_texturepack = b;
            },
            SaveFileDialogInput::TexturePack(t) => if choosing && self.force_texturepack {
                self.texturepack = t;
            },
            SaveFileDialogInput::Save { target_exists } => if choosing {
                match directories.path_from_userinput(self.file_name.as_str()) {
                    Ok(path) => {
                        self.file_path = Some(path);
                        self.state = if target_exists {
                            SaveFileDialogState::Overwrite
                        } else {
                            SaveFileDialogState::Done
                        };
                    },
                    Err(err) => {
                        let text = err.to_string();
                        proof {
                            match map_file_name(self.file_name@) {
                                Err(v) => match v {
                                    MapNameErrorView::EmptyName => {},
                                    MapNameErrorView::InvalidCharacter { c } => {},
                                },
                                Ok(_) => {},
                            }
                        }
                        self.error_text = text;
                        self.state = SaveFileDialogState::Error;
                    },
                }
            },
            SaveFileDialogInput::Cancel => {
                self.state = SaveFileDialogState::Cancelled;
            },
            SaveFileDialogInput::Acknowledge => if self.state == SaveFileDialogState::Error {
                self.state = SaveFileDialogState::Choosing;
            },
            SaveFileDialogInput::ConfirmOverwrite => if self.state == SaveFileDialogState::Overwrite {
                self.state = SaveFileDialogState::Done;
            },
            SaveFileDialogInput::RejectOverwrite => if self.state == SaveFileDialogState::Overwrite {
                self.state = SaveFileDialogState::Choosing;
            },
        }
    }

    /// The player chose a file name that can be used, and agreed to overwrite a file there.
    pub fn is_done(&self) -> (r: bool)
        ensures
            r == (self@.state == SaveFileDialogState::Done),
    {
        self.state == SaveFileDialogState::Done
    }

    /// The player cancelled saving.
    pub fn is_cancelled(&self) -> (r: bool)
        ensures
            r == (self@.state == SaveFileDialogState::Cancelled),
    {
        self.state == SaveFileDialogState::Cancelled
    }
}

/// Where a dialog that creates a new map stands.
#[derive(Debug, Clone, Copy, PartialEq, Eq, Structural)]
pub enum CreateNewMapDialogState {
    Choosing,
    Done,
    Error,
    Cancelled,
    GeneratingMap,
}

/// What the player can do in a dialog that creates a new map.
pub enum CreateNewMapDialogInput {
    /// A size was picked from the list.
    Size(WorldSize),
    /// The width field of a custom size was dragged to this value.
    CustomWidth(u32),
    /// The height field of a custom size was dragged to this value.
    CustomHeight(u32),
    /// A kind of map was picked from the list.
    Kind(WorldGenerationKind),
    /// A color was picked from the list of the kind's parameters.
    Color(Tile),
    /// The "Accept" button, which needs a preview.
    Accept,
    /// The "Generate" button.
    Generate,
    /// The "Cancel" button.
    Cancel,
}

/// Everything a dialog that creates a new map holds, as plain values.
pub struct CreateNewMapDialogView {
    pub size: WorldSize,
    pub map_kind: WorldGenerationKind,
    pub state: CreateNewMapDialogState,
    pub preview: Option<GameWorld>,
    pub seed: u32,
    pub error_text: Option<Seq<char>>,
}

/// Asks for the size and the kind of a new map, and generates it.
pub struct CreateNewMapDialog {
    /// The Map Size
    size: WorldSize,
    /// The name of the map
    map_kind: WorldGenerationKind,
    /// The state of the dialog
    state: CreateNewMapDialogState,
    /// The temporary preview
    preview: Option<GameWorld>,
    /// The map seed
    seed: u32,
    /// The error message, if there was any error
    error_text: Option<String>,
}

impl View for CreateNewMapDialog {
    type V = CreateNewMapDialogView;

    closed spec fn view(&self) -> CreateNewMapDialogView {
        CreateNewMapDialogView {
            size: self.size,
            map_kind: self.map_kind,
            state: self.state,
            preview: self.preview,
            seed: self.seed,
            error_text: match self.error_text {
                Some(t) => Some(t@),
                None => None,
            },
        }
    }
}

/// `v` kept within `lo..=hi`.
pub open spec fn clamp(v: u32, lo: u32, hi: u32) -> u32 {
    if v < lo {
        lo
    } else if v > hi {
        hi
    } else {
        v
    }
}

/// What a dialog that creates a new map holds after an edit or a click. All of them take
/// effect only while the player is choosing; a custom width is kept within `1..=64`, a custom
/// height within `1..=32`, a color is a parameter of a filled map only, and "Accept" needs a
/// preview.
pub open spec fn new_map_dialog_after(d: CreateNewMapDialogView, input: CreateNewMapDialogInput) -> CreateNewMapDialogView {
    if d.state != CreateNewMapDialogState::Choosing {
        d
    } else {
        match input {
            CreateNewMapDialogInput::Size(size) => CreateNewMapDialogView { size, ..d },
            CreateNewMapDialogInput::CustomWidth(w) => match d.size {
                WorldSize::Custom { width: _, height } => CreateNewMapDialogView {
                    size: WorldSize::Custom { width: clamp(w, 1, 64), height },
                    ..d
                },
                _ => d,
            },
            CreateNewMapDialogInput::CustomHeight(h) => match d.size {
                WorldSize::Custom { width, height: _ } => CreateNewMapDialogView {
                    size: WorldSize::Custom { width, height: clamp(h, 1, 32) },
                    ..d
                },
                _ => d,
            },
            CreateNewMapDialogInput::Kind(kind) => CreateNewMapDialogView { map_kind: kind, ..d },
            CreateNewMapDialogInput::Color(color) => match d.map_kind {
                WorldGenerationKind::Filled { .. } => CreateNewMapDialogView {
                    map_kind: WorldGenerationKind::Filled { color },
                    ..d
                },
                _ => d,
            },
            CreateNewMapDialogInput::Accept => if d.preview is Some {
                CreateNewMapDialogView { state: CreateNewMapDialogState::GeneratingMap, ..d }
            } else {
                d
            },
            CreateNewMapDialogInput::Generate => CreateNewMapDialogView {
                state: CreateNewMapDialogState::GeneratingMap,
                ..d
            },
            CreateNewMapDialogInput::Cancel => CreateNewMapDialogView { state: CreateNewMapDialogState::Cancelled, ..d },
        }
    }
}

impl Default for CreateNewMapDialog {
    fn default() -> (r: Self)
        ensures
            r@ == (CreateNewMapDialogView {
                size: WorldSize::Classic5mx,
                map_kind: WorldGenerationKind::Empty,
                state: CreateNewMapDialogState::Choosing,
                preview: None,
                seed: 0,
                error_text: None,
            }),
    {
        CreateNewMapDialog {
            size: WorldSize::default(),
            map_kind: WorldGenerationKind::default(),
            state: CreateNewMapDialogState::Choosing,
            preview: None,
            seed: 0,
            error_text: None,
        }
    }
}

impl CreateNewMapDialog {
    /// Get the width of the new map
    pub fn get_width(&self) -> (r: u32)
        ensures
            r == self@.size.spec_width(),
    {
        self.size.width()
    }

    /// Get the height of the new map
    pub fn get_height(&self) -> (r: u32)
        ensures
            r == self@.size.spec_height(),
    {
        self.size.height()
    }

    /// Generate the map and return it, moving it out of this dialog.
    /// If the map has not been generated yet, this will return None and trigger a map generation.
    /// In this case, this method must be called again to obtain the generated map once it is generated.
    pub fn generate_map(&mut self) -> (r: Option<GameWorld>)
        ensures
            r == old(self)@.preview,
            final(self)@ == (CreateNewMapDialogView {
                preview: None,
                state: if r is None {
                    CreateNewMapDialogState::GeneratingMap
                } else {
                    old(self)@.state
                },
                ..old(self)@
            }),
    {
        let ret = self.preview.take();
        match ret {
            None => {
                self.trigger_generation();
                None
            },
            Some(map) => Some(map),
        }
    }

    /// Trigger a generation
    fn trigger_generation(&mut self)
        ensures
            final(self)@ == (CreateNewMapDialogView { state: CreateNewMapDialogState::GeneratingMap, ..old(self)@ }),
    {
        self.state = CreateNewMapDialogState::GeneratingMap;
    }

    /// What an edit or a click does.
    pub fn handle(&mut self, input: CreateNewMapDialogInput)
        ensures
            final(self)@ == new_map_dialog_after(old(self)@, input),
    {
        if self.state != CreateNewMapDialogState::Choosing {
            return;
        }
        match input {
            CreateNewMapDialogInput::Size(size) => {
                self.size = size;
            },
            CreateNewMapDialogInput::CustomWidth(w) => {
                if let WorldSize::Custom { width: _, height } = self.size {
                    let width: u32 = if w < 1 {
                        1
                    } else if w > 64 {
                        64
                    } else {
                        w
                    };
                    self.size = WorldSize::Custom { width, height };
                }
            },
            CreateNewMapDialogInput::CustomHeight(h) => {
                if let WorldSize::Custom { width, height: _ } = self.size {
                    let height: u32 = if h < 1 {
                        1
                    } else if h > 32 {
                        32
                    } else {
                        h
                    };
                    self.size = WorldSize::Custom { width, height };
                }
            },
            CreateNewMapDialogInput::Kind(kind) => {
                self.map_kind = kind;
            },
            CreateNewMapDialogInput::Color(color) => {
                if let WorldGenerationKind::Filled { .. } = self.map_kind {
                    self.map_kind = WorldGenerationKind::Filled { color };
                }
            },
            CreateNewMapDialogInput::Accept => {
                if self.preview.is_some() {
                    self.trigger_generation();
                }
            },
            CreateNewMapDialogInput::Generate => {
                self.trigger_generation();
            },
            CreateNewMapDialogInput::Cancel => {
                self.state = CreateNewMapDialogState::Cancelled;
            },
        }
    }

    /// The map was generated and accepted.
    pub fn is_done(&self) -> (r: bool)
        ensures
            r == (self@.state == CreateNewMapDialogState::Done),
    {
        self.state == CreateNewMapDialogState::Done
    }

    /// The player cancelled creating a map.
    pub fn is_cancelled(&self) -> (r: bool)
        ensures
            r == (self@.state == CreateNewMapDialogState::Cancelled),
    {
        self.state == CreateNewMapDialogState::Cancelled
    }
}

} // verus!
