//! The game's directories, and the paths of map files that players name.
use crate::campaign::syntax::{is_white_space, white_space};
use crate::text::{chars_of, push_str, string_from_chars};
use std::path::{Path, PathBuf, StripPrefixError};
use vstd::prelude::*;

verus! {

#[verifier::external_type_specification]
#[verifier::external_body]
pub struct ExStripPrefixError(std::path::StripPrefixError);

/// The operating system gave no directory for the game's data.
#[derive(Debug)]
pub struct InvalidSystemConfigurationError {
    error_message: String,
}

impl InvalidSystemConfigurationError {
    /// The message that describes the error.
    pub closed spec fn message(self) -> Seq<char> {
        self.error_message@
    }

    /// The message that describes the error.
    pub fn to_string(&self) -> (r: String)
        ensures
            r@ == self.message(),
    {
        self.error_message.clone()
    }
}

/// Why a name given for a map file cannot be used.
#[derive(Debug)]
pub enum InvalidMapNameError {
    EmptyName,
    InvalidCharacter { c: char },
    InvalidPath { p: PathBuf },
    NotASubpath { e: StripPrefixError },
}

/// The text that `{:?}` writes for the path `p`.
pub uninterp spec fn path_debug(p: PathBuf) -> Seq<char>;

/// The message that `Display` writes for the error `e` of stripping a prefix off a path.
pub uninterp spec fn strip_prefix_message(e: StripPrefixError) -> Seq<char>;

/// `{:?}` of a path: std's debug text of it.
#[verifier::external_body]
fn path_debug_text(p: &PathBuf) -> (r: String)
    ensures
        r@ == path_debug(*p),
{
    format!("{:?}", p)
}

/// `ToString` (by `Display`) of a `StripPrefixError`: std's message.
#[verifier::external_body]
fn strip_prefix_error_text(e: &StripPrefixError) -> (r: String)
    ensures
        r@ == strip_prefix_message(*e),
{
    e.to_string()
}

impl InvalidMapNameError {
    /// The message that describes the error. A path, and an error of stripping a prefix off a
    /// path, are written as std writes them (`{:?}` and `Display`).
    pub fn to_string(&self) -> (r: String)
        ensures
            *self is EmptyName ==> r@ == "Empty file name!"@,
            *self matches InvalidMapNameError::InvalidCharacter { c } ==> r@ == "Invalid character in map file name: "@.push(c),
            *self matches InvalidMapNameError::InvalidPath { p } ==> r@ == "Invalid path: "@ + path_debug(p),
            *self matches InvalidMapNameError::NotASubpath { e } ==> r@ == "Not a sub path of map folder: "@
                + strip_prefix_message(e),
    {
        let mut v: Vec<char> = Vec::new();
        match self {
            InvalidMapNameError::EmptyName => {
                push_str(&mut v, "Empty file name!");
            },
            InvalidMapNameError::InvalidCharacter { c } => {
                push_str(&mut v, "Invalid character in map file name: ");
                v.push(*c);
            },
            InvalidMapNameError::InvalidPath { p } => {
                push_str(&mut v, "Invalid path: ");
                let t = path_debug_text(p);
                push_str(&mut v, t.as_str());
            },
            InvalidMapNameError::NotASubpath { e } => {
                push_str(&mut v, "Not a sub path of map folder: ");
                let t = strip_prefix_error_text(e);
                push_str(&mut v, t.as_str());
            },
        }
        string_from_chars(&v)
    }
}

/// The directories the game keeps its maps and its settings in.
pub struct GameDirectories {
    _base_dir: PathBuf,
    pub maps_dir: PathBuf,
    pub config_dir: PathBuf,
}

/// A character that file names must not hold.
pub open spec fn forbidden_char(c: char) -> bool {
    c == '<' || c == '>' || c == ':' || c == '"' || c == '|' || c == '\\' || c == '?' || c == '*'
}

/// `c` in lower case, for an ASCII letter; else `c`.
pub open spec fn ascii_lower(c: char) -> char {
    if 'A' <= c && c <= 'Z' {
        ((c as u32) + 32) as char
    } else {
        c
    }
}

/// A character of a map name as it stands in the file name: white space becomes `_`, and ASCII
/// letters become lower case.
pub open spec fn file_name_char(c: char) -> char {
    if is_white_space(c) {
        '_'
    } else {
        ascii_lower(c)
    }
}

/// `s` without the white space at its start.
pub open spec fn trim_start(s: Seq<char>) -> Seq<char>
    decreases s.len(),
{
    if s.len() > 0 && is_white_space(s[0]) {
        trim_start(s.drop_first())
    } else {
        s
    }
}

/// `s` without the white space at its end.
pub open spec fn trim_end(s: Seq<char>) -> Seq<char>
    decreases s.len(),
{
    if s.len() > 0 && is_white_space(s.last()) {
        trim_end(s.drop_last())
    } else {
        s
    }
}

/// `s` without the white space at its start and its end.
pub open spec fn trim(s: Seq<char>) -> Seq<char> {
    trim_end(trim_start(s))
}

/// The first character of `s` that file names must not hold, if any.
pub open spec fn first_forbidden(s: Seq<char>) -> Option<char>
    decreases s.len(),
{
    if s.len() == 0 {
        None
    } else if forbidden_char(s[0]) {
        Some(s[0])
    } else {
        first_forbidden(s.drop_first())
    }
}

/// `name` ending in `.exm`: unchanged if it does, else with `.exm` appended.
pub open spec fn with_map_extension(name: Seq<char>) -> Seq<char> {
    if name.len() >= 4 && name.subrange(name.len() - 4, name.len() as int) == seq!['.', 'e', 'x', 'm'] {
        name
    } else {
        name + seq!['.', 'e', 'x', 'm']
    }
}

/// Whether a file whose extension is `extension` is a map file: its extension is `exm`, with
/// ASCII letters in either case.
pub open spec fn is_map_extension(extension: Option<Seq<char>>) -> bool {
    extension matches Some(e) && e.map_values(|c: char| ascii_lower(c)) == seq!['e', 'x', 'm']
}

/// Why a map name cannot be used, as plain values.
pub enum MapNameErrorView {
    EmptyName,
    InvalidCharacter { c: char },
}

/// The message that describes why a map name cannot be used.
pub open spec fn map_name_message(v: MapNameErrorView) -> Seq<char> {
    match v {
        MapNameErrorView::EmptyName => "Empty file name!"@,
        MapNameErrorView::InvalidCharacter { c } => "Invalid character in map file name: "@.push(c),
    }
}

/// The file name, relative to the maps folder, that a player's map name stands for: the name
/// without white space at its ends, each character as `file_name_char` gives it, and `.exm`
/// at the end. A character that file names must not hold, or a name of white space only, is
/// an error.
pub open spec fn map_file_name(input: Seq<char>) -> Result<Seq<char>, MapNameErrorView> {
    match first_forbidden(trim(input)) {
        Some(c) => Err(MapNameErrorView::InvalidCharacter { c }),
        None => if trim(input).len() == 0 {
            Err(MapNameErrorView::EmptyName)
        } else {
            Ok(with_map_extension(trim(input).map_values(|c: char| file_name_char(c))))
        },
    }
}

/// The pieces of `s` between `/` characters, and the piece after the last one.
pub open spec fn split_slashes(s: Seq<char>) -> (Seq<Seq<char>>, Seq<char>)
    decreases s.len(),
{
    if s.len() == 0 {
        (Seq::empty(), Seq::empty())
    } else {
        let (done, cur) = split_slashes(s.drop_last());
        if s.last() == '/' {
            (if cur.len() > 0 {
                done.push(cur)
            } else {
                done
            }, Seq::empty())
        } else {
            (done, cur.push(s.last()))
        }
    }
}

/// The non-empty pieces of `s` between `/` characters, in order.
pub open spec fn path_parts(s: Seq<char>) -> Seq<Seq<char>> {
    let (done, cur) = split_slashes(s);
    if cur.len() > 0 {
        done.push(cur)
    } else {
        done
    }
}

/// Whether the error `e` is the one that `v` describes.
pub open spec fn map_name_error_is(e: InvalidMapNameError, v: MapNameErrorView) -> bool {
    match v {
        MapNameErrorView::EmptyName => e is EmptyName,
        MapNameErrorView::InvalidCharacter { c } => e matches InvalidMapNameError::InvalidCharacter { c: d } && d == c,
    }
}

/// `c` in lower case, for an ASCII letter; else `c`.
fn to_ascii_lower(c: char) -> (r: char)
    ensures
        r == ascii_lower(c),
{
    if 'A' <= c && c <= 'Z' {
        ((c as u32) + 32) as u8 as char
    } else {
        c
    }
}

/// Whether a file whose extension is `extension` (where it has one that is valid Unicode) is a
/// map file, as the listing of map files decides it.
pub fn has_map_extension(extension: Option<&str>) -> (r: bool)
    ensures
        r == is_map_extension(
            match extension {
                Some(e) => Some(e@),
                None => None,
            },
        ),
{
    match extension {
        None => false,
        Some(e) => {
            let chars = chars_of(e);
            if chars.len() != 3 {
                proof {
                    let lowered = chars@.map_values(|c: char| ascii_lower(c));
                    assert(lowered.len() != seq!['e', 'x', 'm'].len());
                }
                return false;
            }
            let a = to_ascii_lower(chars[0]);
            let b = to_ascii_lower(chars[1]);
            let c = to_ascii_lower(chars[2]);
            proof {
                let lowered = chars@.map_values(|c: char| ascii_lower(c));
                assert(lowered =~= seq![a, b, c]);
            }
            a == 'e' && b == 'x' && c == 'm'
        },
    }
}

/// The characters of `s` without the white space at its start and its end.
fn trimmed_chars(s: &Vec<char>) -> (r: Vec<char>)
    ensures
        r@ == trim(s@),
{
    let mut start: usize = 0;
    assert(s@.skip(0) =~= s@);
    while start < s.len() && white_space(s[start])
        invariant
            start <= s@.len(),
            trim_start(s@) == trim_start(s@.skip(start as int)),
        decreases s@.len() - start,
    {
        proof {
            assert(s@.skip(start as int).drop_first() =~= s@.skip(start + 1));
        }
        start += 1;
    }
    let mut end: usize = s.len();
    let ghost t = s@.skip(start as int);
    assert(trim_start(s@.skip(start as int)) == t);
    while end > start && white_space(s[end - 1])
        invariant
            start <= end <= s@.len(),
            t == s@.skip(start as int),
            trim_end(t) == trim_end(s@.subrange(start as int, end as int)),
        decreases end - start,
    {
        proof {
            assert(s@.subrange(start as int, end as int).drop_last() =~= s@.subrange(start as int, end - 1));
        }
        end -= 1;
    }
    assert(t =~= s@.subrange(start as int, s@.len() as int));
    let mut r: Vec<char> = Vec::new();
    let mut i: usize = start;
    while i < end
        invariant
            start <= i <= end <= s@.len(),
            r@ == s@.subrange(start as int, i as int),
        decreases end - i,
    {
        r.push(s[i]);
        i += 1;
        assert(r@ =~= s@.subrange(start as int, i as int));
    }
    proof {
        let u = s@.subrange(start as int, end as int);
        if end > start {
            assert(u.last() == s@[end - 1]);
        }
        assert(trim_end(u) == u);
    }
    r
}

/// Append `.exm` to the name unless it ends in `.exm`.
fn assure_map_extension(name: Vec<char>) -> (r: Vec<char>)
    ensures
        r@ == with_map_extension(name@),
{
    let n = name.len();
    let ends = n >= 4 && name[n - 4] == '.' && name[n - 3] == 'e' && name[n - 2] == 'x' && name[n - 1] == 'm';
    proof {
        if n >= 4 {
            let tail = name@.subrange(n - 4, n as int);
            if ends {
                assert(tail =~= seq!['.', 'e', 'x', 'm']);
            } else {
                assert(tail[0] != '.' || tail[1] != 'e' || tail[2] != 'x' || tail[3] != 'm');
            }
        }
    }
    if ends {
        name
    } else {
        let mut r = name;
        r.push('.');
        r.push('e');
        r.push('x');
        r.push('m');
        assert(r@ =~= with_map_extension(name@));
        r
    }
}

/// The parts of the path, relative to the maps folder, of the map file that a player's map
/// name stands for: the pieces of `map_file_name(user_input)` between `/` characters that are
/// not empty. There is at least one.
pub fn map_file_parts(user_input: &str) -> (r: Result<Vec<String>, InvalidMapNameError>)
    ensures
        match map_file_name(user_input@) {
            Err(v) => (r matches Err(e) && map_name_error_is(e, v)),
            Ok(name) => (r matches Ok(parts) && parts@.len() == path_parts(name).len() && parts@.len() > 0
                && forall|i: int| 0 <= i < parts@.len() ==> (#[trigger] parts@[i])@ == path_parts(name)[i]),
        },
{
    let chars = chars_of(user_input);
    let t = trimmed_chars(&chars);
    let mut mapped: Vec<char> = Vec::new();
    let mut i: usize = 0;
    assert(t@.skip(0) =~= t@);
    assert(t@.take(0).map_values(|c: char| file_name_char(c)) =~= Seq::<char>::empty());
    while i < t.len()
        invariant
            i <= t@.len(),
            t@ == trim(user_input@),
            first_forbidden(t@) == first_forbidden(t@.skip(i as int)),
            mapped@ == t@.take(i as int).map_values(|c: char| file_name_char(c)),
        decreases t@.len() - i,
    {
        let c = t[i];
        proof {
            assert(t@.skip(i as int)[0] == c);
            assert(t@.skip(i as int).drop_first() =~= t@.skip(i + 1));
        }
        if c == '<' || c == '>' || c == ':' || c == '"' || c == '|' || c == '\\' || c == '?' || c == '*' {
            assert(first_forbidden(t@.skip(i as int)) == Some(c));
            return Err(InvalidMapNameError::InvalidCharacter { c });
        }
        let m = if white_space(c) {
            '_'
        } else {
            to_ascii_lower(c)
        };
        mapped.push(m);
        i += 1;
        assert(mapped@ =~= t@.take(i as int).map_values(|c: char| file_name_char(c)));
    }
    assert(t@.take(i as int) =~= t@);
    assert(t@.skip(i as int) =~= Seq::<char>::empty());
    if mapped.len() == 0 {
        return Err(InvalidMapNameError::EmptyName);
    }
    let name = assure_map_extension(mapped);
    let ghost full = name@;
    let mut parts: Vec<String> = Vec::new();
    let mut cur: Vec<char> = Vec::new();
    let mut k: usize = 0;
    while k < name.len()
        invariant
            k <= name@.len(),
            full == name@,
            split_slashes(full.take(k as int)).0.len() == parts@.len(),
            forall|j: int| 0 <= j < parts@.len() ==> (#[trigger] parts@[j])@ == split_slashes(full.take(k as int)).0[j],
            cur@ == split_slashes(full.take(k as int)).1,
        decreases name@.len() - k,
    {
        let c = name[k];
        proof {
            assert(full.take(k + 1).drop_last() =~= full.take(k as int));
            assert(full.take(k + 1).last() == c);
        }
        if c == '/' {
            if cur.len() > 0 {
                let s = string_from_chars(&cur);
                parts.push(s);
            }
            cur = Vec::new();
        } else {
            cur.push(c);
        }
        k += 1;
    }
    assert(full.take(k as int) =~= full);
    proof {
        assert(full.last() == 'm');
        assert(full.take(full.len() - 1) =~= full.drop_last());
    }
    if cur.len() > 0 {
        let s = string_from_chars(&cur);
        parts.push(s);
    }
    Ok(parts)
}

/// The path `dir` followed by the file or directory `name`, as `Path::join` gives it.
pub uninterp spec fn joined_path(dir: PathBuf, name: Seq<char>) -> PathBuf;

/// The path that `p` stands for, as an owned `PathBuf` (`Path::to_path_buf`).
pub uninterp spec fn owned_path(p: &Path) -> PathBuf;

/// What is left of `path` behind `base`, where `path` starts with `base`, as
/// `Path::strip_prefix` gives it; `None` where it does not.
pub uninterp spec fn stripped_path(path: PathBuf, base: PathBuf) -> Option<PathBuf>;

/// The text of the path `p`, where it is valid Unicode (`Path::to_str`).
pub uninterp spec fn path_text(p: PathBuf) -> Option<Seq<char>>;

/// The path of a map file below the maps folder `maps_dir` whose relative path is made of
/// `parts`: `maps_dir` joined with each part in turn.
pub open spec fn map_path(maps_dir: PathBuf, parts: Seq<Seq<char>>) -> PathBuf
    decreases parts.len(),
{
    if parts.len() == 0 {
        maps_dir
    } else {
        joined_path(map_path(maps_dir, parts.drop_last()), parts.last())
    }
}

/// The name, relative to the maps folder `maps_dir`, of the map file at `path`: the text of
/// what is left of `path` behind `maps_dir`. It is an error where `path` is not below
/// `maps_dir`, and where the rest is not valid Unicode.
pub open spec fn relative_map_name(maps_dir: PathBuf, path: PathBuf) -> Result<Seq<char>, RelativeNameErrorView> {
    match stripped_path(path, maps_dir) {
        None => Err(RelativeNameErrorView::NotASubpath),
        Some(rest) => match path_text(rest) {
            Some(t) => Ok(t),
            None => Err(RelativeNameErrorView::InvalidPath),
        },
    }
}

/// Why a path has no name relative to the maps folder, as plain values.
pub enum RelativeNameErrorView {
    InvalidPath,
    NotASubpath,
}

/// `Path::join` with a file or directory name: `dir` followed by `name`.
#[verifier::external_body]
fn join_name(dir: &PathBuf, name: &str) -> (r: PathBuf)
    ensures
        r == joined_path(*dir, name@),
{
    dir.as_path().join(name)
}

/// `PathBuf::as_path`: the path as a `Path`. Nothing is stated of it here.
#[verifier::external_body]
pub(crate) fn as_path(p: &PathBuf) -> (r: &Path)
{
    p.as_path()
}

/// `PathBuf::clone`: a copy of the path, equal to it.
#[verifier::external_body]
pub(crate) fn clone_path(p: &PathBuf) -> (r: PathBuf)
    ensures
        r == *p,
{
    p.clone()
}

/// `Path::to_path_buf`: the path `p` as an owned `PathBuf`.
#[verifier::external_body]
fn to_path_buf(p: &Path) -> (r: PathBuf)
    ensures
        r == owned_path(p),
{
    p.to_path_buf()
}

/// `Path::strip_prefix`: what is left of `path` behind `base` (as an owned path), or the error
/// where `path` does not start with `base`.
#[verifier::external_body]
fn strip_prefix(path: &PathBuf, base: &PathBuf) -> (r: Result<PathBuf, StripPrefixError>)
    ensures
        match r {
            Ok(rest) => stripped_path(*path, *base) == Some(rest),
            Err(_) => stripped_path(*path, *base) is None,
        },
{
    match path.strip_prefix(base) {
        Ok(rest) => Ok(rest.to_path_buf()),
        Err(e) => Err(e),
    }
}

/// `Path::to_str`: the text of the path, where it is valid Unicode.
#[verifier::external_body]
fn to_text(p: &PathBuf) -> (r: Option<String>)
    ensures
        match r {
            Some(s) => path_text(*p) == Some(s@),
            None => path_text(*p) is None,
        },
{
    match p.to_str() {
        Some(s) => Some(String::from(s)),
        None => None,
    }
}

/// `ProjectDirs::from(qualifier, organization, application)` followed by `data_dir`: the
/// directory the operating system keeps the application's data in, if it names one. It depends
/// on the environment; nothing is stated of it.
#[verifier::external_body]
fn project_data_dir(qualifier: &str, organization: &str, application: &str) -> (r: Option<PathBuf>)
{
    match directories::ProjectDirs::from(qualifier, organization, application) {
        Some(dirs) => Some(dirs.data_dir().to_path_buf()),
        None => None,
    }
}

impl GameDirectories {
    /// The directory below which the game keeps its files.
    pub closed spec fn base_dir(self) -> PathBuf {
        self._base_dir
    }

    /// The directory of the maps.
    pub closed spec fn spec_maps_dir(self) -> PathBuf {
        self.maps_dir
    }

    /// The directory of the settings.
    pub closed spec fn spec_config_dir(self) -> PathBuf {
        self.config_dir
    }

    /// The game's directories below the base directory `base`: `maps` and `config`.
    pub fn from_base_dir(base: PathBuf) -> (r: Self)
        ensures
            r.base_dir() == base,
            r.spec_maps_dir() == joined_path(base, "maps"@),
            r.spec_config_dir() == joined_path(base, "config"@),
    {
        let maps_dir = join_name(&base, "maps");
        let config_dir = join_name(&base, "config");
        GameDirectories { _base_dir: base, maps_dir, config_dir }
    }

    /// Automatically get the game directories from the system directories.
    /// Returns an `InvalidSystemConfigurationError` if the system variables are set up incorrectly.
    pub fn from_system_config() -> (r: Result<Self, InvalidSystemConfigurationError>)
        ensures
            r matches Ok(d) ==> d.spec_maps_dir() == joined_path(d.base_dir(), "maps"@)
                && d.spec_config_dir() == joined_path(d.base_dir(), "config"@),
            r matches Err(e) ==> e.message() == "No valid home directory could be determined from your operating system's system variables!Please set the appropriate variables."@,
    {
        match project_data_dir("exodus.game", "", "libexodus") {
            Some(base) => Ok(GameDirectories::from_base_dir(base)),
            None => Err(
                InvalidSystemConfigurationError {
                    error_message: String::from_str(
                        "No valid home directory could be determined from your operating system's system variables!Please set the appropriate variables.",
                    ),
                },
            ),
        }
    }

    /// The name, relative to the maps folder, of the map file at `path`. It is an error where
    /// `path` is not below the maps folder, and where the rest of it is not valid Unicode.
    pub fn relative_map_dir_from_path(&self, path: &Path) -> (r: Result<String, InvalidMapNameError>)
        ensures
            match relative_map_name(self.spec_maps_dir(), owned_path(path)) {
                Ok(t) => r matches Ok(s) && s@ == t,
                Err(RelativeNameErrorView::NotASubpath) => r matches Err(e) && e is NotASubpath,
                Err(RelativeNameErrorView::InvalidPath) => r matches Err(InvalidMapNameError::InvalidPath { p })
                    && p == owned_path(path),
            },
    {
        let owned = to_path_buf(path);
        let resolved_path = match strip_prefix(&owned, &self.maps_dir) {
            Ok(p) => p,
            Err(e) => return Err(InvalidMapNameError::NotASubpath { e }),
        };
        match to_text(&resolved_path) {
            Some(s) => Ok(s),
            None => Err(InvalidMapNameError::InvalidPath { p: owned }),
        }
    }

    /// Get the path of a map with the given user input path.
    /// The user input is sanitized and resolved as subdirectory relative to the maps folder.
    /// If the file name that results from converting the name is invalid, an error is returned.
    pub fn path_from_userinput(&self, user_input: &str) -> (r: Result<PathBuf, InvalidMapNameError>)
        ensures
            match map_file_name(user_input@) {
                Ok(name) => r matches Ok(p) && p == map_path(self.spec_maps_dir(), path_parts(name)),
                Err(v) => r matches Err(e) && map_name_error_is(e, v),
            },
    {
        let parts = match map_file_parts(user_input) {
            Ok(p) => p,
            Err(e) => return Err(e),
        };
        let ghost name = map_file_name(user_input@)->Ok_0;
        let mut ret = clone_path(&self.maps_dir);
        let mut i: usize = 0;
        assert(path_parts(name).take(0) =~= Seq::<Seq<char>>::empty());
        while i < parts.len()
            invariant
                i <= parts@.len(),
                parts@.len() == path_parts(name).len(),
                forall|j: int| 0 <= j < parts@.len() ==> (#[trigger] parts@[j])@ == path_parts(name)[j],
                ret == map_path(self.spec_maps_dir(), path_parts(name).take(i as int)),
            decreases parts@.len() - i,
        {
            ret = join_name(&ret, parts[i].as_str());
            proof {
                let t = path_parts(name).take(i + 1);
                assert(t.drop_last() =~= path_parts(name).take(i as int));
                assert(t.last() == parts@[i as int]@);
            }
            i += 1;
        }
        assert(path_parts(name).take(i as int) =~= path_parts(name));
        Ok(ret)
    }

    /// The path of the settings file: `config.exc` in the settings directory.
    pub fn config_file(&self) -> (r: PathBuf)
        ensures
            r == joined_path(self.spec_config_dir(), "config.exc"@),
    {
        join_name(&self.config_dir, "config.exc")
    }

    /// The path of the highscores file: `score.exh` in the settings directory.
    pub fn highscores_file(&self) -> (r: PathBuf)
        ensures
            r == joined_path(self.spec_config_dir(), "score.exh"@),
    {
        join_name(&self.config_dir, "score.exh")
    }

    /// Directories given directly rather than found on the system.
    #[allow(non_snake_case)]
    pub fn Mock(_base_dir: PathBuf, maps_dir: PathBuf, config_dir: PathBuf) -> (r: Self)
        ensures
            r.base_dir() == _base_dir,
            r.spec_maps_dir() == maps_dir,
            r.spec_config_dir() == config_dir,
    {
        GameDirectories { _base_dir, maps_dir, config_dir }
    }
}

} // verus!
