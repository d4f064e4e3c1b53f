//! The rules that reading and writing files on behalf of the user obey.
//!
//! Nothing here reads or writes a file. The caller finds out what is on the
//! disk and hands it in as plain values; the functions decide whether the
//! read or the write may go ahead, and where. Only [`locate`] looks outside:
//! it asks for the user's home directory.

use crate::text::{chars_of, contains, contains_char, same_chars, starts_with, string_of};
use vstd::prelude::*;
use vstd::string::StringExecFns;

verus! {

/// The largest file that is read, in bytes: one mebibyte.
pub const MAX_READ_BYTES: u64 = 1048576;

/// The largest content that is written, in bytes: ten mebibytes.
pub const MAX_WRITE_BYTES: usize = 10485760;

/// Why a read or a write was refused.
#[derive(Clone, Copy, PartialEq, Eq, Debug, Structural)]
pub enum FileError {
    /// The path holds `..` or a NUL character.
    PathTraversal,
    /// The path starts in the home directory, which is not known.
    NoHomeDirectory,
    /// The path cannot be resolved.
    InvalidPath,
    /// The path to read leads to no file, or to a directory.
    MissingOrDirectory,
    /// The file to read is larger than [`MAX_READ_BYTES`].
    TooLargeToRead,
    /// The session file to read is not a regular file.
    NotAFile,
    /// The directory of the file to write does not exist.
    NoParentDirectory,
    /// The directory of the file to write cannot be resolved.
    InvalidParentDirectory,
    /// The file to write has no extension of a text file.
    NotATextFile,
    /// The content to write is larger than [`MAX_WRITE_BYTES`].
    ContentTooLarge,
}

impl FileError {
    /// The text shown to the user for this error.
    pub open spec fn message_text(self) -> Seq<char> {
        match self {
            FileError::PathTraversal => "Invalid file path: path traversal not allowed"@,
            FileError::NoHomeDirectory => "Cannot find home directory"@,
            FileError::InvalidPath => "Invalid file path or file does not exist"@,
            FileError::MissingOrDirectory => "File does not exist or is a directory"@,
            FileError::TooLargeToRead => "File is too large to display"@,
            FileError::NotAFile => "Path is not a file"@,
            FileError::NoParentDirectory => "Parent directory does not exist"@,
            FileError::InvalidParentDirectory => "Invalid parent directory path"@,
            FileError::NotATextFile => "Only text files can be edited"@,
            FileError::ContentTooLarge => "File content too large (max 10MB)"@,
        }
    }

    /// The text shown to the user for this error.
    pub fn message(&self) -> (text: String)
        ensures
            text@ == self.message_text(),
    {
        match self {
            FileError::PathTraversal => String::from_str(
                "Invalid file path: path traversal not allowed",
            ),
            FileError::NoHomeDirectory => String::from_str("Cannot find home directory"),
            FileError::InvalidPath => String::from_str("Invalid file path or file does not exist"),
            FileError::MissingOrDirectory => String::from_str(
                "File does not exist or is a directory",
            ),
            FileError::TooLargeToRead => String::from_str("File is too large to display"),
            FileError::NotAFile => String::from_str("Path is not a file"),
            FileError::NoParentDirectory => String::from_str("Parent directory does not exist"),
            FileError::InvalidParentDirectory => String::from_str("Invalid parent directory path"),
            FileError::NotATextFile => String::from_str("Only text files can be edited"),
            FileError::ContentTooLarge => String::from_str("File content too large (max 10MB)"),
        }
    }
}

/// Where a path given by the user leads.
#[derive(Debug, PartialEq, Eq)]
pub enum PathTarget {
    /// The path as it was given.
    Plain { path: String },
    /// The path `rest` below the home directory `home`.
    UnderHome { home: String, rest: String },
}

/// The mathematical value of a [`PathTarget`].
pub enum TargetModel {
    Plain { path: Seq<char> },
    UnderHome { home: Seq<char>, rest: Seq<char> },
}

impl View for PathTarget {
    type V = TargetModel;

    open spec fn view(&self) -> TargetModel {
        match self {
            PathTarget::Plain { path } => TargetModel::Plain { path: path@ },
            PathTarget::UnderHome { home, rest } => TargetModel::UnderHome {
                home: home@,
                rest: rest@,
            },
        }
    }
}

/// What the disk holds at the resolved path of a file to read.
#[derive(Clone, Copy, PartialEq, Eq, Debug, Structural)]
pub struct FileProbe {
    pub exists: bool,
    pub is_dir: bool,
    /// The size in bytes, if it could be found out.
    pub size: Option<u64>,
}

/// What the disk holds at the directory of a file to write.
#[derive(Clone, Copy, PartialEq, Eq, Debug, Structural)]
pub enum ParentProbe {
    /// The path names no directory above the file.
    NoParent,
    /// The directory does not exist.
    Missing,
    /// The directory exists and cannot be resolved.
    Unresolvable,
    /// The directory exists and was resolved.
    Resolved,
}

/// The view of an optional string.
pub open spec fn optional_chars(text: Option<String>) -> Option<Seq<char>> {
    match text {
        Some(t) => Some(t@),
        None => None,
    }
}

/// The path holds `..` or a NUL character.
pub open spec fn is_traversal(path: Seq<char>) -> bool {
    crate::text::occurs_in(path, seq!['.', '.']) || path.contains('\0')
}

/// The path starts in the home directory: with `~/`.
pub open spec fn is_home_relative(path: Seq<char>) -> bool {
    crate::text::begins_with(path, seq!['~', '/'])
}

/// Where the path `path` leads, given the home directory if it is known.
pub open spec fn target_of(path: Seq<char>, home: Option<Seq<char>>) -> Result<
    TargetModel,
    FileError,
> {
    if is_traversal(path) {
        Err(FileError::PathTraversal)
    } else if is_home_relative(path) {
        match home {
            Some(home) => Ok(TargetModel::UnderHome { home, rest: path.skip(2) }),
            None => Err(FileError::NoHomeDirectory),
        }
    } else {
        Ok(TargetModel::Plain { path })
    }
}

/// Whether what the disk holds allows a read: the path must resolve (`probe`
/// is `None` where it does not) and lead to a file, and the file must not be
/// larger than [`MAX_READ_BYTES`]. A file of unknown size is read.
pub open spec fn readable(probe: Option<FileProbe>) -> Result<(), FileError> {
    match probe {
        None => Err(FileError::InvalidPath),
        Some(found) => if !found.exists || found.is_dir {
            Err(FileError::MissingOrDirectory)
        } else if found.size is Some && found.size->0 > MAX_READ_BYTES {
            Err(FileError::TooLargeToRead)
        } else {
            Ok(())
        },
    }
}

/// Whether a read of the file at `path` may go ahead, and where: the path
/// must be sound, and what the disk holds must allow the read.
pub open spec fn read_verdict(
    path: Seq<char>,
    home: Option<Seq<char>>,
    probe: Option<FileProbe>,
) -> Result<TargetModel, FileError> {
    match target_of(path, home) {
        Err(e) => Err(e),
        Ok(target) => match readable(probe) {
            Err(e) => Err(e),
            Ok(()) => Ok(target),
        },
    }
}

/// A lower-case extension of a text file.
pub open spec fn allowed_extension(lower: Seq<char>) -> bool {
    lower == "txt"@ || lower == "md"@ || lower == "json"@ || lower == "xml"@ || lower == "yaml"@
        || lower == "yml"@ || lower == "js"@ || lower == "jsx"@ || lower == "ts"@ || lower
        == "tsx"@ || lower == "rs"@ || lower == "py"@ || lower == "java"@ || lower == "cpp"@
        || lower == "c"@ || lower == "h"@ || lower == "css"@ || lower == "html"@ || lower
        == "toml"@ || lower == "cfg"@ || lower == "ini"@ || lower == "sh"@ || lower == "log"@
}

/// The lower-case form of `text` that the standard library computes.
pub uninterp spec fn lowercase_of(text: Seq<char>) -> Seq<char>;

/// The lower-case form of `text`.
///
/// Trusted: this is `str::to_lowercase`, which returns the lower-case
/// equivalent of the slice as a new string. The result depends on the text
/// alone; it is named [`lowercase_of`] and nothing more is claimed of it.
#[verifier::external_body]
fn lowercase(text: &str) -> (lower: String)
    ensures
        lower@ == lowercase_of(text@),
{
    text.to_lowercase()
}

/// An extension of a text file, in any case of letters.
pub open spec fn text_extension(extension: Option<Seq<char>>) -> bool {
    match extension {
        Some(e) => allowed_extension(lowercase_of(e)),
        None => false,
    }
}

/// Whether what the disk holds allows a write of `content_len` bytes: the
/// directory of the file must exist and resolve, if the path names one; the
/// file's extension must be one of a text file; and the content must not be
/// larger than [`MAX_WRITE_BYTES`].
pub open spec fn writable(
    parent: ParentProbe,
    extension: Option<Seq<char>>,
    content_len: usize,
) -> Result<(), FileError> {
    if parent == ParentProbe::Missing {
        Err(FileError::NoParentDirectory)
    } else if parent == ParentProbe::Unresolvable {
        Err(FileError::InvalidParentDirectory)
    } else if !text_extension(extension) {
        Err(FileError::NotATextFile)
    } else if content_len > MAX_WRITE_BYTES {
        Err(FileError::ContentTooLarge)
    } else {
        Ok(())
    }
}

/// Whether a write to the file at `path` may go ahead, and where: the path
/// must be sound, and what the disk holds must allow the write.
pub open spec fn write_verdict(
    path: Seq<char>,
    home: Option<Seq<char>>,
    parent: ParentProbe,
    extension: Option<Seq<char>>,
    content_len: usize,
) -> Result<TargetModel, FileError> {
    match target_of(path, home) {
        Err(e) => Err(e),
        Ok(target) => match writable(parent, extension, content_len) {
            Err(e) => Err(e),
            Ok(()) => Ok(target),
        },
    }
}

/// Whether a read of the session file at `path` may go ahead: the path must
/// be sound, must resolve (`is_file` is `None` where it does not), and must
/// lead to a regular file.
pub open spec fn session_read_verdict(path: Seq<char>, is_file: Option<bool>) -> Result<
    (),
    FileError,
> {
    if is_traversal(path) {
        Err(FileError::PathTraversal)
    } else if is_file is None {
        Err(FileError::InvalidPath)
    } else if !is_file->0 {
        Err(FileError::NotAFile)
    } else {
        Ok(())
    }
}

/// What `result` says, with the target taken by its view.
pub open spec fn target_view(result: Result<PathTarget, FileError>) -> Result<
    TargetModel,
    FileError,
> {
    match result {
        Ok(target) => Ok(target@),
        Err(e) => Err(e),
    }
}

/// Whether the path holds `..` or a NUL character.
pub fn has_traversal(path: &str) -> (found: bool)
    ensures
        found == is_traversal(path@),
{
    let chars = chars_of(path);
    let dots: Vec<char> = vec!['.', '.'];
    assert(dots@ =~= seq!['.', '.']);
    contains(&chars, &dots) || contains_char(&chars, '\0')
}

/// Says where the path `file_path` leads, given the home directory if it is
/// known.
///
/// A path that holds `..` or a NUL character is refused with
/// `PathTraversal`. A path that starts with `~/` leads below the home
/// directory, and is refused with `NoHomeDirectory` if that is not known.
/// Every other path leads where it says.
pub fn expand_path(file_path: &str, home: Option<String>) -> (result: Result<
    PathTarget,
    FileError,
>)
    ensures
        target_view(result) == target_of(file_path@, optional_chars(home)),
{
    let chars = chars_of(file_path);
    let dots: Vec<char> = vec!['.', '.'];
    assert(dots@ =~= seq!['.', '.']);
    if contains(&chars, &dots) || contains_char(&chars, '\0') {
        return Err(FileError::PathTraversal);
    }
    let tilde: Vec<char> = vec!['~', '/'];
    assert(tilde@ =~= seq!['~', '/']);
    if starts_with(&chars, &tilde) {
        match home {
            None => Err(FileError::NoHomeDirectory),
            Some(home) => {
                let rest = string_of(&chars, 2, chars.len());
                assert(chars@.subrange(2, chars@.len() as int) =~= file_path@.skip(2));
                Ok(PathTarget::UnderHome { home, rest })
            },
        }
    } else {
        Ok(PathTarget::Plain { path: String::from_str(file_path) })
    }
}

/// The home directory of the current user, if it can be found out.
///
/// Trusted: this is `dirs::home_dir`, which asks the environment and the
/// system's table of users; a path that is not text is given with its odd
/// bytes replaced. The result depends on the machine and the moment, so
/// nothing is claimed of it.
#[verifier::external_body]
fn home_directory() -> (home: Option<String>) {
    match dirs::home_dir() {
        Some(path) => Some(path.to_string_lossy().into_owned()),
        None => None,
    }
}

/// Says where the path `file_path` leads, and asks for the home directory
/// of the current user where the path starts in it.
///
/// A path that holds `..` or a NUL character is refused with
/// `PathTraversal`, and no other path is. A path that does not start with
/// `~/` leads where it says. A path that starts with `~/` leads to what
/// follows the `~/`, below the home directory, or is refused with
/// `NoHomeDirectory` where that cannot be found out; [`expand_path`] says
/// the same of a home directory that is handed in.
pub fn locate(file_path: &str) -> (result: Result<PathTarget, FileError>)
    ensures
        is_traversal(file_path@) == (target_view(result) == Err::<TargetModel, FileError>(
            FileError::PathTraversal,
        )),
        !is_traversal(file_path@) && !is_home_relative(file_path@) ==> target_view(result) == Ok::<
            TargetModel,
            FileError,
        >(TargetModel::Plain { path: file_path@ }),
        !is_traversal(file_path@) && is_home_relative(file_path@) ==> match result {
            Ok(target) => target@ is UnderHome && target@->rest == file_path@.skip(2),
            Err(e) => e == FileError::NoHomeDirectory,
        },
{
    if has_traversal(file_path) {
        return Err(FileError::PathTraversal);
    }
    let tilde: Vec<char> = vec!['~', '/'];
    assert(tilde@ =~= seq!['~', '/']);
    let home = if starts_with(&chars_of(file_path), &tilde) {
        home_directory()
    } else {
        None
    };
    expand_path(file_path, home)
}

/// Decides whether what the disk holds at the resolved path of a file
/// allows reading it; `probe` is `None` where the path cannot be resolved.
pub fn check_readable(probe: Option<FileProbe>) -> (result: Result<(), FileError>)
    ensures
        result == readable(probe),
{
    match probe {
        None => Err(FileError::InvalidPath),
        Some(found) => {
            if !found.exists || found.is_dir {
                return Err(FileError::MissingOrDirectory);
            }
            match found.size {
                Some(size) => {
                    if size > MAX_READ_BYTES {
                        return Err(FileError::TooLargeToRead);
                    }
                },
                None => {},
            }
            Ok(())
        },
    }
}

/// Decides whether the file at `file_path` may be read, and says where it
/// is.
///
/// `home` is the home directory, if it is known; `probe` is what the disk
/// holds at the resolved path, or `None` if the path cannot be resolved.
pub fn read_file(file_path: &str, home: Option<String>, probe: Option<FileProbe>) -> (result:
    Result<PathTarget, FileError>)
    ensures
        target_view(result) == read_verdict(file_path@, optional_chars(home), probe),
{
    let target = expand_path(file_path, home)?;
    check_readable(probe)?;
    Ok(target)
}

/// Whether `lower`, an extension in lower case, is one of a text file.
pub fn is_allowed_extension(lower: &str) -> (allowed: bool)
    ensures
        allowed == allowed_extension(lower@),
{
    let chars = chars_of(lower);
    same_chars(&chars, &chars_of("txt")) || same_chars(&chars, &chars_of("md")) || same_chars(
        &chars,
        &chars_of("json"),
    ) || same_chars(&chars, &chars_of("xml")) || same_chars(&chars, &chars_of("yaml"))
        || same_chars(&chars, &chars_of("yml")) || same_chars(&chars, &chars_of("js"))
        || same_chars(&chars, &chars_of("jsx")) || same_chars(&chars, &chars_of("ts"))
        || same_chars(&chars, &chars_of("tsx")) || same_chars(&chars, &chars_of("rs"))
        || same_chars(&chars, &chars_of("py")) || same_chars(&chars, &chars_of("java"))
        || same_chars(&chars, &chars_of("cpp")) || same_chars(&chars, &chars_of("c"))
        || same_chars(&chars, &chars_of("h")) || same_chars(&chars, &chars_of("css"))
        || same_chars(&chars, &chars_of("html")) || same_chars(&chars, &chars_of("toml"))
        || same_chars(&chars, &chars_of("cfg")) || same_chars(&chars, &chars_of("ini"))
        || same_chars(&chars, &chars_of("sh")) || same_chars(&chars, &chars_of("log"))
}

/// Whether `extension` is one of a text file, in any case of letters.
pub fn is_text_extension(extension: &str) -> (allowed: bool)
    ensures
        allowed == text_extension(Some(extension@)),
{
    let lower = lowercase(extension);
    is_allowed_extension(lower.as_str())
}

/// Decides whether what the disk holds allows writing `content_len` bytes
/// to a file: `parent` is what the disk holds at the directory of the file,
/// `extension` the extension of the file's name, if it has one.
pub fn check_writable(parent: ParentProbe, extension: Option<String>, content_len: usize) -> (result:
    Result<(), FileError>)
    ensures
        result == writable(parent, optional_chars(extension), content_len),
{
    if parent == ParentProbe::Missing {
        return Err(FileError::NoParentDirectory);
    }
    if parent == ParentProbe::Unresolvable {
        return Err(FileError::InvalidParentDirectory);
    }
    let is_text = match &extension {
        Some(e) => is_text_extension(e.as_str()),
        None => false,
    };
    if !is_text {
        return Err(FileError::NotATextFile);
    }
    if content_len > MAX_WRITE_BYTES {
        return Err(FileError::ContentTooLarge);
    }
    Ok(())
}

/// Decides whether `content_len` bytes may be written to the file at
/// `file_path`, and says where the file is.
///
/// `home` is the home directory, if it is known; `parent` is what the disk
/// holds at the directory of the file; `extension` is the extension of the
/// file's name, if it has one.
pub fn write_file(
    file_path: &str,
    home: Option<String>,
    parent: ParentProbe,
    extension: Option<String>,
    content_len: usize,
) -> (result: Result<PathTarget, FileError>)
    ensures
        target_view(result) == write_verdict(
            file_path@,
            optional_chars(home),
            parent,
            optional_chars(extension),
            content_len,
        ),
{
    let target = expand_path(file_path, home)?;
    check_writable(parent, extension, content_len)?;
    Ok(target)
}

/// Decides whether the session file at `file_path` may be read.
///
/// `is_file` says whether the resolved path leads to a regular file, or is
/// `None` if the path cannot be resolved.
pub fn read_session_file(file_path: &str, is_file: Option<bool>) -> (result: Result<
    (),
    FileError,
>)
    ensures
        result == session_read_verdict(file_path@, is_file),
{
    if has_traversal(file_path) {
        return Err(FileError::PathTraversal);
    }
    match is_file {
        None => Err(FileError::InvalidPath),
        Some(false) => Err(FileError::NotAFile),
        Some(true) => Ok(()),
    }
}

} // verus!
