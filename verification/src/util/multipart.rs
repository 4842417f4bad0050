//! The rules for reading a `multipart/form-data` request: which fields
//! count, what a text field must hold, and where an uploaded file is put.
//! Reading the request and writing the files is left to the caller.

use std::path::Path;
use vstd::prelude::*;
use vstd::utf8::{decode_utf8, encode_utf8, encode_utf8_decode_utf8, valid_utf8};

verus! {

/// Why a multipart request was refused.
#[derive(Debug)]
pub enum MultipartError {
    /// The request could not be taken apart.
    Decode,
    /// Something failed on the server's side.
    Internal(String),
    /// The request lacks a part or holds one that cannot be read.
    BadRequest,
    /// The payload is not what the handler asks for.
    InvalidField(String),
}

impl MultipartError {
    /// The message of the error.
    pub open spec fn text(self) -> Seq<char> {
        match self {
            MultipartError::Decode => "couldn't decode multipart/form-data payload"@,
            MultipartError::Internal(info) =>
                "an internal error occured while processing multipart request: "@ + info@,
            MultipartError::BadRequest => "bad request"@,
            MultipartError::InvalidField(info) => "invalid payload structure: "@ + info@,
        }
    }

    /// Writes the message of the error.
    pub fn to_string(&self) -> (message: String)
        ensures
            message@ == self.text(),
    {
        match self {
            MultipartError::Decode => String::from_str(
                "couldn't decode multipart/form-data payload",
            ),
            MultipartError::Internal(info) => String::from_str(
                "an internal error occured while processing multipart request: ",
            ).concat(info.as_str()),
            MultipartError::BadRequest => String::from_str("bad request"),
            MultipartError::InvalidField(info) => String::from_str(
                "invalid payload structure: ",
            ).concat(info.as_str()),
        }
    }
}

/// An uploaded file as it was stored: the name the client gave it, made
/// harmless, and the path it was written to.
pub struct SavedFile {
    pub name: String,
    pub path: String,
}

/// What `sanitize_filename::sanitize` makes of a file name.
pub uninterp spec fn sanitized(name: Seq<char>) -> Seq<char>;

/// What `Path::extension` finds in a file name, where it is valid Unicode.
pub uninterp spec fn extension(name: Seq<char>) -> Option<Seq<char>>;

/// The decimal digit for a number below ten.
pub open spec fn digit(d: nat) -> char {
    if d == 0 {
        '0'
    } else if d == 1 {
        '1'
    } else if d == 2 {
        '2'
    } else if d == 3 {
        '3'
    } else if d == 4 {
        '4'
    } else if d == 5 {
        '5'
    } else if d == 6 {
        '6'
    } else if d == 7 {
        '7'
    } else if d == 8 {
        '8'
    } else {
        '9'
    }
}

/// A number in decimal digits, without sign or leading zeros.
pub open spec fn decimal(n: nat) -> Seq<char>
    decreases n,
{
    if n < 10 {
        seq![digit(n)]
    } else {
        decimal(n / 10).push(digit(n % 10))
    }
}

/// The path of an upload: the directory, the time of the upload in
/// milliseconds, and the extension of the file, `bin` when it has none.
pub open spec fn upload_path(
    directory: Seq<char>,
    millis: nat,
    extension: Option<Seq<char>>,
) -> Seq<char> {
    directory + "/"@ + decimal(millis) + "."@ + match extension {
        Some(extension) => extension,
        None => "bin"@,
    }
}

/// Calls `sanitize_filename::sanitize`, which removes from a file name what
/// a file system could take for more than a name. The result is a function
/// of the name alone; the contract gives it a name and claims no more.
#[verifier::external_body]
fn sanitize(name: &str) -> (clean: String)
    ensures
        clean@ == sanitized(name@),
{
    sanitize_filename::sanitize(name)
}

/// Calls `Path::extension` of std on a file name and hands the extension
/// back as text. The result is a function of the name alone; the contract
/// gives it a name and claims no more.
#[verifier::external_body]
fn extension_of(name: &str) -> (found: Option<String>)
    ensures
        match found {
            Some(found) => extension(name@) == Some(found@),
            None => extension(name@) is None,
        },
{
    Some(Path::new(name).extension()?.to_str()?.to_owned())
}

/// Calls `u128::to_string` of std, which writes a number in decimal digits.
#[verifier::external_body]
fn decimal_text(n: u128) -> (text: String)
    ensures
        text@ == decimal(n as nat),
{
    n.to_string()
}

/// Calls `std::str::from_utf8`, which accepts exactly the byte strings that
/// are valid UTF-8 and hands them back as text, byte for byte.
#[verifier::external_body]
fn utf8_text(bytes: &[u8]) -> (text: Option<&str>)
    ensures
        match text {
            Some(text) => valid_utf8(bytes@) && encode_utf8(text@) == bytes@,
            None => !valid_utf8(bytes@),
        },
{
    std::str::from_utf8(bytes).ok()
}

/// Reads the bytes of a text field. A field that is not valid UTF-8 makes
/// the request a bad one.
pub fn field_to_string(bytes: &[u8]) -> (text: Result<String, MultipartError>)
    ensures
        match text {
            Ok(text) => valid_utf8(bytes@) && text@ == decode_utf8(bytes@),
            Err(error) => !valid_utf8(bytes@) && error == MultipartError::BadRequest,
        },
{
    match utf8_text(bytes) {
        Some(text) => {
            proof {
                encode_utf8_decode_utf8(text@);
            }
            Ok(text.to_owned())
        },
        None => Err(MultipartError::BadRequest),
    }
}

/// Puts together the path of an upload.
pub fn file_path(directory: &str, millis: u128, extension: Option<&str>) -> (path: String)
    ensures
        path@ == upload_path(
            directory@,
            millis as nat,
            match extension {
                Some(extension) => Some(extension@),
                None => None,
            },
        ),
{
    let extension = match extension {
        Some(extension) => extension,
        None => "bin",
    };
    let millis = decimal_text(millis);
    String::from_str(directory).concat("/").concat(millis.as_str()).concat(".").concat(extension)
}

impl SavedFile {
    /// The record of an upload that is stored under `name`, a file name
    /// that is safe to use: its path is made of the directory, the time of
    /// the upload and the extension of the name.
    pub fn new(name: String, directory: &str, millis: u128) -> (file: SavedFile)
        ensures
            file.name == name,
            file.path@ == upload_path(directory@, millis as nat, extension(name@)),
    {
        let path = match extension_of(name.as_str()) {
            Some(found) => file_path(directory, millis, Some(found.as_str())),
            None => file_path(directory, millis, None),
        };
        SavedFile { name, path }
    }
}

/// Decides under which name and path a file field is stored. A field
/// without a file name makes the request a bad one.
pub fn field_to_file(filename: Option<&str>, directory: &str, millis: u128) -> (file: Result<
    SavedFile,
    MultipartError,
>)
    ensures
        match file {
            Ok(file) => filename matches Some(given) && file.name@ == sanitized(given@)
                && file.path@ == upload_path(
                directory@,
                millis as nat,
                extension(sanitized(given@)),
            ),
            Err(error) => filename is None && error == MultipartError::BadRequest,
        },
{
    match filename {
        Some(given) => Ok(SavedFile::new(sanitize(given), directory, millis)),
        None => Err(MultipartError::BadRequest),
    }
}

/// What a field of the form is, by its name.
#[derive(Clone, Copy, PartialEq, Eq, Structural, Debug)]
pub enum FieldKind {
    /// The field `payload`: the JSON text of the request.
    Payload,
    /// A field `file`: an upload.
    File,
    /// A field that the handlers do not read.
    Other,
}

/// The kind of the field with the given name.
pub open spec fn kind_of(name: Seq<char>) -> FieldKind {
    if name == "payload"@ {
        FieldKind::Payload
    } else if name == "file"@ {
        FieldKind::File
    } else {
        FieldKind::Other
    }
}

/// Tells what to do with a field. A field without a name cannot be decoded.
pub fn field_kind(name: Option<&str>) -> (kind: Result<FieldKind, MultipartError>)
    ensures
        match kind {
            Ok(kind) => name matches Some(name) && kind == kind_of(name@),
            Err(error) => name is None && error == MultipartError::Decode,
        },
{
    match name {
        Some(name) => {
            let name = name.to_owned();
            if name == String::from_str("payload") {
                Ok(FieldKind::Payload)
            } else if name == String::from_str("file") {
                Ok(FieldKind::File)
            } else {
                Ok(FieldKind::Other)
            }
        },
        None => Err(MultipartError::Decode),
    }
}

/// Ends the reading of a form, of which `payload` is the text of the latest
/// `payload` field and `files` are the uploads: both are handed on as they
/// are. A form without a payload makes the request a bad one.
pub fn to_payload(payload: Option<String>, files: Vec<SavedFile>) -> (read: Result<
    (String, Vec<SavedFile>),
    MultipartError,
>)
    ensures
        match read {
            Ok(read) => payload == Some(read.0) && read.1 == files,
            Err(error) => payload is None && error == MultipartError::BadRequest,
        },
{
    match payload {
        Some(payload) => Ok((payload, files)),
        None => Err(MultipartError::BadRequest),
    }
}

} // verus!
