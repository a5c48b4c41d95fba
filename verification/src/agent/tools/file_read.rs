//! Reading a file from disk.
//!
//! The path must be absolute and lead to a regular file: a pipe or a device
//! may never end. At most 256 KiB are returned.
use vstd::prelude::*;

use crate::agent::tool::{ToolError, ToolErrorView};
use crate::agent::tools::capped::{clip, first, lossy_text, utf8_lossy};
use crate::json::{
    bool_field, json_error, json_object, object_text, string_member, text_field, uint_field, Field,
    FieldView, ScalarView,
};
use crate::text::{prefixed, views};

verus! {

/// How many bytes of a file are returned.
pub const MAX_BYTES: usize = 256 * 1024;

/// The JSON schema of the arguments.
pub const PARAMETERS: &'static str = "{\"type\":\"object\",\"properties\":{\"path\":{\"type\":\"string\",\"description\":\"Absolute file path (e.g. /Users/me/notes.txt).\"}},\"required\":[\"path\"]}";

/// Reads a text file from an absolute path.
pub struct FileRead;

/// What the file system says about a path, links followed.
#[derive(Debug, Clone, Copy)]
pub struct FileStat {
    pub is_dir: bool,
    pub is_file: bool,
    pub len: u64,
}

fn failed(prefix: &str, subject: &str, error: &str) -> (r: String)
    ensures
        r@ == prefix@ + subject@ + ": "@ + error@,
{
    let mut s = prefix.to_owned();
    s.append(subject);
    s.append(": ");
    s.append(error);
    s
}

/// The members of the result.
pub open spec fn result_fields(
    path: Seq<char>,
    bytes: Seq<u8>,
    file_size: u64,
    truncated: bool,
) -> Seq<FieldView> {
    seq![
        FieldView { key: "path"@, value: ScalarView::Text(path) },
        FieldView { key: "size"@, value: ScalarView::Int(bytes.len() as int) },
        FieldView { key: "fileSize"@, value: ScalarView::Int(file_size as int) },
        FieldView { key: "truncated"@, value: ScalarView::Bool(truncated) },
        FieldView { key: "content"@, value: ScalarView::Text(utf8_lossy(bytes)) },
    ]
}

impl FileRead {
    pub fn name(&self) -> (r: &'static str)
        ensures
            r@ == "file_read"@,
    {
        "file_read"
    }

    pub fn description(&self) -> (r: &'static str)
        ensures
            r@
                == "Read a UTF-8 text file from an absolute path. Returns up to 256KB; larger files are truncated and a `truncated: true` flag is set."@,
    {
        "Read a UTF-8 text file from an absolute path. Returns up to 256KB; larger files are truncated and a `truncated: true` flag is set."
    }

    /// The JSON schema of the arguments.
    pub fn parameters(&self) -> (r: &'static str)
        ensures
            r@ == PARAMETERS@,
    {
        PARAMETERS
    }

    /// The model picks the path, so the user is asked.
    pub fn requires_confirmation(&self) -> (r: bool)
        ensures
            r,
    {
        true
    }

    /// Refuses a relative path.
    pub fn check_path(&self, path: &str, is_absolute: bool) -> (r: Result<(), ToolError>)
        ensures
            r is Ok <==> is_absolute,
            r matches Err(e) ==> e@ == ToolErrorView::Argument("path must be absolute: "@ + path@),
    {
        if is_absolute {
            Ok(())
        } else {
            Err(ToolError::Argument(prefixed("path must be absolute: ", path)))
        }
    }

    /// Refuses what is not there and what is no regular file; otherwise gives
    /// the file's length.
    pub fn check_stat(&self, path: &str, stat: Result<FileStat, String>) -> (r: Result<
        u64,
        ToolError,
    >)
        ensures
            match stat {
                Err(error) => r matches Err(e) && e@ == ToolErrorView::Runtime(
                    "stat "@ + path@ + ": "@ + error@,
                ),
                Ok(s) => if s.is_dir {
                    r matches Err(e) && e@ == ToolErrorView::Argument(
                        "path is a directory: "@ + path@,
                    )
                } else if !s.is_file {
                    r matches Err(e) && e@ == ToolErrorView::Argument(
                        "not a regular file: "@ + path@,
                    )
                } else {
                    r == Ok::<u64, ToolError>(s.len)
                },
            },
    {
        match stat {
            Err(error) => Err(ToolError::Runtime(failed("stat ", path, error.as_str()))),
            Ok(s) => {
                if s.is_dir {
                    return Err(ToolError::Argument(prefixed("path is a directory: ", path)));
                }
                if !s.is_file {
                    return Err(ToolError::Argument(prefixed("not a regular file: ", path)));
                }
                Ok(s.len)
            },
        }
    }

    /// How many bytes to ask for: one past the cap.
    pub fn read_limit(&self) -> (r: u64)
        ensures
            r == MAX_BYTES + 1,
    {
        MAX_BYTES as u64 + 1
    }

    /// Makes the JSON result from the bytes that were read, asked for up to
    /// [`FileRead::read_limit`].
    pub fn finish(&self, path: &str, file_size: u64, read: Result<Vec<u8>, String>) -> (r: Result<
        String,
        ToolError,
    >)
        ensures
            match read {
                Err(error) => r matches Err(e) && e@ == ToolErrorView::Runtime(
                    "read "@ + path@ + ": "@ + error@,
                ),
                Ok(bytes) => {
                    &&& r matches Ok(text) && text@ == json_object(
                        result_fields(
                            path@,
                            first(bytes@, MAX_BYTES as nat),
                            file_size,
                            bytes@.len() > MAX_BYTES,
                        ),
                    ) && json_error(text@) is None && string_member(text@, "content"@) == Some(
                        utf8_lossy(first(bytes@, MAX_BYTES as nat)),
                    )
                },
            },
    {
        let bytes = match read {
            Ok(b) => b,
            Err(error) => {
                return Err(ToolError::Runtime(failed("read ", path, error.as_str())));
            },
        };
        let clipped = clip(bytes, MAX_BYTES);
        let content = lossy_text(&clipped.bytes);
        let mut fields: Vec<Field> = Vec::new();
        fields.push(text_field("path", path));
        fields.push(uint_field("size", clipped.bytes.len() as u64));
        fields.push(uint_field("fileSize", file_size));
        fields.push(bool_field("truncated", clipped.truncated));
        fields.push(text_field("content", content.as_str()));
        assert(views(fields@) =~= result_fields(
            path@,
            clipped.bytes@,
            file_size,
            clipped.truncated,
        ));
        let text = object_text(&fields);
        assert(fields@[4].value is Text);
        Ok(text)
    }
}

} // verus!
