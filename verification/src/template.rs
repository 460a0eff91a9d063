//! The template pipeline's data types: the pre-processor that splits a raw
//! template, the descriptor that its header denotes, and the writer that
//! computes the file mutation.

use vstd::prelude::*;

pub mod config_extractor;
pub mod helpers;
pub mod renderer;
pub mod timefmt;
pub mod writer;

verus! {

/// Prepares the template file: splits the metadata header from the body.
#[derive(Debug, Clone)]
pub struct PreProcessor {
    pub template: String,
}

/// Computes the content of the target file for a rendered template
/// (a newly created file, or an existing one extended in place).
#[derive(Debug)]
pub struct Writer {
    pub header: TemplateHeader,
    pub rendered_template: String,
}

/// The descriptor that a rendered header denotes.
///
/// # Example for a new file
/// ```yaml
/// ---
/// path: src/project/controllers/{{name}}.lua
/// action: create-file
/// ---
/// ```
///
/// # Example for adding content to an existing file
/// ```yaml
/// ---
/// path: src/project/controllers.lua
/// action:
///   append:
///     after: "-- marker for controller registration"
/// ---
/// ```
#[derive(Debug, Clone)]
pub struct TemplateHeader {
    /// The path of the file to create or to extend.
    pub path: String,
    /// The action to perform; when the header names none, a new file is created.
    pub action: WriteAction,
}

/// The write action a header may declare.
#[derive(Debug, Clone)]
pub enum WriteAction {
    /// Creates a new file (overwriting an existing one in full).
    CreateFile,
    /// Appends the body into an existing file at the given location.
    Append(ExtendLocation),
}

/// Where inside an existing file the body is inserted.
#[derive(Debug, Clone)]
pub enum ExtendLocation {
    /// Before all existing content.
    BeginOfFile,
    /// After all existing content.
    EndOfFile,
    /// After every occurrence of the given marker.
    After(String),
    /// Before every occurrence of the given marker.
    Before(String),
}

impl Default for WriteAction {
    /// The action that holds when the header names none.
    fn default() -> (r: Self)
        ensures
            r is CreateFile,
    {
        WriteAction::CreateFile
    }
}

/// The helper that replaces every match of a regular expression.
///
/// ```hbs
/// {{regex_replace from_string "W(or)d pattern" "Captured group: ${1}"}}
/// ```
pub struct RegexReplaceHelper;

/// The helper that falls back to a second value when the first holds no data
/// (missing, null, the empty string, numeric zero, or false).
///
/// ```hbs
/// {{default my_optional_string "A default value"}}
/// ```
pub struct DefaultHelper;

/// The helper that binds a variable for the rest of the render pass.
///
/// ```hbs
/// {{set "variable_name" "Value for the variable"}}
/// ```
pub struct SetHelper;

/// The helper that concatenates its arguments with no separator.
///
/// ```hbs
/// {{concat base_path "/sub/directories/" file_name file_extension}}
/// ```
pub struct ConcatHelper;

/// The helper that renders a timestamp under a date/time format string.
///
/// ```hbs
/// Today's date: {{time "%Y-%m-%d"}}
/// ```
pub struct TimeHelper;

} // verus!
