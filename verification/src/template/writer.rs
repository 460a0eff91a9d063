//! Computing the file mutation that a descriptor and a rendered body call
//! for. The writer works on the file contents as values; reading and writing
//! the files themselves is the caller's part.

use vstd::prelude::*;

use crate::rustgen_error::{ErrorKind, RustgenError, RustgenResult};
use crate::template::{ExtendLocation, TemplateHeader, WriteAction, Writer};
use crate::text::{append_chars, chars_to_string, replace_all, replace_all_spec, str_to_chars, sub_chars};

verus! {

/// The file mutation that one template asks for. The caller performs it:
/// directories are created where missing, and files are written in full.
#[derive(Debug)]
pub enum WritePlan {
    /// Create every missing directory of `dir`, then write `content` to
    /// `path`, replacing any existing file.
    Create { dir: String, path: String, content: String },
    /// Write `content` to the existing file at `path`, replacing its previous
    /// content in full.
    Overwrite { path: String, content: String },
}

/// A single newline, as inserted between body and existing content.
pub open spec fn newline() -> Seq<char> {
    seq!['\n']
}

/// The content that an append action produces from the existing file content
/// and the rendered body.
pub open spec fn append_content_spec(
    loc: ExtendLocation,
    existing: Seq<char>,
    body: Seq<char>,
) -> Seq<char> {
    match loc {
        ExtendLocation::BeginOfFile => body + newline() + existing,
        ExtendLocation::EndOfFile => existing + body + newline(),
        ExtendLocation::After(marker) => replace_all_spec(
            existing,
            marker@,
            marker@ + newline() + body,
        ),
        ExtendLocation::Before(marker) => replace_all_spec(
            existing,
            marker@,
            body + newline() + marker@,
        ),
    }
}

/// `i` is the position of the last path separator in `path`.
pub open spec fn last_slash_at(path: Seq<char>, i: int) -> bool {
    0 <= i < path.len() && path[i] == '/' && (forall|k: int| i < k < path.len() ==> path[k] != '/')
}

/// `dir` is the text of `path` before its final path separator, or empty when
/// `path` has no separator.
pub open spec fn is_parent_dir(path: Seq<char>, dir: Seq<char>) -> bool {
    if exists|i: int| last_slash_at(path, i) {
        dir == path.subrange(0, choose|i: int| last_slash_at(path, i))
    } else {
        dir == Seq::<char>::empty()
    }
}

impl Writer {
    pub fn new(header: TemplateHeader, rendered_template: String) -> (r: Self)
        ensures
            r.header == header,
            r.rendered_template == rendered_template,
    {
        Self { header, rendered_template }
    }

    /// The mutation that the descriptor calls for, given the current content
    /// of the target file (`None` when no file exists there).
    ///
    /// A create action never needs the existing content; an append action on a
    /// missing file fails without any mutation.
    pub fn run_action(&self, existing: Option<&str>) -> (r: RustgenResult<WritePlan>)
        ensures
            match self.header.action {
                WriteAction::CreateFile => r matches Ok(p) && p matches WritePlan::Create {
                    dir,
                    path,
                    content,
                } && path@ == self.header.path@ && content@ == self.rendered_template@
                    && is_parent_dir(self.header.path@, dir@),
                WriteAction::Append(loc) => match existing {
                    Some(c) => r matches Ok(p) && p matches WritePlan::Overwrite { path, content }
                        && path@ == self.header.path@ && content@ == append_content_spec(
                        loc,
                        c@,
                        self.rendered_template@,
                    ),
                    None => r matches Err(e) && e.kind == ErrorKind::Io,
                },
            },
    {
        match &self.header.action {
            WriteAction::CreateFile => Ok(self.action_create_file()),
            WriteAction::Append(location) => self.action_append(location, existing),
        }
    }

    /// The plan for a create action: the parent directory to create, the
    /// target path, and the body as the file's entire content.
    pub fn action_create_file(&self) -> (r: WritePlan)
        ensures
            r matches WritePlan::Create { dir, path, content } && path@ == self.header.path@
                && content@ == self.rendered_template@ && is_parent_dir(self.header.path@, dir@),
    {
        let path_chars = str_to_chars(self.header.path.as_str());
        let mut i: usize = path_chars.len();
        let mut cut: usize = 0;
        let mut found = false;
        while i > 0
            invariant
                i <= path_chars@.len(),
                !found ==> forall|k: int| i <= k < path_chars@.len() ==> path_chars@[k] != '/',
                !found ==> cut == 0,
                found ==> i == 0,
                found ==> last_slash_at(path_chars@, cut as int),
            decreases i,
        {
            if path_chars[i - 1] == '/' {
                cut = i - 1;
                found = true;
                proof {
                    assert(last_slash_at(path_chars@, cut as int));
                }
                i = 0;
            } else {
                i -= 1;
            }
        }
        let dir = sub_chars(&path_chars, 0, cut);
        proof {
            if found {
                assert(is_parent_dir(path_chars@, dir@)) by {
                    let w = choose|k: int| last_slash_at(path_chars@, k);
                    assert(last_slash_at(path_chars@, cut as int));
                    assert(w == cut as int) by {
                        if w != cut as int {
                            if w < cut as int {
                                assert(path_chars@[cut as int] != '/');
                            } else {
                                assert(path_chars@[w] != '/');
                            }
                        }
                    }
                }
            } else {
                assert(dir@ =~= Seq::<char>::empty());
                assert forall|k: int| !last_slash_at(path_chars@, k) by {
                    if 0 <= k < path_chars@.len() {
                        assert(path_chars@[k] != '/');
                    }
                }
            }
        }
        WritePlan::Create {
            dir: chars_to_string(&dir),
            path: self.header.path.clone(),
            content: self.rendered_template.clone(),
        }
    }

    /// The plan for an append action at the given location; fails with an
    /// I/O error when the target file does not exist.
    pub fn action_append(&self, location: &ExtendLocation, existing: Option<&str>) -> (r:
        RustgenResult<WritePlan>)
        ensures
            match existing {
                Some(c) => r matches Ok(p) && p matches WritePlan::Overwrite { path, content }
                    && path@ == self.header.path@ && content@ == append_content_spec(
                    *location,
                    c@,
                    self.rendered_template@,
                ),
                None => r matches Err(e) && e.kind == ErrorKind::Io,
            },
    {
        let content = match existing {
            Some(c) => c,
            None => {
                return Err(RustgenError::io_error("target file for append does not exist"));
            },
        };
        let new_content = match location {
            ExtendLocation::BeginOfFile => self.append_begin(content),
            ExtendLocation::EndOfFile => self.append_end(content),
            ExtendLocation::After(identifier) => self.append_after(content, identifier.as_str()),
            ExtendLocation::Before(identifier) => self.append_before(content, identifier.as_str()),
        };
        Ok(WritePlan::Overwrite { path: self.header.path.clone(), content: new_content })
    }

    /// The body, a newline, then the existing content.
    pub fn append_begin(&self, existing: &str) -> (r: String)
        ensures
            r@ == self.rendered_template@ + newline() + existing@,
    {
        let mut out = str_to_chars(self.rendered_template.as_str());
        out.push('\n');
        let existing_chars = str_to_chars(existing);
        append_chars(&mut out, &existing_chars);
        proof {
            assert(out@ =~= self.rendered_template@ + newline() + existing@);
        }
        chars_to_string(&out)
    }

    /// The existing content, then the body and a trailing newline.
    pub fn append_end(&self, existing: &str) -> (r: String)
        ensures
            r@ == existing@ + self.rendered_template@ + newline(),
    {
        let mut out = str_to_chars(existing);
        let body = str_to_chars(self.rendered_template.as_str());
        append_chars(&mut out, &body);
        out.push('\n');
        proof {
            assert(out@ =~= existing@ + self.rendered_template@ + newline());
        }
        chars_to_string(&out)
    }

    /// Every occurrence of the marker replaced by the body, a newline and the
    /// marker; without any occurrence the content is returned unchanged.
    pub fn append_before(&self, existing: &str, identifier: &str) -> (r: String)
        ensures
            r@ == replace_all_spec(
                existing@,
                identifier@,
                self.rendered_template@ + newline() + identifier@,
            ),
    {
        let content = str_to_chars(existing);
        let marker = str_to_chars(identifier);
        let mut ins = str_to_chars(self.rendered_template.as_str());
        ins.push('\n');
        append_chars(&mut ins, &marker);
        proof {
            assert(ins@ =~= self.rendered_template@ + newline() + identifier@);
        }
        let out = replace_all(&content, &marker, &ins);
        chars_to_string(&out)
    }

    /// Every occurrence of the marker replaced by the marker, a newline and
    /// the body; without any occurrence the content is returned unchanged.
    pub fn append_after(&self, existing: &str, identifier: &str) -> (r: String)
        ensures
            r@ == replace_all_spec(
                existing@,
                identifier@,
                identifier@ + newline() + self.rendered_template@,
            ),
    {
        let content = str_to_chars(existing);
        let marker = str_to_chars(identifier);
        let mut ins = str_to_chars(identifier);
        ins.push('\n');
        let body = str_to_chars(self.rendered_template.as_str());
        append_chars(&mut ins, &body);
        proof {
            assert(ins@ =~= identifier@ + newline() + self.rendered_template@);
        }
        let out = replace_all(&content, &marker, &ins);
        chars_to_string(&out)
    }
}

} // verus!
