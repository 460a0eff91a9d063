//! A file-scaffolding engine.
//!
//! A template file carries a structured metadata header and a body, separated
//! by a three-hyphen boundary token. The library splits the template, renders
//! header and body against a variable context with a fixed catalog of helpers,
//! parses the rendered header into a descriptor (target path plus write
//! action), and computes the file mutation that the descriptor calls for.
//! Reading and writing the files themselves is left to the caller.

use vstd::prelude::*;

pub mod config;
pub mod context;
pub mod rustgen_error;
pub mod template;
pub mod text;

use crate::context::VarContext;
use crate::rustgen_error::RustgenResult;
use crate::template::config_extractor::{extract_failed, extracts_to};
use crate::template::{PreProcessor, Writer};

verus! {

/// Runs the pipeline for one template text: split, render header and body
/// against `context`, parse the rendered header. The returned writer holds
/// the descriptor and the rendered body; its `run_action` computes the file
/// mutation from the target file's current content.
///
/// `now` is the Unix timestamp that the time helper formats.
pub fn process_template(raw_text: String, context: &VarContext, now: u64) -> (r: RustgenResult<
    Writer,
>)
    ensures
        match r {
            Ok(w) => extracts_to(raw_text@, context@, now, w.header, w.rendered_template@),
            Err(e) => extract_failed(raw_text@, context@, now, e.kind),
        },
{
    let processor = match PreProcessor::new(raw_text) {
        Ok(p) => p,
        Err(e) => {
            return Err(e);
        },
    };
    let (header, rendered) = match processor.extract_config_template(context, now) {
        Ok(pair) => pair,
        Err(e) => {
            return Err(e);
        },
    };
    Ok(Writer::new(header, rendered))
}

} // verus!

