//! Metadata extraction: the flag sets that make the extractor print a single
//! field without downloading media, and the reading of what it printed.

use vstd::prelude::*;

use crate::errors::ExtractionError;
use crate::text::{trim_spaces, trimmed};

verus! {

/// The arguments that print only the content id of `url`: no download,
/// quiet, standard input closed by the caller.
pub fn id_print_args(url: &str) -> (r: Vec<String>)
    ensures
        r@.len() == 5,
        r@[0]@ == "--print"@,
        r@[1]@ == "id"@,
        r@[2]@ == "--skip-download"@,
        r@[3]@ == "-q"@,
        r@[4]@ == url@,
{
    let mut args: Vec<String> = Vec::new();
    args.push("--print".to_owned());
    args.push("id".to_owned());
    args.push("--skip-download".to_owned());
    args.push("-q".to_owned());
    args.push(url.to_owned());
    args
}

/// The arguments that print only the title of `url`.
pub fn title_print_args(url: &str) -> (r: Vec<String>)
    ensures
        r@.len() == 5,
        r@[0]@ == "--print"@,
        r@[1]@ == "title"@,
        r@[2]@ == "--skip-download"@,
        r@[3]@ == "-q"@,
        r@[4]@ == url@,
{
    let mut args: Vec<String> = Vec::new();
    args.push("--print".to_owned());
    args.push("title".to_owned());
    args.push("--skip-download".to_owned());
    args.push("-q".to_owned());
    args.push(url.to_owned());
    args
}

/// The title a queued track is announced under: the cached one when the
/// song cache knows the URL, else what extraction yielded, else the
/// placeholder.
pub fn resolve_title(cached: Option<String>, extracted: Option<String>) -> (r: String)
    ensures
        cached matches Some(t) ==> r == t,
        cached is None ==> (extracted matches Some(t) ==> r == t),
        cached is None && extracted is None ==> r@ == "Unknown"@,
{
    match cached {
        Some(t) => t,
        None => match extracted {
            Some(t) => t,
            None => "Unknown".to_owned(),
        },
    }
}

/// Reads a metadata field from a finished extractor run: a non-zero exit is
/// a process failure, an output that trims to nothing is an empty field,
/// anything else is the field, trimmed.
pub fn metadata_from_output(exit_ok: bool, stdout: &str) -> (r: Result<String, ExtractionError>)
    ensures
        !exit_ok ==> r == Err::<String, ExtractionError>(ExtractionError::ProcessFailed),
        exit_ok && trimmed(stdout@).len() == 0 ==> r == Err::<String, ExtractionError>(
            ExtractionError::EmptyOutput,
        ),
        exit_ok && trimmed(stdout@).len() > 0 ==> (r matches Ok(t) && t@ == trimmed(stdout@)),
{
    if !exit_ok {
        return Err(ExtractionError::ProcessFailed);
    }
    let t = trim_spaces(stdout);
    if t.as_str().unicode_len() == 0 {
        Err(ExtractionError::EmptyOutput)
    } else {
        Ok(t)
    }
}

} // verus!
