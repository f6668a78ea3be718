use vstd::prelude::*;
use crate::error::PipelineError;
use crate::hash::{extract_hash, has_window, is_hash_start, HASH_LEN};
use crate::resolver::{is_success, Resolution};

verus! {

/// The identifier that a run of the pipeline starts from: the one in `input`, or
/// `NoIdentifierFound` exactly when `input` holds none.
pub fn identifier_of(input: &str) -> (r: Result<String, PipelineError>)
    ensures
        r is Err <==> !has_window(input@),
        r is Err ==> (r matches Err(PipelineError::NoIdentifierFound)),
        r matches Ok(h) ==> exists|i: int|
            is_hash_start(input@, i) && h@ == #[trigger] input@.subrange(i, i + HASH_LEN),
{
    match extract_hash(input) {
        Some(h) => Ok(h),
        None => Err(PipelineError::NoIdentifierFound),
    }
}

/// The archive's address once a resolution has ended, or the error it ended with.
pub fn resolved_location(res: Resolution) -> (r: Result<String, PipelineError>)
    requires
        !(res is Query),
    ensures
        res matches Resolution::Found(u) ==> (r matches Ok(v) && v@ == u@),
        res is Exhausted ==> (r matches Err(PipelineError::ResolutionExhausted)),
        res is Malformed ==> (r matches Err(PipelineError::MalformedReference)),
{
    match res {
        Resolution::Found(u) => Ok(u),
        Resolution::Malformed => Err(PipelineError::MalformedReference),
        _ => Err(PipelineError::ResolutionExhausted),
    }
}

/// Whether the archive response with `status` can be read: a status in the 200 class,
/// else `ResolutionExhausted`.
pub fn check_archive_status(status: u16) -> (r: Result<(), PipelineError>)
    ensures
        r is Ok <==> is_success(status),
        r is Err ==> (r matches Err(PipelineError::ResolutionExhausted)),
{
    if 200 <= status && status <= 299 {
        Ok(())
    } else {
        Err(PipelineError::ResolutionExhausted)
    }
}

} // verus!
