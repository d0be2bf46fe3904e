//! Small return-shape and rendering helpers.

use vstd::prelude::*;

use crate::browse;
use crate::browse::Effects;
use crate::error;
use crate::error::{Failure, ProviderError, ProviderErrorKind, Result};
use crate::text;
use crate::wire::{OpResult, ProviderReturn, ProviderStep};

verus! {

/// A return that reports a failure and stages nothing.
pub open spec fn failed(f: Failure, r: ProviderReturn) -> bool {
    &&& r.result matches OpResult::Error(e)
    &&& error::lowered_failure(f, e)
    &&& browse::effects_model(r.effects.canonical@, r.effects.fs@, r.effects.invalidations@)
        == browse::no_effects()
}

/// A returned step that reports a failure and stages nothing.
pub open spec fn failed_step(f: Failure, r: ProviderStep) -> bool {
    r matches ProviderStep::Returned(returned) && failed(f, returned)
}

/// Wrap a [`ProviderError`] into a terminal [`ProviderReturn`] with no
/// effects.
pub fn err(error: ProviderError) -> (r: ProviderReturn)
    ensures
        failed(error@, r),
{
    ProviderReturn {
        result: OpResult::Error(error.into_wire()),
        effects: Effects::new().into_wit(),
    }
}

/// Like [`err`], wrapped as a returned [`ProviderStep`]: the shape an entry
/// point must produce when it fails before any future can run.
pub fn err_step(error: ProviderError) -> (r: ProviderStep)
    ensures
        failed_step(error@, r),
{
    ProviderStep::Returned(err(error))
}

/// Finish pretty-printed JSON with a trailing newline, so the projected file
/// behaves like ordinary text under shell tools (`cat` ends at a line
/// boundary, `wc -l` counts the last line). Takes what the serializer gave.
pub fn pretty_json(encoded: core::result::Result<Vec<u8>, String>) -> (r: Result<Vec<u8>>)
    ensures
        match encoded {
            Ok(bytes) => r matches Ok(out) && out@ == bytes@.push(0x0a),
            Err(why) => r matches Err(e) && e@ == error::failure(
                ProviderErrorKind::Internal,
                "JSON encode: "@ + why@,
            ),
        },
{
    match encoded {
        Ok(bytes) => {
            let mut bytes = bytes;
            bytes.push(0x0a);
            Ok(bytes)
        },
        Err(why) => {
            let message = text::concat("JSON encode: ", why.as_str());
            Err(ProviderError::internal(message.as_str()))
        },
    }
}

} // verus!
