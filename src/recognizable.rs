//! The common shape of the recognizers.
use vstd::prelude::*;

verus! {

/// A kind of expression that can be recognized in unstructured text.
pub trait Recognizable: Sized {
    /// What a pattern that matched but gave an unusable value reports.
    type Error;

    /// The expression found in `text`: `Ok(None)` when nothing matches,
    /// `Err` when only a malformed match was found.
    fn recognize(text: &str) -> Result<Option<Self>, Self::Error>;

    /// A label for the kind of expression, for diagnostics.
    fn describe() -> &'static str;
}

} // verus!
