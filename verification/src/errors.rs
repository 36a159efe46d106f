use vstd::prelude::*;

verus! {

/// The one construction-time failure: a cache must be able to hold at least
/// one entry, so a capacity of zero is rejected when the cache is built
/// rather than surfacing as surprising behaviour later.
///
/// A missing key on `get` or `remove` is a routine absent-value outcome, not
/// an error, and is reported as `None` by those operations.
#[derive(Clone, Copy, Debug, PartialEq, Eq, Structural)]
pub enum CacheError {
    InvalidConfiguration,
}

} // verus!
