use vstd::prelude::*;

verus! {

/// Identifies a pass or a shared buffer within a pass sequence.
#[derive(Debug, Clone, Copy, PartialEq, Eq, Hash, Structural)]
pub struct Id(pub u64);

/// A map from identifiers, keyed by the identifier's raw value.
pub type IdMap<V> = std::collections::HashMap<u64, V>;

/// Calls `rand::random::<u64>()`, which draws a value from the thread-local
/// generator. Nothing is claimed of the value: any `u64` may come back. The
/// call panics only if the operating system's random source fails while the
/// generator is seeded or reseeded, a failure of the environment that no
/// precondition can rule out.
#[verifier::external_body]
fn random_u64() -> u64 {
    rand::random::<u64>()
}

impl Id {
    /// A fresh identifier drawn at random. Two identifiers drawn this way may
    /// coincide (with negligible probability); nothing here rules that out.
    pub fn new() -> Self {
        Id(random_u64())
    }
}

} // verus!
