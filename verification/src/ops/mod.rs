//! Save-level operations built on the model: the aesthetics transplant, the
//! strip-style readout and the face fingerprint.

/// Aesthetics transplant between two saves of one version.
pub mod transplant;
/// The strip-style readout and the hidden-player test.
pub mod fpc;
/// The face fingerprint.
pub mod fingerprint;
/// The comparator's rows and their scope.
pub mod compare;
