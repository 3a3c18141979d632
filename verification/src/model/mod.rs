//! What consumers edit: the version-independent model the codec fills. No I/O
//! lives here; a field a version lacks is `None` or defaulted, and the schema
//! decides what is read and written.

/// The ingame-face run: opaque bytes with typed accessors.
pub mod ingame_face;
/// The canonical advanced-instruction enum.
pub mod instruction;
/// Save-name helpers: colour-code stripping for display.
pub mod names;
/// The player model.
pub mod player;
/// The canonical playing-style enum.
pub mod playstyle;
/// The tactics model.
pub mod tactics;
/// The team model.
pub mod team;
