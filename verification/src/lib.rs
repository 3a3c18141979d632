//! The PES EDIT savefile (`EDIT00000000`, `EDIT.bin` on PES 15): the per-version
//! container crypto for PES 15-21, the bit-run record codec over the decrypted
//! payload, the version-independent player/team model, and `EditFile`, the loaded
//! file that rewrites itself byte-exact.
//!
//! Layers, bytes upward: `container` (bytes <-> decrypted sections, knows nothing
//! about players), `schema` + `codec` (sections <-> fields, knows nothing about
//! encryption), `model` (what consumers edit, no I/O), and `file` (`EditFile`, the
//! only module that composes container and codec).

/// Records <-> fields: the bit-run codec over a record schema.
pub mod codec;
/// Bytes <-> decrypted sections: the PES 16-21 keyed container and the PES 15 one.
pub mod container;
/// The game versions the savefile format exists for.
pub mod version;
/// Record layouts and the field enums the codec moves values through.
pub mod schema;
/// What consumers edit: version-independent player/team/tactics entries, no I/O.
pub mod model;
/// The open save: the retained container plus the decoded players and teams.
pub mod file;
/// Interchange formats: the game's own team exports, and the team document's
/// data shapes, label tables and the import of its team and tactics tables.
pub mod interchange;
/// Save-level operations: transplant, strip style, face fingerprint.
pub mod ops;
/// Savefile discovery data: the per-version folder layout, account folders and
/// the newest-first order of the saves found.
pub mod discovery;
/// What a cross-version conversion reports.
pub mod convert;
