//! Interchange formats: the game's own team export files, and the team
//! document's data shapes and label tables.

/// The `team.toml` document's sections and label tables.
pub mod team_toml;

/// PES's own in-game team export format.
pub mod texport;

/// The legacy 4ccEditor tactics file.
pub mod legacy;
