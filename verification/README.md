# pes_savefile

A verified library for the PES 15-21 EDIT savefile: the per-version container
crypto, the bit-run record codec over the decrypted payload, the
version-independent player and team model (the ingame-face run included), and
`EditFile`, the loaded save that rewrites itself byte for byte. Around it sit
the save-level operations (transplant, strip style, comparison, face
fingerprints, cross-version player conversion), the game's own team
export files, the legacy 4ccEditor tactics file, the text of a whole team
document (`[team]`, `[tactics]` and the `[players.NN]` tables, through the
players' key table), and the import of the `[team]` and `[tactics]` tables
into a team.

Every public function in `src/` carries a `requires`/`ensures` contract that
Verus proves; private helpers carry one wherever a caller's proof needs it. The
`law_*` proof functions state properties that span several calls (a read gives
back what a write wrote, an unedited save rewrites byte for byte, an empty
document changes nothing).

Layout:

- `src/` — the library, verified with Verus.
- `tests/` — ordinary Rust tests against the compiled library.
- `app/` — the file-system edges: loading and saving a save, fresh salts, and
  finding saves under the user's Documents folder.

Record layouts, master keys, the per-version instruction tables and the
per-version conversion rules are data the caller supplies (`VersionSchema`,
`MasterKey`, `&[Instruction]`, `VersionRules`); the library checks what it
relies on and states it in the contracts.

Not in this library:

- reading a team document's TOML text, importing its `[players.NN]` tables
  into a team, and building a document from a save's team: the players'
  appearance settings, each version's instruction-code lists and stored-field
  widths, and the text-capacity rules those steps rely on are not part of
  this library's data. The library writes a document's text (`to_toml`,
  `emit_player`) and imports its `[team]` and `[tactics]` tables;
- the legacy `.4ccs` squad file, whose player records carry the same
  appearance settings.
