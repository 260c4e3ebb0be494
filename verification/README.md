# vetkd_notes

The verified core of an Internet Computer canister that stores end-to-end
encrypted notes and hands out vetKD-derived note keys.

- `src/` is the library, verified with Verus:
  - `note_ids` — the per-owner and per-share lists of note ids, and the updates
    the canister applies to one index entry, with the laws they obey.
  - `rules` — the limits and the checks and plans of each canister endpoint
    (`create_note`, `delete_note`, `update_note`, `add_user`, `remove_user`,
    `refresh_note`).
  - `store` — a model of the canister's three stores and the id counter,
    with the invariant that create, delete and the share updates keep.
  - `listing` — which note ids `get_notes` returns to a user.
  - `vetkd` — the vetKD key requests, the per-note derivation id and the hex
    form of replies.
  - `principal` — the caller's name and the refusal of the anonymous principal.
  - `certificate` — checking a base64/CBOR Merkle proof against a root hash.
  - `http` — HTTP header type.
- `app/` is the canister around it: stable storage, the IC system API, the
  candid types and the calls to the vetKD system API.
- `tests/` runs the library on concrete values.
