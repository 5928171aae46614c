# kpasskey

Use an Android phone as a passkey for a KDE desktop: when the desktop asks for a password,
you approve it on the phone with a fingerprint instead. The desktop verifies an ECDSA P-256
signature, from a key recorded at pairing time, over the exact request it sent.

## Layout

- `src/` — the library, verified with Verus. Each module states its behaviour in
  `requires`/`ensures` contracts over spec functions, and the properties that span
  several calls are proof functions (`lemma_*`):
  - `protocol`, `link` — the signed request line, reading the phone's reply, key loading,
    signature checks, device ids and fingerprints;
  - `pairing`, `store` — pairing windows and single-use tokens, device records, their file
    names and the ordered listing;
  - `router`, `daemon` — routing replies to the request that waits for them, and every
    decision the daemon takes on a message from the phone, PAM or the FIDO helper;
  - `ctaphid`, `webauthn`, `fidolink` — the virtual FIDO authenticator: uhid events,
    CTAPHID framing and reassembly, CTAP2 requests and responses;
  - `cli`, `manager`, `proximity`, `selftest` — the command line, the System Settings rows,
    the BLE proximity advertisement, and the signature self-test;
  - `json`, `text`, `bytes`, `primitives` — JSON output, text and byte helpers, and the
    calls into `sha2`, `base64`, `p256`, `serde_json` and `rand`, each behind a trusted
    wrapper whose contract says what the crate promises.
- `tests/` — tests of the library against concrete values.
- `app/` — the program: sockets, files, tokio, D-Bus (zbus), `/dev/uhid`, and the
  decoding of JSON and CBOR into the library's values. Started as `kpk-ble-selftest` it
  runs the BLE radio self-test.
