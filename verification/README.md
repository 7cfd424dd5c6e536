# aweos

The logic of the AWE_OS platform services as a Verus library: the
functions in `src/` carry contracts that Verus proves, except the few
wrappers marked `#[verifier::external_body]` (the calls into `sha2`,
`hmac`, `ed25519-dalek` and `core::str::from_utf8`), whose contracts are
assumed. The PCI backend trait's contract is likewise assumed of each
implementation outside the library.

- `src/storaged`, `src/netd`, `src/driverd`, `src/awosa`, `src/ayui`,
  `src/platformd`, `src/initd`, `src/identityd`, `src/update`, `src/nexus`,
  `src/securityd`, `src/appd`, `src/kernel`: one module per service, with
  its tables, state machines, parsers and encoders.
- `src/tools`: the script interpreter, the installer wizard (pages, modes
  and the frame it draws) and the package image builders.
- `src/bytes.rs`, `src/table.rs`: byte codecs and slot-table facts shared
  by the services.
- `app/`: the host program: file I/O for the builders, the host commands
  of the installer modes, the Win32 window and the privileged CPU and port
  instructions.
- `tests/`: the service scenarios and checks of the laws on concrete values.

Hashes, HMAC and Ed25519 come from the `sha2`, `hmac` and `ed25519-dalek`
crates, through the wrappers in `src/securityd/crypto.rs`; what they return
is named there, not proved.
