# stellar-contract-verify

A plugin of the Stellar CLI that verifies that a contract's WASM reproduces from
the build metadata it records. It reads the WASM's `contractmetav0` section,
fetches the recorded source archive, rebuilds the contract in the recorded,
digest-pinned image, and compares the result with the original.

The library (`src/`) holds every decision, with contracts that Verus proves. The
program (`app/`) performs what the library asks for: it reads files, downloads,
unpacks, and runs the container engine.

| Module | What it holds |
| --- | --- |
| `meta` | the metadata of a WASM |
| `encoding` | how metadata stands in the bytes of a WASM |
| `trust` | what is trusted, and what must be asked for |
| `source` | the source archive: its place, format and digest |
| `tree` | the unpacked source, closed to everybody but its owner |
| `engine` | the choice of a container engine, and its commands |
| `container` | the command of the rebuild, and the choice of the rebuilt WASM |
| `verify` | what the user asks for, the announcement and the verdict |
| `session` | a run, as a state machine from events to actions |
| `history` | what holds of every run |
| `terminal` | that what a run writes is harmless to a terminal |
| `cleanup` | what an interrupt cleans up |
| `net`, `print`, `shell`, `digest`, `path`, `text`, `seqs`, `error` | what these rest on |

What the library states as a whole stands in the public proof functions whose
names start with `law_`. The functions that call outside crates, and whose
contracts are trusted, are marked `#[verifier::external_body]` and say so in
their comments.
