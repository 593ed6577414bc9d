# OpenBao certificate client

A Windows tray client that enrols the root certificates of a homelab, signs its
user in through OpenBao's OIDC flow, and has certificates signed whose keys
Windows or a YubiKey keeps. Its decisions are a library that is verified with
Verus; the tray application around it only sends, runs and stores.

## Layout

- `src/` is the verified library. Its functions state what they return, over
  mathematical views of the data; where the clock, chance or Windows has a say,
  they state what holds whatever it says, and a function beside them that takes
  the answer is exact. The laws that hold across functions are public `law_…`
  proofs.
  - `config`, `state`, `login`, `api`: deployments, sessions, the login, and the
    requests and replies of OpenBao.
  - `x509`, `chain`, `certificates`: certificates as plain values, the path to a
    trusted root, and what a signed certificate is held against.
  - `enrollment`, `windows`, `yubikey`, `roots`, `store`, `process`: the
    procedures on Windows and on a YubiKey. Each is a state machine that says
    what to do next and takes what came of it.
  - `issuance`: the whole way to a certificate.
  - `oidc`: the identity provider of the lab.
  - `redaction`, `secret`, `encoding`, `address`, `version`, `text`, `error`:
    what the others stand on.
- `tests/` runs the library on concrete values.
- `app/` is the tray application and the lab's HTTP server.

## What is taken on trust

Functions of other crates stand behind small wrappers marked
`#[verifier::external_body]`, each with a comment that names the function and
says what is claimed of it. What takes pages to state (a digest, a PEM block, a
parsed certificate) is a named function of its arguments, and the logic behind
the call is a verified function of the result.
