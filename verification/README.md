# apc-proxy

A proxy that answers HSM host commands (Thales payShield 10K, Futurex Excrypt)
through AWS Payment Cryptography (APC). The logic is a library that is verified
with Verus; a small program around it does the input and output.

## Layout

- `src/` is the verified library.
  - `protocol/` cuts commands out of a byte stream and frames the answers.
  - `handlers/` says, for each command, which call to APC it leads to and what the
    reply is turned into. `handlers/registry.rs` finds the handler of a command,
    `handlers/grounding.rs` reports why each handler behaves as it does.
  - `key_map.rs` resolves the key fields of commands to APC keys.
  - `server.rs` holds the decisions of a connection. `verify.rs` and `hsm_probe.rs`
    judge what is found before going live, and `verify_run.rs` says what is asked
    and in which order, up to the report.
  - `apc.rs` describes the calls and replies of APC as plain values.
  - `secret.rs` holds text and bytes that are wiped when they are dropped.
- `app/` is the program: configuration, sockets, TLS, the AWS SDK.
- `tests/` runs the library on concrete values.

## How a command is served

A handler does not call APC itself. `Handler::start` answers a command, or says
which call to make and what is pending; the program makes the call and hands the
reply to `handlers::resume`, which answers or says which call comes next. So every
decision is a function of plain values, with a contract that gives its result
exactly. The laws that span several functions stand beside them as proof
functions, each with its statement in words.

What is taken on trust are the contracts of a few outside functions: conversions
between bytes and text of the standard library, `hex::encode_upper`,
`bytes::Bytes`, and `zeroize`. Each is declared where it is used, with what is
claimed of it.
