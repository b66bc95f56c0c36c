# slacc

System statistics for Misskey (disk operations, memory, network traffic and
disk space), a multi-pattern matcher and an RSA signer, written in Verus.

- `src/` is the verified library. `linux`, `macos`, `freebsd` and `windows`
  turn what each platform reports into totals; `imp` checks system-call
  status codes and dispatches the statistics by platform; `counters` holds
  the saturating sums and their laws; `bytes` reads integers
  from received buffers; `pattern_match` and `rsa_signing` use the
  `aho-corasick`, `rustls-pki-types` and `aws-lc-rs` crates behind stated
  contracts; `arguments` holds the switches of the command.
- `app/` makes the system calls and hands the results to the library: the
  `misskey-stats` command and the Node bindings.
- `tests/` runs the library on concrete inputs.
