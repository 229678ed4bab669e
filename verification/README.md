# soroban_env_host

A smart-contract host, written in Verus: its functions carry contracts, and the
contracts are proved.

A host keeps a table of immutable objects. Guests and the host pass tagged values
to one another: small ones hold their contents, others are handles of objects.
Around the table stand the ledger, the running contracts, the event log, the
agreements of addresses and a budget, and on top of it runs the token contract.

* `src/model.rs` says what values denote and how what they denote is ordered.
  Contracts speak of values by what they denote.
* `src/host.rs` holds the state of a host and its invariant, `wf`. The
  `host_*.rs` files hold the host functions: integers, maps, vectors, byte
  strings, guest memory, ledger entries, contracts, calls, agreements, addresses,
  signatures and random numbers.
* `src/token/` is the token contract; `src/token/laws.rs` says what holds of it
  as a whole.
* `src/crypto.rs`, `src/xdr.rs`, `src/xdr_value.rs`, `src/prng.rs` and the end of
  `src/bignum.rs` hold the calls into other crates. What is claimed of those crates stands in the doc
  comments there.
* Functions named `law_*` state what holds of several functions together.
* `app/` is ordinary Rust around the library: shared ownership, the XDR forms of
  agreements, and the panics of test contracts.

Functions ask for the invariant of a host and keep it. Code that is not verified
should change a host by its functions alone; its fields are public because the
contracts speak of them.

A budget is charged where a host function looks up an object, copies contents,
reads or writes guest memory, computes on 256-bit integers, hashes, checks
signatures, draws random bytes, compares symbols, or reads or writes an XDR form.
What comes of that inside other work is not metered: comparing nested values,
making trees of values and back, checking that values are good, and finding ledger
entries and agreements.
