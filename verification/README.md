# solana_programs

Four small on-chain programs, written as verified Verus code over plain
account data:

- `src/voting.rs` — a ballot: a chairperson opens it and adds proposals;
  voters delegate or cast weighted votes.
- `src/shared_wallet.rs` — a multisig wallet: owners propose instructions
  and approve them; an instruction that at least the wallet's threshold of
  owners approved is executed at most once through the wallet's
  program-derived signer address.
- `src/identity.rs` — a username registry at username-derived addresses.
- `src/solblog.rs` — a blog account holding the latest UTF-8 post.
- `src/accounts.rs` — keys, keyed accounts with their signer, writable and
  in-use flags, the account-check errors, and the trusted calls into
  `anchor-lang` that derive program addresses.

Each handler's contract is a spec predicate relating the accounts before and
after the call and the result; laws over several calls are proof functions at
the end of each module. `app/` holds the runtime glue: key conversions, a borsh
copy of the wallet's instruction account, the account checks run before the
handlers it wraps, and the cross-program invocation of the wallet.
