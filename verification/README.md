# gwx

Multi-account, policy-governed access to Google Workspace for AI agents, built on the
`gws` engine. The commands' decisions, exit codes and texts live in the verified
library under `src/`; `app/main.rs` parses the command line, reads the environment
and standard input, starts the processes the library describes, passes `gws` output
through unchanged, and prints what the library returns.

- `src/text.rs`: white space, trimming, line splitting, joining, decimal rendering.
- `src/config.rs`: remote mode, credential and configuration directories, `$HOME` expansion.
- `src/draft.rs`: the RFC 822 draft message and its URL-safe base64 form, with the
  round-trip law.
- `src/links.rs`: Google file links in a mail body, each file id once.
- `src/gws.rs`: how `gws` and the shell probes run per account and mode; exit codes,
  error envelopes; the account list.
- `src/commands.rs`: the `gws` arguments of each command.
- `src/policy.rs`: review gate, OAuth scopes (never `gmail.send`), sign-in plan.
- `src/report.rs`: what each command prints, and its exit code.
