# tokensave

Client-side rules of the worldwide token counter and of the release check,
written in Rust and verified with Verus.

- `src/` is the verified library. Its functions take plain values: the
  configuration and the clock, a reply that came back, a version string.
  - `user_config`: the bookkeeping around uploads.
  - `cloud::upload`: when an upload is due, requests to the counter, its replies.
  - `cloud::update_check`: the switch of the passive notice, requests for
    releases, and what the replies mean.
  - `cloud::release`: platforms, asset names, the choice of a release, and the
    reasons why there is none.
  - `cloud::version`: version numbers, their order, the size of an upgrade.
  - `cloud::install`: how the tool was installed.
  - `cloud::request`: requests as plain values, and the setup of the client.
  - `cloud::agent`: the HTTP client and its settings.
  - `cloud::text`: string operations with their specifications.
- `app/` sends the requests and reads the environment.
- `tests/` runs the library.
