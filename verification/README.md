# moonclient

A resilient HTTP client whose decisions are verified with Verus: which requests are sent when, what
a response means, how rate limiting rules change, and what ends up in which log file.

## Layout

- `src/` is the verified library. It works on plain values only.
  - `client`, `exchange`: settings, the builder, and the life of one request from the pre-request
    hook to extraction, with at most one replay after `401 Unauthorized`.
  - `limiter`, `quota`, `redis_limiter`: token buckets and the rules for them, and a budget that
    several processes share through a sliding window log.
  - `response`, `status`: bounded bodies, extraction of typed values, status codes in words.
  - `error`, `api_errors`, `diagnostics`: errors and the messages for them.
  - `endpoint`, `segment`: endpoint addresses.
  - `logger`, `moment`: log lines and their destinations.
  - `text`, `time_span`: small foundations.
- `app/` is the asynchronous client around it: `reqwest`, `governor`, Redis, files and tasks. It
  performs the actions that the library asks for and reports what came of them.
- `tests/` runs the library, with the outside crates linked.

## What is proved

Every function of `src/` has a contract. The public proof functions named `law_…` state what holds
of several functions together, for example:

- a request is sent at most twice, and a second time only after the session was refreshed;
- nothing is sent before the pre-request hook and the limiter are done with that very attempt;
- setting a rule replaces the one for its window and leaves the others, and the tokens spent there,
  alone;
- a shared budget never lets more requests through in one window than its limit, however many come
  in one millisecond, while the clock does not run backwards;
- no request is sent before every token bucket can have given a token to it and to all before it;
- a body never takes more memory than its limit, however it arrives;
- no record goes to both of the split log files.

Calls into other crates stand behind small functions whose contracts are believed: quotas of
`governor`, parsing and extending URLs with `url`, timestamps with `chrono`, reason phrases of
`http`, and the standard library's lossy decoding of text.
