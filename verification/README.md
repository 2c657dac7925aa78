# brickellstatus_runtime

The runtime of BrickellStatus: it decides what the Brickell Avenue bridge and a
reader's other channels (weather, official alerts, hurricanes, news, sports,
earthquakes, markets) are saying right now, from what the collectors last
brought back.

The library in `src/` is written in Verus. Its functions carry contracts
over a mathematical model of their inputs, and Verus proves the code meets
them. The exceptions are the small trusted wrappers marked
`#[verifier::external_body]`, each of which makes one call into jiff, sha2,
serde_json, url or std (time zones, digests, JSON number lists, URL parsing,
Unicode character classes, `String::push`); Verus takes their contracts on
trust, and a few state only what holds of every outcome.

- `preferences`, `dto`, `catalog`: the reader's settings, their defaults and
  their validation, and the feed catalog they draw on.
- `sources`: which collectors a set of preferences schedules.
- `refresh`, `revision`: what a refresh cycle polls, what each answer does to
  the kept state, what the cycle reports and whether it may publish, what a
  refresh writes to the bridge ledger, and what a saved preference change
  keeps.
- `availability`, `health`, `ais`: how current each source and channel is,
  and the AISStream connection's status.
- `bridge`, `evidence`, `clock`: bridge transitions, vessels working
  downriver, the observations handed to the opening predictor, and the
  decision and evidence strips made of its answer.
- `rules`, `news`, `summary`, `notice`, `syndication`, `signal`, `ranking`,
  `priority`, `area_context`: which items matter to a channel, in what order,
  and the words a surface shows for them.
- `changes`: which channels a preference change touches.
- `material`: the digest that identifies a channel's current material.
- `snapshot`: the order a channel's notices are shown in, and whether its
  coverage is complete.
- `vessels`: which AIS vessel tracks are shown, in what order, and the
  learned-opener and likely-to-open rules.
- `shadow`: the context half of the shadow opening model.
- `json`, `number`, `decimal_text`, `text`, `digest`: JSON values, exact
  decimals and their text form, text and SHA-256 identifiers.

`app/` is ordinary Rust around the library: JSON and HTTP at its edges, the
serialisable forms of its types, and the rules that compare or print
floating-point measurements.
