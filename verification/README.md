# assistant_core

The platform-neutral core of the halogenOS Group Assistant as a verified
library: every decision the core takes between reading and writing — the
message vocabulary, the command catalogue, the write-time stamp and the
owing-tail walk it is composed against, the answering budgets, the channel
and sender admissions, the revision reading, the compaction policy, the
composing cue, the recorded kinds with their stored shapes and erasure, the
delivery receipts and retractions — is stated as a contract over a
mathematical model and proved with Verus.

- `src/` — the library. Each module states its types' views and its
  functions' contracts; the cross-function properties stand as public proof
  functions beside the code they speak of.
- `tests/` — executable tests against the compiled library.
- `app/` — the edges around it: the rendered error type, the JSON shape of a
  stored row, the SQL the tables answer, the composing edge's loop and the
  acknowledgment stream's reader.

The one outside call inside the library is chrono's RFC 3339 rendering of
an instant, behind a wrapper in `src/clock.rs` whose contract names its
result.
