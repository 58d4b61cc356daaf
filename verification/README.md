# gitlens

The logic of an onboarding-tour pipeline for git repositories, verified with
Verus: commit-history heuristics and the merge of per-subsystem mining
results, significance-ranking post-processing, the prompts of every model
stage, the mock provider's replies, and the assembly of narrated tour stops.

- `src/` — the verified library. Each public function states its result in
  its `ensures`; the `*_laws.rs` modules and the `law_*` proof functions state
  what holds across calls (ranking output shape, merge dedup and order, stop
  order, what the mock provider reads back from a ranking prompt, flag-merge
  algebra, distinct whole-tour cache keys).
- `tests/` — tests on concrete values.
- `app/` — the desktop-shell side: git access (`git2`), HTTP (`reqwest`),
  child processes and timers (`tokio`), JSON (`serde_json`), disk caches and
  the model-provider trait. It hands plain values to the library.

Model scores are carried in the library as the IEEE-754 bits of their `f32`
value, unchanged; they are compared through `ranking_types::score_key`, a
`u32` key that orders exactly as the scores do. For every model reply the
library decides which source is read (the structured output when the
provider returned one, else the reply text parsed as JSON) and which error
comes back; it reads the narration and commit-summary members itself through
`serde_json`, while the typed file-summary read and the float scores of the
ranking reply are read in `app/`.
