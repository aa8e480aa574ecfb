# rginx_control

The decision logic of the rginx control plane, written in Verus: every
function in `src/` carries a `requires`/`ensures` contract that Verus proves,
and the properties that span functions are stated as public proof functions.

## Layout

| Path | What it holds |
| --- | --- |
| `src/text.rs`, `src/number.rs` | text and decimal helpers with their specifications |
| `src/model.rs`, `src/error.rs` | shared summaries, statuses and the service error |
| `src/rollout.rs` | rollout requests, target planning in batches, the reconcile decision, dispatch, task completion, rollback selection |
| `src/conflicts.rs`, `src/drafts.rs`, `src/nodes.rs` | the checks, error messages and creation sequence of the rollout, draft and node services |
| `src/dns.rs` | DNS plan validation, query matching and answer simulation |
| `src/compile.rs` | the summary of a compiled configuration |
| `src/diff.rs` | line diffs of revisions |
| `src/alerts.rs`, `src/dashboard.rs` | alerts in order of urgency, the dashboard summary and Prometheus text |
| `src/auth.rs` | password hashes, signed tokens, login and bootstrap decisions |
| `src/store.rs`, `src/service.rs` | store and service settings, key space, count conversions |
| `src/api.rs`, `src/console.rs`, `src/display.rs`, `src/runtime.rs` | console URLs, labels and runtime summaries |
| `src/loading.rs` | the steps of loading a console detail page |
| `app/` | the process edge: environment, clock, JSON token claims, address parsing and name resolution |
| `tests/` | tests on concrete values |

Calls into `ring`, `sha2`, `base64` and `ipnet` go through small trusted
wrappers whose contracts are stated next to them.
