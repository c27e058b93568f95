# vs1

A verified library for one-pass decision models: it asks typed questions
(choices, scores, statements) of a state and reads typed answers off a model's
scores.

- `src/` is the library, written in Verus. It holds prompts and schemas, token
  budgets, batching, caches, checkpoint indices, adapters, the decisions about
  which kernel runs on which operands, and the state machine of a hosted call.
  Scores are held by their bit patterns: the library orders and tests them and
  does no arithmetic on them. Tensors are held by their shapes and layouts.
- `app/` runs the library: arguments, files, downloads, HTTP, and arithmetic on
  tensors.
- `tests/` runs the library on concrete values.

Modules by subject:

| Subject | Modules |
| --- | --- |
| Requests, answers, errors | `types`, `error`, `device`, `score` |
| Texts, tables, orders | `text`, `table`, `sorted`, `ordering`, `batching`, `tokens` |
| OpenJev | `openjev` |
| GLiNER2.5-Decide | `gliner_decide` |
| Hosted Jev | `jev` |
| Cua-S1 | `cua_s1` |
| Encoder and head | `modernbert`, `head`, `prepared_cache`, `masks` |
| Kernels | `tensor`, `gemm_cuda`, `parallel_cuda`, `cutlass_geglu`, `geglu_cuda`, `bias_act_cuda`, `residual_norm_cuda`, `rope_cuda` |
| One interface for all models | `backend`, `responses`, `cli` |

What holds of several functions at once is stated in public proof functions,
most of them in the `laws` module of a model.
