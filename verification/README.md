# dspy_rust

Programming language models with declarative signatures, composable modules
and optimizers, with the library's logic verified by Verus.

- `src/` is the verified library: examples and predictions, the chat, JSON
  and XML prompt formats and their reply parsers, the decisions of the
  ReAct, CodeAct, ProgramOfThought, Retry, Refine and Streamify modules, the
  saved state of predictors, the choices the optimizers make (demos,
  instruction candidates, ensembles, fine-tuning data), retrieval texts,
  token usage and what the model clients read from replies. The functions
  carry contracts over a mathematical model (the methods that implementors
  of `SignatureFields` and `FromExample` supply are the exception); the laws
  that relate several functions are public proof functions.
- `app/` is the runtime around it: model clients, settings, the async
  modules and optimizers that talk to models and score with floating-point
  metrics, and the JSON forms of the library's values.
- `tests/` runs the library on concrete values.

Outside crates are reached from `src/` only through a few trusted wrappers
(`regex`, `serde_json`, `rand` and three `std` functions), each with a
contract stated in its doc comment.
