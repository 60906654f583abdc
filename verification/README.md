# candidature

The verified core of a job-application builder: it reads job postings (pasted
text, addresses, scraped pages), structures them into offers, and prepares
what the language models are asked (in the Anthropic, Ollama and OpenAI
protocols) and what their answers do to a tailored résumé, cover letter and
offer analysis.

- `src/` is the library, written with Verus: every function carries a
  contract over mathematical models (`Seq`, `Map`, the `Json` model of JSON
  values), and the laws that span several functions are public proof
  functions (`lemma_*`).
- The use cases that alternate repository or model calls with decisions
  (offer intake, document generation, one ingested item, a chat turn) are
  step functions from state and event to next state and action
  (`intake_flow`, `generation_flow`, `ingest_flow`, `chat_turn`); the
  caller performs each action and hands back what came of it.
- `tests/` runs the library on concrete inputs.
- `app/` is a small command-line front end: it reads files, arguments and
  the environment, calls the library and prints JSON.

Outside crates are reached from `src/` only through small trusted wrappers
whose contracts state, or name where it would take pages, what the crate
computes (`url`, `sha2`, `base64`,
`scraper`, `encoding_rs`, `serde_json`, `chrono`, `uuid`).
