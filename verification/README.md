# ashkorix

A local-only retrieval-augmented question answering library for GGUF models, with its
contracts proved by Verus.

## Layout

- `src/` — the verified library.
  - `text`, `offsets`, `ids`, `patterns`: characters and their UTF-8 byte offsets, hashing
    and identifiers, and the regular expressions the rest relies on. Offsets into document
    text are byte offsets, as in Rust string slicing.
  - `chunking`: recursive splitting, windows with overlap, and the heading-hierarchy chunker
    that builds sections, chunks, tables, entities and neighbour relations.
  - `documents`: document and graph types, section structure, entity extraction and the
    built-in importers' text handling.
  - `config`: data directory choice, model path resolution, local-only checks.
  - `memory`: memory types, the memory block and prompts, direct answers from memory,
    extraction prompts and the reading of the model's reply, scoring pieces, and the record
    logic of the store (new records, updates, approving candidates).
  - `cite`, `rag`: source blocks, citation markers, filters, budgets, numbering, the
    retrieval agent, corpus maps, prompts, context expansion and claim verification.
  - `search`, `rerank`: query plans, fusion sources, index health, summaries, the heuristic
    overlap and token batch packing.
  - `llm`: GPU layer choice, CUDA detection and the generation loop's decisions.
  - `extensions`, `doctor`, `payloads`: importer extensions, the environment report and the
    streamed payloads.
  - `laws`: properties that relate several functions.
- `tests/`: tests of the library.
- `app/`: the `ashkorix` command (configuration, model listing, environment report) and the
  file-system, JSON, TOML and floating-point parts around the library.
