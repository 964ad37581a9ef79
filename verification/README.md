# Harvest

Harvest turns C projects into Rust packages with coding agents, and grades what
comes out. This crate holds its rules as a Verus library: the functions in `src/`
are verified against their contracts, except for the calls into other crates and
the standard library that are named below. `app/` is the program around it, which
does the reading, the writing and the running of other programs.

## The library

| Module | What it holds |
|--------|---------------|
| `benchmark` | Arguments, the course of a program through a run, grading, snapshots, statistics, declared sets of experiments |
| `agent` | What agents are told and given, how a run of one ended, the toolchain contract, sessions |
| `tools` | The stages: prompts, what is done before and after an agent, the repair of declarations, loading suites and snapshots |
| `pipeline` | Which tools run, on what inputs |
| `safety` | How much of a crate is unsafe, and what its exports expose |
| `fs` | Directory trees in memory, freezing of directory trees, read-only references |
| `stage_manifest`, `full_source`, `config`, `cmake_presets` | The layout of a snapshot and the configuration of a run |
| `text`, `text_map`, `path`, `bytes`, `num`, `json`, `pattern`, `rust_syntax` | What the others are made of, and the edges to outside crates |

Contracts are stated over views: a text is a sequence of characters, a path is
what its components make of it, a directory tree is a sequence of named entries.
What the modules promise as a whole stands in public proof functions, such as
`fs::reference::reported_means_changed` or
`benchmark::experiment::plan::outputs_are_distinct`.

What is believed without proof is marked `external_body` or
`assume_specification` and says above it what is claimed: the parsers of
`serde_json`, `syn`, `proc_macro2` and `regex`, the digest of `sha2`, and a few
functions of the standard library.

## The program

    harvest-benchmark INPUT_DIR OUTPUT_DIR --agentic --agent=NAME --model=MODEL
    harvest-benchmark --test OUTPUT_DIR
    harvest-benchmark sweep SET.toml [--plan | --status] [--only ID] [--force]

Prompts and templates are read from the directory that `HARVEST_PROMPTS` names.
