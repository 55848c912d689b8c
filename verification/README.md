# repo_analyzer

Reports on a git repository: who changes what, how often and how much of it
together, how old and how complex the code is, and what stands out.

`src/` is a library verified with Verus. Each report is a collector whose
contract says exactly which rows the report shows and in which order, given the
rows of the history or the files of the tree. `src/lib.rs` says what each module
is for.

`tests/` runs the library.

`app/` is the command line program: it reads the repository with `gix`, keeps the
changes in SQLite, asks it for the rows that the collectors take, and writes the
reports as tables, JSON, CSV or a page. It also holds the two formulas that need
logarithms.

## Numbers

Shares and rates are kept as two whole numbers. What is compared, ranked or shown
is their quotient in double precision, which `src/double.rs` works out in whole
numbers and states exactly. Shown numbers have two places, and one halfway between
two goes to the even one. Counts that could pass 64 bits are bounded in the
contracts, or stay at the largest number once they get there.

## Languages

About five hundred languages are told apart by the names of their files, and their
comments from their code. Functions, methods and classes are found in fifteen of
them; complexity, clones and documentation are measured in eight of those.

## What is trusted

Verus does not look into other crates. The calls into `regex`, `tree-sitter` and
its grammars, `aho-corasick`, `linguist`, `dashmap`, `serde_json`, `csv` and
`chrono`, and a few into the standard library, stand in small functions marked
`#[verifier::external_body]`, each with a comment on what it claims. Two searches
of `memchr` are called as they are, under contracts that are assumed.
