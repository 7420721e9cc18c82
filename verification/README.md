# solang_driver

The driver of a Solidity compiler: it takes a command line, asks the compiler to resolve, emit and
link, and decides which files are written, which lines are printed, what the JSON output holds and
how the run ends.

* `src/` is the library, verified with Verus: what a command line means, what is done in which order,
  what is said and written, and how a run ends, also where a step fails.
  * `settings`, `imports`, `output`: the command line, where imports are looked for, what is printed
    and written.
  * `process_file`, `intermediates`, `bundle`, `compilation`, `docs`: the work on one file, the early
    stages, the linking for Solana, the whole compilation, the documentation. Each says what it waits
    for, takes the compiler's answer in a step and returns the effects to perform.
  * `json`, `string_map`, `names`, `text`: the JSON result and the texts in it.
  * `outside`: the calls into other crates, with the contracts that are relied on.
  * `file_laws`, `stage_laws`, `input_laws`: what holds of the work on a file, at an early stage, and
    on all inputs one after the other.
  * `run_laws`, `complete_laws`, `outcome_laws`, `frame_laws`: what holds of every run, of runs from
    beginning to end, of such runs case by case, and what stays as it is.
* `tests/` runs the library.
* `app/` is the program around it: it reads the command line and starts the compilation, the
  documentation or the language server, runs the compiler, writes files and serializes. It is built
  with the compiler crate `solang` and with `inkwell`.
