# OpenC3 COSMOS launcher

The launcher installs, runs, monitors and updates COSMOS, and pairs with its
bridge. `src/` holds what it decides, with contracts that Verus proves; `app/`
holds the files, processes, threads and network connections around it.

The library does nothing on disk, in Docker or on the network by itself:

- A command (`commands`, `status`, `installer`) makes a `Plan`: steps, each with
  what becomes of the plan where the step fails. Whoever carries the plan out
  performs its first step and hands the outcome to `Plan::resume`.
- A conversation (`check`, `connection`, `token`) is a state that names the open
  question. Whoever holds it finds the answer and hands it to `resume`.
- The rest (`version`, `precedence`, `update`, `identity`, `enroll`, `text`)
  computes.

The laws of the library stand beside what they speak of, as public proof
functions: among them that a declined cleanup removes nothing; that an upgrade,
whether it succeeds or fails, comes to the writing back of each of the user's
files that it could read before it ends; that a check reports only what the
answers have shown; that a release comes after its prereleases; that a secret key
which was written is read back; and that a ticket which the user supplied is
never replaced.
