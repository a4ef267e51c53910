# gitui

A tool for stacked branches: it shows the tree that the branches of a git
repository form, plans how to submit, sync or converge them, and carries the
plans out.

- `src/` is the library, verified with Verus: the tree and its columns
  (`tree`, `style`, `text`), plans and why they are refused (`plan`,
  `plan_text`), the cascade that brings every branch along (`cascade`), carrying
  plans out (`apply`), the state of a repository (`status`), pull requests
  (`engine::github`), the steps of the reading thread (`worker`) and the command
  line (`cli`).
- `app/` is the program: reading repositories, running commands, the terminal,
  JSON.
- `tests/` runs the library, among others on a small repository in memory.

What the engine knows of a repository, and what it does to one, comes into the
library as functions. Where a function changes the repository, the repository is
handed to it by value and comes back by value, so that the contracts can say
which calls are made and in which order.
