# pullkit

Inspects and syncs configured git repositories.

`src/` is the library, verified with Verus: the configuration and its faults, what
the answers of git mean, the steps of an inspection and of a sync, the table of
running commands and how they are stopped, the waits for a command, the locks on
the repositories, the course of a whole run, the list and the sync screen as rows
of text. Each function states in its contract what it
returns; the laws that relate several functions are public proof functions.

The library does no I/O. An operation that alternates work and decisions is a
function from what is known so far to the next step; `app/` performs the step and
comes back with what it brought: the configuration file, the processes, the
threads, the terminal and the window.

What is taken on trust is the text that bytes stand for
(`String::from_utf8_lossy`), the grapheme clusters of a text
(`unicode-segmentation`) and the width of a cluster (`unicode-width`).

`tests/` runs the library on concrete values.
