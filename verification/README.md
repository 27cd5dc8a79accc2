# wordlebrain

A Wordle solver. The library in `src/` holds the game logic with contracts
proved by Verus: evaluating a guess against a solution (Green, Yellow, Grey
with the usual handling of repeated letters), base-3 pattern keys, the
consistency check and candidate filtering, the word list, one game's
bookkeeping, the decisions of the entropy and random solvers, the steps of a
game played by a solver, the integer features fed to the neural network, the
text forms of patterns, reading a game history from JSON text (the JSON
parse itself is `serde_json`'s), and benchmark tallies.

`app/` is the command-line program around it: argument parsing, terminal
input and output, the entropy sums and the network (floating point, burn),
the first-turn entropy cache on disk, training, and the browser-facing API.

`tests/` runs the library on concrete values.

## Word list

The crate embeds one word list, `WORD_TEXT` in `src/words.rs`: 2,312
five-letter lowercase words, one per line. It is not the 14,854-word list of
accepted Wordle guesses; `load_words` returns exactly the embedded words, in
order, so every count that depends on the list (the candidates at the start
of a game, the first-turn cost of 2,312 x 2,312 evaluations for the entropy
solver) follows from this smaller list.
