# srxformer

The verified core of a family of micro language models.

- `src/classic`: vocabulary and tokenizer, model geometry, weight files, caches, seeding, training
  schedules, decoding and telemetry of the classical transformer.
- `src/corpus`: the training corpora over the controlled vocabulary, with their exact sizes.
- `src/qreno`: the byte field, its partition into clusters and the lattice segmenter.
- `src/scaled`: the scaled models, their sizes, sampling, command line and benchmark rules.
- `src/trials`: control suites, compute budgets, checkpoints and the cost of long contexts.
- `src/text`, `src/scan`, `src/float_bits`, `src/xorshift`: characters, scanning, the order of
  single-precision bit patterns, and the pseudo-random generator.

Every function of the library has a contract that Verus proves; laws that span functions are the
public proof functions whose names begin with `law_`. Weights are generic: the library moves,
counts, orders and frames them, and does no floating-point arithmetic. That arithmetic, files and
clocks are in `app`, an ordinary program on top of the library:

    base | corpus-v2 | corpus-v3 | chinchilla | train-file <path> | two-stages
    generate-data | prepare-chinchilla | isotime [options] | long-context [tier]
