# fuzaketa

A toy character-level language-model toolkit. The verified library (`src/`)
holds the parts that are integer and text logic; `app/` is the command-line
program that trains and queries a small GPT-2-style transformer with burn.

- `tokenizer`: the fixed-vocabulary character tokenizer (`CharTokenizer`,
  trait `Tokenizer`), with the laws relating `encode`, `decode` and
  `filter_known`.
- `dataset`: `TokenWindowDataset`, pseudo-random (splitmix64) windows over a
  token corpus with their next-token targets, and `TokenBatcher`, which
  stacks items row after row.
- `train`: the integer plan of a training run (micro-batches, gradient
  accumulation, epoch size, seeds).
- `infer`: the context window fed to the model while sampling.
- `model`: the attention head width.
- `corpus`: the byte limit on the corpus that is read.

The model, the training loop and sampling compute on floating-point tensors
and live in `app/`.
