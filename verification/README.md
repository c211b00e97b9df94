# html5_parser

An HTML parser whose behaviour is stated in contracts and proved with Verus.

```
source text -> tokenizer     (a state machine from characters to tokens)
            -> tree_builder  (a state machine from tokens to a tree)
            -> document      (a tree of nodes with their source positions)
```

`parse` takes a source text and returns the document and every point where the
source departs from the grammar, in document order. It never fails: the document
is complete however many errors there are. It has one `html` element, which begins
with a `head` and a `body` or a `frameset`. Every node and every error is at a place of
the source. The one thing it asks of its input is
that line numbers, column numbers and byte offsets can be counted in the integers
that hold them.

## Layout

- `src/text.rs`: text in ASCII terms.
- `src/token.rs`: tokens, positions and errors, each with its model.
- `src/entities.rs`: the named character references.
- `src/tokenizer/`: the tokenizer. `model` holds its state as mathematical values
  and its elementary steps, `transitions` what each state does with a character,
  `machine` and `states` the executable side of the two, `progress` why it comes
  to an end, `run` the way from one token to the next, `source` how the text is
  read. `attributes` says what holds of every tag, `references` what becomes of an
  unknown character reference, `order` that tokens come in the order of the source,
  `places` that byte offsets decide nothing, `marks` that tokens and errors are at
  places of the source and tags at a `<`, and `stream` what follows for the whole
  stream of tokens.
- `src/document/`: the tree. `model` is a list of nodes with parents and children,
  `arena` the linked nodes that stand for it, `laws` what every change keeps.
- `src/tree_builder/`: tree construction. `model` and `steps` hold its state and
  its steps, `builder`, `insertion` and `adoption` the executable side, `modes/`
  the rules of the insertion modes and of foreign content, `process` the way a
  token takes through them, `progress` why that comes to an end, `laws` what
  relates several steps, `reopening` what opening formatting elements again does and
  leaves alone. `placement` and `placement_rules` say that nodes are at places of the
  source. `completeness` says that every document is complete: `parts` names the
  elements that hold a document together, `frame` says which changes leave the outermost
  elements alone, `structure` what the stack of open elements and the insertion mode say
  about the document, and the `structure_` modules that every step and every rule keeps
  it.
- `src/errors.rs`: document order.
- `src/parser.rs`: `parse`.

Every executable function is specified by a function on models: the contract says
that the model of the new state is that function of the model of the old one.
