# workflow_ux

The decision logic of a browser UI toolkit, written in Verus and proved
against its contracts: dialog buttons and their markup, badge options, icon
names and theme folders, avatar values and image addresses, mnemonic phrases,
stage and form navigation, menu captions and layouts, list builders, control
setup from attributes, module registration names and the module loading plan,
markdown rendering, and the checks and names derived from declarations read
from their source text (HTML views, layouts, icon enums, menus and links).

## Layout

- `src/` is the verified library. Each module models its data with spec
  functions and views; the public functions state their results over those
  models, and the public `lemma_*` proof functions state properties that span
  several calls (what a read gives back after a write, what one step undoes,
  what a loading plan never does).
- `tests/` runs the library on concrete values.
- `app/` is ordinary Rust for the browser: it reads the page and the script
  environment, passes plain values to the library and applies what the
  library returns (element attributes, module calls). It also holds what
  needs floating point.

Calls into outside crates (MD5 and SHA-256 digests, case conversion, a
regular expression, markdown parsing and escaping, Rust item parsing with
`syn`, string case mapping) go through small
wrappers whose contracts name or state what those crates compute.

## Modelling choices

- String-keyed maps are held in `StrMap`, a map kept as two vectors with
  its keys in sorted order, whose contents the contracts state as a `Map`.
  Where an order of keys shows (the modules loaded after the load order),
  it is the sorted order.
- A `DataField` is a plain value: clones of it do not share one cell, and
  `set_value` takes `&mut self`. Sharing a value among clones would need
  tracked state, which this library does not use.
- Declarations are read from their source text with `syn`; each part is
  kept as the text its tokens print as.
