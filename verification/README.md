# glasgae

Functional programming abstractions for Rust — semigroups and monoids, functors,
applicatives and monads, folds and traversals, and monad transformers — with every
operation specified and proved with Verus.

## Layout

- `src/base/data`: the data types and classes: `Maybe`, `Either`, `Identity`, tuples,
  lists (`Vec`, `VecDeque`, `String`, arrays), the ordered collections `BTreeMap` and
  `BTreeSet` (with the order of their keys in `ordered.rs`), rose trees, the monoids
  `Sum`, `Product` and `Endo`, folds and traversals, and the functor and monad laws
  (`laws.rs`).
- `src/base/grl`: booleans, numbers, I/O actions and lazy values as monads, parsing
  and rendering values as text.
- `src/transformers`: `StateT`, `ReaderT`, `WriterT`, `ExceptT`, `MaybeT`, `IdentityT`,
  `Lift` and `Errors`, with their laws (`laws.rs`). The bind, return and application of
  `MaybeT` and `ExceptT`, handling exceptions and `finally`; the bind, `then_m`, `fmap`
  and application of `StateT` and `ReaderT`, with `StateT`'s `new`, `get` and `put` and
  `ReaderT`'s `ask` and `asks`; and the writer's bind, `fmap`, `exec_t`, `listen`,
  `listens`, `pass` and `censor` work over any inner monad, specified through the inner
  monad's own relations, so that transformers stack. The rest is given over the identity
  monad.
- `src/base/data/constant.rs`: the constant functor, an applicative over a semigroup;
  `Errors` is `Lift` over it.
- `src/mtl`: the classes of writer monads, and the reader and state operations of a
  writer over a reader or a state computation.
- `src/logger`: a logging monad over a logger function, a logging monad with a state
  (the depth of indentation of the messages), the levels of the `log` crate and the lines
  that a printing logger writes.
- `src/zipper_cont.rs`: lambda terms and a traversal driven by a choice function.
- `app/`: what stays outside verification: I/O on streams and files, logging back ends,
  rendering through `std::fmt`, and the continuation monad.

Functions that take functions are specified by the relation that the function's
postcondition establishes between its arguments and its result, so each contract holds
for every function passed in. Values of a monoid are specified by their models.

The ordered collections behave as documented only for keys whose `Ord` is a total order;
their contracts hold where the keys' order follows Verus's model of ordering
(`strictly_ordered`), as the integer types' order does.
