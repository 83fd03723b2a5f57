# python_terms

The terms that Python values and operations compile to, written and proved in
Verus.

- `src/` is the library. A Python value is a type and a term; each operation
  builds a new term or says why it is refused. The contracts state exactly what
  is built. On top of them stand laws: operations keep values well typed, they
  mean what their names say, and inputs are put together from the variables that
  were declared for them.
- `tests/` runs the library on concrete values, with a small evaluator of terms.
- `app/` carries terms between the library and the CirC compiler. What only CirC
  can answer (the configured field, the sort of a term, the constant that a term
  folds to, a new variable) is asked for there and handed to the library.

`gmp-mpfr-sys` is a dependency of `rug`. It is named in `Cargo.toml` to switch on
the feature that lets `rug` use the GMP of the system.

Integers of any size are computed by `rug`, behind a few functions at the end of
`src/integer.rs`; their contracts and that of `Rc::clone` in `src/ir.rs` are all
that is believed without proof. Of `Formatter::write_str` in `src/ty.rs`, which
debug text goes through, nothing is claimed.
