# whitenoise

The core data model and property propagation of a differential-privacy
validator, written in Verus and proved against its contracts.

- `src/` is the verified library:
  - values (`value`, `array`, `jagged`, `hashmap`, `nd`, `keyed`),
  - static properties of values and their propagation (`properties`),
  - the components `Count`, `Materialize`, `Minimum`, `Partition` and `Sum`
    (`component`, `components/`), each with the property it propagates and the
    bounds from which its sensitivity is computed,
  - errors (`error`) and the IEEE-754 bit patterns used for floating-point data
    (`bits`).
- The `Covariance` component is not provided. Its property propagation and
  sensitivity need a record count per column (a vector of optional counts),
  a `Properties` type with `get_n`, `get_min_f64` and `get_max_f64`, and a
  `Sensitivity` type, none of which this data model defines: here an array
  has a single optional record count, and sensitivity spaces are
  `SensitivitySpace`. Giving it these would mean choosing semantics that
  nothing here fixes, so it is left out rather than guessed.
- `app/` converts to and from `ndarray` arrays and floats, and computes the
  floating-point sensitivity formulas from the verified bounds.
- `tests/` runs the library on concrete values.

Floating-point values are held in the library as their 64-bit patterns; the
arithmetic on them happens in `app/`.
