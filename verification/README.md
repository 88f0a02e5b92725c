# virtualbow

The bow model of VirtualBow: its data, its validation, and the migration of
bow files of older versions to the latest one, written in Verus and verified.

Every real number of a model is an IEEE 754 binary64 value. The library holds
it as its bit pattern (`binary64::Binary64`) and gives it an exact meaning:
the value of a finite number is an integer multiple of 2^-1074, comparisons
follow IEEE 754, and addition, subtraction, multiplication, division and
halving round to nearest, ties to even, as IEEE 754 prescribes.

Layout:

- `src/binary64.rs`: binary64 numbers, IEEE comparisons and halving.
- `src/rounding.rs`: rounding of exact results to 53 significant digits, and
  taking magnitudes apart into significand and exponent and back.
- `src/arithmetic.rs`: IEEE addition, subtraction, multiplication and
  division.
- `src/division.rs`: rounding of quotients.
- `src/validation.rs`: checks of single values (finite, positive, in range,
  names, `#RRGGBB` colors) and the "first failing check" combinators.
- `src/errors.rs`: why a model is rejected.
- `src/model.rs`: the latest model (full bow, upper and lower limb), its
  validation, constructors, views and an example bow.
- `src/joint.rs`: the non-fatal continuity checks where the upper and the
  lower limb meet.
- `src/geometry.rs`: the draw positions that follow from the pivot point.
- `src/output.rs`: limb geometry for the result viewer, with a flexible
  grip's outline joined in front of its limb's.
- `src/version4.rs`, `src/legacy_symmetric.rs`: older single-limb models and
  their migration, which mirrors the limb into both halves.
- `src/compatibility.rs`: a model of any version and its conversion to the
  latest model. Files of format versions 1 to 3 (VirtualBow 0.7, 0.8 and
  0.9) are not migrated: their schemas are not part of this crate, so such
  files are reported as of an unrecognized version.
- `app/`: reading and writing bow files (JSON, MessagePack), the `f64`
  model with serde support and its conversion to and from the library's
  model, and the messages of the joint checks.
