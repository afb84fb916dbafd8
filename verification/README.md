# hddsgen

Rust code generation for IDL data types, verified with Verus.

From an IDL file's declarations (structs, enums, unions, typedefs and
bitsets) the library emits Rust source: the type declarations and builders,
XCDR1/XCDR2 encoders and decoders, and the DDS type-support impls (type
descriptors with FNV-1a type ids and member layouts, XTypes complete type
objects, `@key` hashing). It also evaluates IDL constant expressions over a
token list.

Every emitted text is specified exactly by spec functions over `Seq<char>`;
the executable functions are proved to produce it. Laws of the library are
stated as public proof functions named `law_*`:

- `layout`: XCDR2 alignment is XCDR1 alignment capped at 4; rounding up to an
  alignment; offsets of struct members are aligned and do not overlap; every
  type's size is a multiple of its alignment.
- `union`: a union's default discriminant is the least value no label uses;
  the literal emitted for a label value reads back as that value.
- `member_hash`: hashed member ids (MD5 of the name, DDS-XTypes 7.3.1.2.1.1)
  fit in 28 bits.
- `const_expr`: operator precedence and left associativity (with the
  parser's position after an error), commutative operators, double negation.
- `dds_trait`: what the DDS impl holds (type descriptor with the FNV-1a type
  id and one layout entry per member, `get_type_object()` with the
  extensibility flag and one member entry per listed member, the `@key`
  methods, the nested struct and enum type objects and the blocks that wrap
  them). Nested type objects stop only at a type already being emitted.
- `generator`: generation fails exactly on the first declaration that cannot
  be generated.

Layout: `src/` is the library, `tests/` the tests run against the compiled
library, and `app/` the floating-point constant values, which stay outside
the verified code.
