# karac_fmt

Format specifiers for interpolation holes, `f"{expr:spec}"`, verified with Verus.

```text
spec   := [[fill] align] ['0'] [width] ['.' precision] [type]
align  := '<' | '>' | '^'
width  := DIGIT+
prec   := DIGIT+
type   := 'x' | 'X' | 'o' | 'b' | 'd'
```

- `src/` is the library. Every function states what it returns, and `grammar`, `laws`,
  `lowering` and `buffer` state what holds across functions.
- `app/` holds the C entry points, which deal in raw pointers and floats, and the
  benchmark programs.
- `tests/` runs the library on concrete values.

A text of more than `isize::MAX` bytes fits in no string: the functions that return or
build one leave out the widths that would ask for it.
