# Token input for contest programs

A verified library that splits program input into whitespace-separated
tokens and reads typed values (integers of every width, booleans,
characters, strings, 1-based indices) from them, with ordinary Rust around it
for standard input and output.

- `src/text.rs`: ASCII whitespace, the splitting of a text into tokens
  (`split_ascii_ws`), and its laws.
- `src/parse.rs`: reading one token as a value (`FromToken`), with the
  acceptance rules of the standard `FromStr` implementations, and the
  read-back law for written integers.
- `src/source.rs`: `Tokens`, the token sources `OnceSource` (whole input at
  once) and `LineSource` (one line per token, fed line by line), the `Source`
  trait, and the `Readable` / `CheckedReadable` traits.
- `src/marker.rs`: `Usize1`, a 1-based index read as a 0-based `usize`.
- `src/graph.rs`: recording an edge in both directions of an adjacency list.
- `src/lib.rs`: `StdinSource`, either kind of source over standard input.
- `app/lib.rs`: stdin/stdout plumbing, the `input!`, `inputln!`, `print!`
  and `println!` macros, and reading of floating-point values.
