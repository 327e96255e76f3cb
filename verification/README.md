# opossum

The model layer of OPOSSUM, an optical system simulator, as a Verus-verified library: optical
nodes with ports, apertures, coatings and typed properties; the directed graph of an optical
scenery and its connection rules; the order in which a scenery is analyzed; model documents;
port mappings of groups; optical surfaces with their ray caches and hit maps; validators of
property values; and plot parameters.

Layout:

- `src/` — the verified library. Every public function carries a `requires`/`ensures`
  contract over mathematical views (`Seq`, `Map`, `Set`, spec functions); properties that
  relate several operations are stated and proved as public proof functions (`lemma_*`).
  Lengths, angles and other physical quantities are carried as the bit patterns of their
  `f64` values; `float_bits` states what the library needs of them (finiteness, sign, order).
  Calls into `petgraph`, `uuid` and `colorous`, and the one call into `std::path`, go through
  small trusted wrappers whose doc comments say what is assumed.
- `tests/` — tests run against the compiled library.
- `app/` — what stays outside verification: file formats (RON through `serde`), the file
  system, the external `dot` program, floating-point arithmetic, and the loop that runs node
  analyses over a scenery in the order the library computes.
