# cairo_impls

The analysis of impls in a Cairo compiler, as a verified library: which trait an impl
implements, which items it has and lacks, whether its functions, types, constants and inner impls
fit those of the trait, which impls a lookup finds, and how types are dereferenced. Next to it
stand the files that a parser is given, and the outcome of formatting them.

What other stages of the compiler answer (name resolution, inference, the parser) is recorded in
tables: `SemanticFacts` for the analysis, `SimpleParserDatabase` and `FormatterDatabase` for files.
Every contract speaks of these tables and of the interned values.

| modules | what they hold |
| --- | --- |
| `collections`, `interner`, `text` | ordered maps and sets, interning, text of numbers and lists |
| `ids`, `model`, `syntax`, `diagnostics`, `substitution`, `context` | the values that the analysis is about |
| `facts`, `db`, `queries` | what other stages answer, and the interned values |
| `declaration`, `definition`, `selectors` | impls, their bodies and their items by name |
| `signatures`, `functions` | functions, compared with those of the trait |
| `item_types`, `item_constants`, `item_impls`, `implization` | the other items |
| `impls` | impls as values: their traits, names, and what they depend on |
| `candidates`, `closures`, `self_inference` | the impls that a lookup finds |
| `deref`, `deref_diagnostics`, `definition_diagnostics` | chains of dereferences, and all that is reported of an impl |
| `parser`, `formatter` | files, token streams, and formatting |

`app/` holds what touches files, directories and standard input.
