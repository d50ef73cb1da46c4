# filterspec

Turns the client filter DSL into a parameterised Postgres predicate, with every
step proved in [Verus](https://github.com/verus-lang/verus).

```rust
let (sql, args) = filterspec::render(&Query {
    scope: vec![ScopeFilter { field: "serviceId".into(), value: current_service_id }],
    filter: client_filter, // may be None
}, &schema)?;
```

## Layout

| module     | what it holds |
|------------|---------------|
| `json`     | JSON values, and the bridge to `serde_json` |
| `schema`   | field types, columns and the whitelist of fields |
| `filter`   | the filter tree as the client sends it |
| `operator` | the operators and the field types that support them |
| `tree`     | the specification tree and its leaves |
| `parse`    | from the filter tree to the specification tree |
| `quoting`  | SQL identifiers and `LIKE` patterns |
| `query`    | the scope of the caller plus the filter of the client |
| `render`   | from a query to the SQL text and its arguments |
| `text`     | the string operations the rest is built from |
| `error`    | why a filter is rejected |
| `laws`     | what holds of the library as a whole |

Each type has a model (`NodeModel`, `SpecModel`, `JsonModel`, ...) in which
strings and lists are sequences; contracts speak of the models.

`app/` holds the types as they travel on the wire.

## What is proved

- A filter is parsed exactly when no group is empty and the schema allows every
  leaf; otherwise the first error from left to right is returned.
- Every leaf that goes into the tree comes out of it, in order.
- The tree means what the filter means; `$not` negates all its children.
- A "not" operator is the positive one negated, and a parsed tree carries a value
  or a range exactly where the operator takes one.
- Whatever was parsed can be written, behind any arguments, and an empty query renders as `TRUE`.
- Neither a field name nor a value of the request reaches the SQL text.
- The placeholders, each read with all its digits, are `$1` to `$n` for the `n`
  arguments, in order.
- Each leaf adds as many arguments as its operator takes, wherever it stands; a
  group that fails leaves those added up to the child that failed.
- Only the schema entries that the request names matter, not what they are called.
- The scope stays in force whatever the client sends.
- Quoted names read back as themselves, and searched texts match literally.

The only things taken on trust are the handful of calls into `serde_json` and the
standard library that `json` and `text` declare.
