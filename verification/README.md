# engine

The metadata, schema and query-planning logic of a GraphQL engine that serves
Open DD metadata over NDC data connectors, written in Verus: each function
states its behaviour in `requires` / `ensures` and Verus proves it.

Layout of `src/`:

- `open_dds/` — the Open DD metadata: names, type references with their
  textual form (`[String!]!`), models, commands, permissions, relationships,
  data connectors, and the expressions of the data connector query language
  (`ndc_client/models.rs`).
- `metadata/resolved/` — metadata as the engine resolves it: qualified names,
  object types, models, commands, data connectors, and the resolution of
  relationships with its errors.
- `schema/` — the GraphQL side: the types the schema builders register
  (`graphql.rs`), normalized input values, field calls and selection sets
  (`normalized.rs`), the models and commands an operation uses
  (`model_tracking.rs`), role annotations and permission predicates
  (`operations/permissions.rs`), the `where` and `order_by` arguments of a
  model (`types/model_filter.rs`, `types/model_order_by.rs`), argument values
  as data connectors take them (`types/arguments.rs` and neighbours), output
  and input types, the object types of the schema and the reading of a
  selection set against the columns of a type (`types/output_type.rs`,
  `types/input_type.rs`), the query and mutation root types and the reading
  of the root fields of a query or a mutation into their requests
  (`types/query_root.rs`, `types/mutation_root.rs`, `types/root_field.rs`), the root fields of models and commands and the
  reading of their calls (`operations/select_one.rs`,
  `operations/select_many.rs`, `operations/commands.rs`), and the relay Node
  interface, node field and node requests (`operations/relay.rs`).
- `execute/` — remote joins, their join identifiers, execution trees, the
  plan of each root field (`query_plan.rs`), the step that answers each field
  of a plan (`operation.rs`) and the reading of a data connector's answer.
- `json.rs`, `keyed.rs`, `session.rs`, `text.rs`, `http.rs` — JSON values,
  lists keyed by names, session variables, character helpers, and the GraphQL
  response.

`app/lib.rs` holds what runs around the library in the browser: the
wasm-bindgen greeting, conversion between `serde_json` values and the
library's JSON values, the readings of session variables that need a float
parser, the decoding of the global ID of a node request into the library's
`GlobalId`, and the loop that runs a query plan: it sends each request the
plan holds to its data connector and hands the answers back to the library,
which decides what each field of the response is. `tests/` exercises the
library on concrete values.
