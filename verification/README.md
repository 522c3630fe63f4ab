# api2cli

Turn an OpenAPI 3.x or Swagger 2.0 specification into a command-line client.

The library (`src/`) is verified with Verus. Each public function states in
its contract what it returns, over spec functions on plain values:

- `json` — a JSON document as plain values and field lookup; reading JSON
  and YAML text, JSON Pointers and compact text go through serde_json and
  serde_yaml;
- `spec` — reading a document into an `ApiSpec` (operations, parameters,
  request bodies, servers), kebab-case names and generated operation ids;
- `runtime` — the command tree grouped by tag, the choice of the operation an
  invocation names, the HTTP request it makes and how a response is shown;
- `generator` — command listings and the generated Rust client text, and the
  files of a generated project;
- `laws` — properties that span functions, stated and proved;
- `text` — string helpers and the Unicode case functions of std.

`app/` is the program around it: argument handling with clap, fetching the
spec text over HTTP or from disk, sending requests with reqwest, and writing
generated projects to disk.
