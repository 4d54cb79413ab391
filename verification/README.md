# openrpsee

Builders for [OpenRPC](https://spec.open-rpc.org) documents that describe a JSON-RPC API,
verified with Verus.

- `src/` is the verified library: the document model (`document`), the `Project` document
  and its builder (`project`), the per-module builder `RpcModuleDocBuilder` (`rpc_module`),
  the stable ordering of methods by name (`method_order`), a map that keeps its entries in
  name order (`name_map`), and the text helpers they use (`text`). `external` declares the
  JSON and JSON-schema types of `serde_json` and `schemars` that the document carries.
- `app/` holds what Verus does not see: the serde form of the documents (copies of the
  types with their derives), schema generation through `schemars::JsonSchema`, and the
  example provider keyed by a `BTreeMap`.
- `tests/` runs the library on concrete documents.
