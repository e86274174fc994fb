# skylark

The logic of a desktop client for the sing-box proxy core, verified with Verus:
subscription parsing (Clash YAML, share-link lists, SIP008), routing rules, the
generation of the core's configuration, and the decisions around the core
process, the system proxy, TUN mode, subscription refreshes and updates.

- `src/` is the verified library. Each public function states its result in
  its contract over the models in the spec functions; the laws that relate
  several functions are public proof functions (`lemma_*`). Calls into outside
  crates (base64, url, uuid, zip, tar/flate2) and into parts of std that Verus
  does not specify stand in `src/external.rs`, each with the contract that the
  library relies on.
- `app/` is the host side: files, HTTP, processes, the operating system's proxy
  settings and the serializable copies of the library's types. It calls the
  library for every decision.
- `tests/` runs the library on concrete inputs.

JSON and YAML texts are parsed by the host (`serde_json`, `serde_yaml`) and
handed to the library as `skylark::json::Json` values; the library asks for
the texts it needs through `skylark::subscription::texts_to_parse`.
