# aczor

The asset graph of a bundler, verified with Verus.

- `src/` is the verified library: the asset graph (`asset_graph`), the
  `petgraph` store it keeps its assets in (`graph_store`), URL operations on
  asset identifiers (`url_ops`), the driver's decisions (`driver`), the
  plugin chain (`chain`), and the path-keyed asset graph with the module graph (`path_keyed`).
- `app/` holds the asynchronous side: plugin traits, the file system, the
  driver that runs plugins, and the build loops, which take their decisions
  from the library.
- `tests/` runs the library on concrete values.
