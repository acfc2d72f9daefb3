# api: the product merger

`product-merger` reads a JSON array of products and base products, asks
GitHub (through the `gh` command) which repositories were updated, refreshes
those products from the repository details, applies each product's
`overrides`, and prints the full products as JSON.

## Layout

- `src/`: the library, verified with Verus.
  - `product.rs`: the product types, the reading of the input JSON, the
    resolution of links, the application of `overrides`, and the building of a
    product from a repository detail.
  - `updater.rs`: which owners are listed, which items are fetched, and what
    each item becomes.
  - `github.rs`: the repository detail, the embedded queries, the `gh`
    arguments and the reading of its replies.
  - `merger.rs`: the command's options and their checks.
  - `json.rs`, `text.rs`, `time.rs`: JSON values, texts and instants.
  - `laws.rs`: properties that hold across the operations.
- `app/`: the command: option parsing, logging, files, the `gh` processes,
  the embedded queries, and the JSON output of the products.
- `tests/`: tests of the library.
