# spis

Spis keeps the reference corpus of example products, collects their example
images, and coordinates crawls of them on Stado hosts. This crate is its
verified core: every decision the tool makes about catalogs, runs, records,
hosts, submissions, imports and cancellations that stands in this crate is
a function with a Verus contract, proved against a mathematical model of its
input.

Layout:

- `src/` — the verified library. `json` models documents; `text`, `url`,
  `html` and `image` hold the text, URL, HTML and image-header logic;
  `catalog`, `corpus`, `bindings`, `record_binding`, `manifest` and `typed`
  read the committed catalog and binding documents; `registry`, `host`,
  `preflight`, `readiness`, `device`, `prepared`, `product`, `disk` and `plan`
  place and prepare records on hosts; `generate` writes the runtime bindings;
  `start`, `submit`, `submission`, `refresh`, `runstate`, `history`, `cancel`,
  `resume`, `import`, `retained` and `report` carry a run from its request to
  its imported evidence; `collect` and `digest` serve the image collector.
- `app/` — the command-line program around the library: argument dispatch,
  files, processes and network access.
- `tests/` — tests of the library on concrete documents.

What the program does not do: `spis crawl start`, `spis crawl resume` and
`spis crawl import` are absent. They need the stado:// attempt and record
coordinates, the Weles attempt provenance and the runtime binding loader,
which this source tree does not contain, so the program refuses them with a
message saying so. The decisions those operations make stand in the library
with their contracts (`start`, `submit`, `readiness`, `plan`, `resume`,
`import`, `runstate`, `disk`), but nothing drives them end to end.
`spis crawl bindings generate`, `status` and `cancel` are available.
