# arxiv_sniffer

Crawls the arXiv "catchup" listing of a category for one day, asks a chat
model how relevant each paper is to a set of topics, and renders the papers
that pass into MkDocs pages.

Layout:

- `src/` is the library, verified with Verus: listing extraction from the raw catchup page
  (parsed and selected by `scraper` behind trusted wrappers), abstract clean-up, URL and date handling, prompt and
  score handling, page rendering, the update of the `nav` list of `mkdocs.yml`
  (parsed and printed by `serde_yaml` behind trusted wrappers), and the text helpers they share. Each public function states its result in its contract; the laws
  of the library are public proof functions beside the functions they speak of.
- `app/` is the program around it: configuration files, HTTP, threads, floating-point weights and thresholds, and file output.
- `tests/` runs the library on concrete values.
