# bluedot

Blue Dot's ingestion and conformance engine: it turns public statistical
and permit sources into facts (one value of one indicator for one entity,
valid over an interval, as published in one vintage) and claims (one
attribute of one entity, asserted by one source record), with their
provenance.

Sources: the Census ACS 5-year API, the Census population-estimates
vintage files, EPA ECHO air-permit facilities and the Prince William County
(VA) planning GIS.

## Layout

- `src/` — the library, verified with Verus. Each source's conform pass is
  a function from what was read (response bodies, rows, records) to facts or to
  entities and claims, with a contract that states the result exactly
  (`conform_spec` in each source module) and laws about it (unique keys,
  one value per claim, a value or an annotation per fact, located
  entities). The statistical sources also keep an entity registry: one row
  per source row that names its place, as the source names it. `time` and `calendar` hold the calendar arithmetic and its
  proofs; `cli` the command line; `config` the key lookup; `http` what a
  response read in full amounts to.
- `app/` — the program: HTTP, files, the clock, floating point, and the
  JSON Lines output.
- `tests/` — tests of the library on recorded shapes of each source.

```text
bluedot ingest acs --indicator B01003_001 --vintage 2021 --vintage 2023 [--out data]
bluedot ingest pep --vintage 2022 --vintage 2023 [--out data]
bluedot ingest echo [--naics 518210] [--out data]
bluedot ingest pwc [--out data]
```
