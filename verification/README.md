# parquet_forward

Forward-only, page-lazy reading of one Parquet leaf column, and selective caching of Parquet page
indexes, verified with Verus.

The library decides; it performs no I/O.

* `pages`, `projection`: the logical pages of a projected leaf column, planned from the OffsetIndex
  and the ColumnIndex of a footer.
* `cursor`, `forward`: the reader's state, and what the decoder has to skip, decode or fill with
  nulls to read a batch or a row range. `delivery` proves which rows a read delivers.
* `key`, `key_set`, `key_map`: identities of column chunks, and sets and maps of them.
* `selection`, `indexes`, `metadata_cache`: which page-index entries a scan needs, the entries that
  were decoded, and the cache entry that holds them beside the footer.
* `index_ranges`, `byte_ranges`: where those entries lie in the file, and how byte ranges are
  coalesced, counted and checked.
* `error`: why a read fails, and what the error says.
* `footer`: the part of the `parquet` crate that the library reads. Its contracts are trusted.

`app/` holds what surrounds the library: the Arrow decoder that serves a reader's requests, object
store and file access, and the metadata cache.
