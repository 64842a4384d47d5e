# e621_downloader

A downloader for e621/e926 whose decisions are verified with Verus.

- `src/` is the verified library: the tag-file and blacklist parsers
  (`parser`, `tag`, `blacklist`), the identification of tags against the
  API's entries (`tag`), the blacklist filter (`blacklist`), the page-by-page
  searches and the collections they fill (`grabber`), the sender's urls and
  credentials (`sender`), the settings (`io`), the helpers of the downloads
  (`connector`), the entries the API returns (`entries`, `data_sets`,
  `web`), and the decisions of a terminal menu (`menu`): its window, its
  rows and their colours, and what keys and enter do. The downloader itself
  does not show a menu.
- `app/` is the program around it: files, prompts, HTTP requests, JSON,
  progress bars and logging. It hands the library plain values and acts on
  what the library decides. `app/menu_numbers.rs` holds what a menu decides
  about numeric items, whose values are floating point.
- `tests/` runs the library on concrete inputs.
