# patch_notes

A verified library behind a small web service that reports, for a League of
Legends champion, what recent patches changed about it.

The service (in `app/`) runs the web server and fetches the site's pages;
the library (in `src/`, verified with Verus) reads the pages, and decides
what to fetch next and what to answer:

- `text`: trimming and whitespace collapsing of scraped text, and the two
  keys of a champion's name used for portrait URLs and for matching names.
- `html`: the queries on HTML pages, answered by the `scraper` crate.
- `champions`: portrait URLs, the champion list read from the champions
  page, lookup by name.
- `language`: the site's languages, the index address and the labels of
  patch-notes links, and reading those links from the index page.
- `patch`: reading the change block of a champion from a patch-notes page,
  and grouping its changes under abilities.
- `notes`: the search through the linked pages, as a state machine that asks
  the caller to fetch pages and decides what to do with them, and the HTTP
  status of a failed search.
- `patches`: the known patches, the collection of a champion's cards over
  several patches (a state machine that asks for one search per patch), and
  which patch is current.
- `requests`: the service's requests and the shaping of its answer.
