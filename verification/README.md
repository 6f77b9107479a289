# age4

The verified core of a small Age of Empires IV statistics service: a crawler
that copies the public leaderboards into a database, a REST API and a gRPC API
that serve match histories and rank pages from it.

`src/` is the library, verified with Verus:

- `request`, `crawler_request`: the leaderboard request and its enumerations,
  with their wire names.
- `calendar`, `identifier`, `text`: dates and their `YYYY-MM-DD` text, row
  identifiers and their UUID text, decimal numerals.
- `stored`, `leaderboard`: the stored rows and the leaderboard pages.
- `crawl`: the crawler's schedule of fetches, retries and pauses.
- `save`: the steps that store one leaderboard page; `save_model`: the
  tables they act on, and the laws of a whole page stored once or twice.
- `rest`, `grpc`: the rules and replies of the two front ends, and the rank
  page cache.
- `actors`: the crawler's actors and messages.

`app/` holds the programs around it (`age4 crawler|rest-api|grpc-api`): HTTP,
gRPC, PostgreSQL and Redis, and the JSON and protobuf forms of the types.
