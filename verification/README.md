# server

Core logic of an NFT board service, verified with Verus.

The board is a sequence of numbered positions grouped into square blocks:
block `b` holds `b²` consecutive positions and is drawn as a `b` by `b` grid of
tiles on an 80 by 80 picture.  Wallets sign in with an EIP-4361 message and
receive access and refresh tokens.

- `src/` is the verified library: block layout (`blocks`), block pictures
  (`block_image`), the error model of the HTTP API (`errors`), token claims and
  the request guard (`security`), sign-in decisions (`sign_in`), decimal text
  (`decimal`), OpenSea asset paths (`opensea`), notification routing
  (`watcher`) and user upserts (`users`).
- `app/` is the program around it: the axum server, the SeaORM entities and
  queries, Redis, HTTP fetching, the database trigger and the scheduled jobs.
- `tests/` exercises the library on concrete values.
