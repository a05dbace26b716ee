# spotify_dl_server

A server that searches Spotify, queues tracks for download and serves the
downloaded files. This crate holds its request-handling rules as a library
verified with Verus:

- `src/hex.rs`: decoding the hex-encoded redirect address of the login
  confirmation, with the law that it inverts hex encoding;
- `src/auth.rs`: the Spotify login address (through `aspotify`) and the first
  step of the confirmation;
- `src/responses.rs`: the JSON bodies of the REST routes (the search answer
  included) and the CORS headers;
- `src/downloads.rs`: which files of the download directory are listed, and
  the listing's answer;
- `src/routes.rs`: the route list answered for unknown paths;
- `src/json.rs`: the texts written with `serde_json`.

`app/` holds the program around it: the Rocket REST server, the Axum static
file server, the Spotify session and Web API calls, and start-up.
