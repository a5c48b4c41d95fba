# rezon

The core of a chat and agent application: the agent loop, the tools and the
confirmation rules around them, the cloud stream, the model catalog, the note
vault, and the state behind the two user interfaces.

`src/` is the library. Its functions carry contracts that Verus checks. The few
that call another crate, or a part of the standard library that Verus does not
know, are marked as external, and their doc comments say what is claimed of the
call without proof. Work that alternates with the outside world (a stream, a tool, the file
system) is written as a state machine: the library takes an answer and returns
the next request.

- `agent` - the loop (`loop_`), the turn it assembles (`turn`), the cloud
  stream (`cloud`), the confirmation rules (`confirm`), the tools (`tools`) and
  stand-ins for tests (`testing`). `run_laws` and `stream_laws` state what holds
  of every run and every stream.
- `vault` - containment of paths, the note tree, file operations, wikilinks.
- `model_catalog` - model lists with their cache and its failure ladder.
- `web`, `tui` - what the desktop and the terminal decide.
- `paths`, `dotenv`, `secrets` - directories, environment files, credentials.
- `order`, `text`, `json`, `clock` - shared helpers.

`app/` is ordinary Rust around the library: network, files, processes, the
credential store and the event channels. `tests/` holds the tests.
