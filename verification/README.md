# brooks_cli

The command-line tool for the Brooks implementation of the CDNI metadata
expression language (MEL) and processing stages, with its core verified in
Verus.

* `src/` — the verified library:
  * `timeout` — the `--timeout` value of the HMDS server (`<seconds>s`),
    including a decimal `i64` parser proved equal to its specification;
  * `cli` — the verbosity level chosen by `--debug` and the errors that end a
    command;
  * `text`, `diagnostics` — rendering of compiler and analysis errors in the
    context of the source, and of what the `analyze` and `interpret` commands
    print;
  * `hmds` — the store of host metadata registrations and the server's settings;
  * `socket` — the framing of the HMDS domain-socket protocol and the
    step-by-step transfer of a frame;
  * `proxy` — which headers the proxy forwards, where it sends a request, and
    how the stage interpreter edits URIs and statuses;
  * `serve` — the `req` variable that MEL expressions see and the server's reply.
* `app/` — the program: argument parsing, files, logging, the HTTP servers and
  the socket loop, and the calls into the MEL library.
* `tests/` — tests of the library on concrete values.
