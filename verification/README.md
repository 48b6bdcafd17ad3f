# traffwd

A programmable HTTP proxy. It forwards plain HTTP requests and opens `CONNECT` tunnels. External
commands may rewrite requests and responses on their way.

- `src/` is the library. It decides what happens to each request, and Verus proves that it decides
  as its contracts say: where a request goes, which plugins it passes and in which order, what a
  command is told and what its answer changes, when a response is streamed, when a tunnel is opened.
- `app/` is the program around it. It owns the sockets, the processes and the files, carries out
  what the library asks for and reports back what came of it.
- `tests/` run the library.

The `http`, `url` and `base64` crates are called through the functions marked
`#[verifier::external_body]`. Each says above its contract what is taken on trust.

A command gets `timeout_ms` milliseconds from its start to its end, writing its input included.
