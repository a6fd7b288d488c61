# tau_extensions

Extensions of a coding agent's harness, as a library whose behaviour is stated in
contracts and proved with Verus.

| Extension     | Library             | What it decides                                              |
|---------------|---------------------|--------------------------------------------------------------|
| shell         | `src/shell/`        | file and search tools, commands, directory locks, scheduling |
| provider      | `src/provider/`     | requests, streams, retries, transports, acknowledgements     |
| notifications | `src/notifications/`| hooks, idle timers, summaries                                |
| scripting     | `src/scripting/`    | host functions, shell jobs, events held back                 |

The library does no input or output. Time is a number of nanoseconds, and what a
process, a file or a connection gave is an argument: each extension is a state with a
`step`, whose contract gives the next state and what is to be done. `app/` does it.

Beside the extensions stand the values they share: `json`, `json_text`, `value`,
`convert`, `text`, `text_map`, `utf8`, `number`, `path`, `proto` and `seqs`.

What spans several functions is stated as a public proof function named `law_...`,
next to what it is about or in a file that ends in `laws.rs`.

Calls into other crates stand behind small functions marked
`#[verifier::external_body]`. Their doc comments say what is believed of the call.
