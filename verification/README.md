# omnipaxos_kv

A replicated key-value service. The library in `src/` makes the decisions of its servers, of its
HTTP gateway and of its Maelstrom test node. Verus proves the contract of every function but
four: `read_strings`, `write_strings` and `write_string` in `json` and `draw` in `workload` call
`serde_json` and `rand`, and their contracts are believed.

| module | what it decides |
| --- | --- |
| `kv` | the commands and the messages |
| `database`, `string_map` | what a command makes of the store, and the image on disk |
| `network` | which peers and clients a server is connected to, and which it calls again |
| `dial` | how connections come about, and what becomes of callers |
| `link` | what the reading and the writing task of a connection do next |
| `gateway`, `gateway_config` | who gets which reply, and what HTTP clients are told |
| `maelstrom`, `workload` | test messages, random operations and their outcomes |
| `json`, `text` | JSON text, decimal integers and quoted words |

The functions named `law_...` state what holds across several functions.

`app/` holds the sockets, files, HTTP and serialisation around the library. A server is built on
`app/network.rs` and `app/database.rs`; the consensus protocol between servers is not part of this
project.
