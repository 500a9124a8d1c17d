# ldk_controller

A controller for a Lightning node that is reached over Nostr. Clients send wallet
requests (Nostr Wallet Connect) and control requests as encrypted events; the
service checks what each client may do, carries the requests out on the node,
answers under the encryption scheme of the request, and tells subscribers what
happens on the node.

`src/` is the library. Its functions carry contracts that Verus proves, but for a few
small wrappers round functions of other crates, whose contracts are taken on trust.
It does no input or output of its own: a request is started with
`process_nwc_request` or `process_control_request`, which answer at once or hand
back a `NodeCall`; the caller performs the call and goes on with `resume_request`
or `resume_control_request` and the `NodeReply`.

| Module       | What it holds                                                       |
|--------------|---------------------------------------------------------------------|
| `access`     | profiles, limits, the order of locks, checks, debits and refunds     |
| `crypto`     | encryption schemes and keys                                         |
| `relay`      | requests and answers as events, grants, notifications, info events   |
| `wallet`     | wallet requests                                                     |
| `control`    | control requests                                                    |
| `lightning`  | the node: calls, reports, payments, routes, configuration            |
| `state`      | offers, addresses, subscriptions and forwards                       |
| `nip47`      | the messages of Nostr Wallet Connect                                |

`app/` is the program around the library: configuration, JSON, the relay client
and the node itself. `tests/` runs the library.
