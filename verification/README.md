# rest_api

The verified core of the REST interface of a rollup node's block explorer.

A request is refused, answered at once, or accepted; an accepted request then
waits for outside work: opening the storage, a query, a question to the watcher
of Ethereum. `handling` says which work that is, takes its outcome, and goes on
until there is a reply. The other modules hold the handlers themselves:

- `transactions`: hashes in requests, receipts and lookups
- `history`: the history of an account, ongoing deposits first
- `blocks`: lists of blocks and the operations executed in them
- `accounts`, `tokens`: account states and the token listing
- `status`: the network status and the updater that publishes it
- `routes`: the paths of the endpoints
- `hex_text`, `address`, `json`, `sorting`, `reply`: what the handlers share

Each function states exactly what it returns, and the functions named `law_*`
state what holds across them, such as that a reported hash leads back to its
transaction.

A history is paged as one list, the ongoing deposits of the account followed by
what is stored, wherever the offset fits a `usize` and a page is `undisturbed`.
A page that reports a deposit always is. For one that reports none, all ongoing
operations are taken from the offset, and not only the deposits of the account:
it is undisturbed where that leaves an offset and makes no difference to what is
read from the storage. `law_undisturbed` names cases where it is so.

Contracts of the outside functions that are called (`hex`, `serde_json`, and the
address type of `web3`) are believed, not proved; each stands in a small private
function whose comment says what it claims.

`app/` is the server around it, in ordinary Rust: threads, HTTP, timers and the
traits through which the node plugs in its storage and its watcher.
