# ton_faucet

A faucet for the TON test network. A client asks for a challenge, solves it by a
proof of work, and claims a payout to an address; the claim is queued, and a
worker pays it out through a Toncenter server.

`src/` is the verified library:

- `text`, `json`: numerals, substrings and JSON values
- `config`: the settings and their defaults
- `retry`: when to try again, and after how long
- `client`: JSON-RPC requests to Toncenter and what their answers mean
- `pow`, `challenge`: proofs of work, and the challenges that may be redeemed
- `wallet`, `transfer`: the wallet, and the message that pays a claim out
- `claim`: which claims are let in, what is answered, how often a payout is tried

`app/` is the server around it: environment, HTTP, queue and worker.
