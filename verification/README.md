# aesgcm-proxy

A rewrite proxy that lets an app receive legacy WebPush notifications through a
UnifiedPush distributor, or straight through FCM.

Payloads of the pre-RFC `aesgcm` scheme carry their parameters in the
`Encryption` and `Crypto-Key` headers, which a distributor drops. The proxy folds
the headers into the body, so that the device can still decrypt it.

| Method | Path | Description |
|---|---|---|
| `POST` | `/aesgcm?e=<url>` | folds the headers into the body, forwards it, records the delivery |
| `PUT` | `/<url>` | Simple Push: suppressed where an encrypted push was delivered in the last two seconds or arrives within 200 ms, else forwarded |
| `POST` | `/fcm/<token>` | as `/aesgcm`, to FCM and signed with VAPID |
| `PUT` | `/fcm/<token>` | the Simple Push leg of the FCM route |

`aesgcm-proxy --generate-vapid` mints a key pair. Without `VAPID_PRIVATE_KEY` the
FCM routes answer 503; a malformed key aborts startup.

## Layout

`src/` holds what the proxy decides and computes. Each function in it has a
contract, which Verus proves of all but the calls into other crates named below:

- `proxy`: the steps of each route, and the answers
- `recent`: the correlation cache
- `endpoint`: which URLs may be pushed to
- `net`: which addresses may be connected to
- `fold`: the folded body
- `fcm`: send URLs and their redaction in the log
- `vapid`: the signer and its authorization
- `header`, `codec`, `curve`, `text`: what these rest on

What the library takes on trust are the calls into `base64`, `p256`, `url` and the
header values of `reqwest`. Each is a small function marked `external_body`, whose
comment says what is claimed of the call.

`app/` is the server: sockets, clocks, the environment and the log. `tests/` runs
the library on concrete values.
