# demografix

Client core for the Demografix APIs (genderize.io, agify.io, nationalize.io),
written in Verus with its behaviour stated in contracts and proved.

Layout:

- `src/text.rs`: white space and trimming, ASCII case-insensitive comparison,
  decimal integers in and out, each proved against a short specification.
- `src/json.rs`: the parsed JSON document (`JsonValue`), the one trusted call
  into serde_json, and typed member reads.
- `src/errors.rs`: the `Error` type, its accessors and the status mapping.
- `src/models.rs`: the prediction models and their decoding from JSON.
- `src/client.rs`: request checking and building, rate-limit header parsing,
  and response decoding; the laws relating them.
- `src/blocking.rs`: the synchronous client over a caller-supplied transport.
- `app/lib.rs`: the async client and the reqwest transports, which only send
  requests and hand the responses to the library.
- `tests/`: the client tests over stub transports, and tests of the library
  functions on concrete values.
