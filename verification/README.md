# idcat

idcat hands out GitHub App installation tokens. A workload presents a token of its own issuer, a
person presents a Teleport token, and the configuration says who gets a token for which
repositories and with which permissions. A Git credential helper fetches such tokens for Git.

## Layout

* `src/` is the library, verified with Verus: who gets which token, when GitHub or an issuer is
  asked, what is kept, what passes through, and what the helper does.
  * `text`, `string_map`, `checks`: texts, maps from text, and checks that stop at the first problem.
  * `config`, `validation`, `human_validation`, `permissions`: the configuration, and what makes it
    fit to start with.
  * `roles`, `claims`, `glob`, `service`, `requests`, `access`: who gets which token.
  * `human`, `jwks`, `algorithm`: the tokens of people, and the keys that they are checked with.
  * `github`, `lookup`, `token_cache`, `minting`, `proxy`: what GitHub is asked, what is kept of its
    answers, and what passes through.
  * `webhook`, `hexadecimal`, `audit`: signed deliveries, and the record of issued tokens.
  * `helper`: the Git credential helper.
  * `load_test`: the bounds of a load test of the route for people.
  * `laws`: what holds of the broker as a whole.
* `tests/` holds tests on concrete values.
* `app/` holds the programs: the command lines, the HTTP server and clients, files and processes,
  the signing of GitHub App tokens with their lifetime, and the refusal to start with a NATS target,
  for which no publisher is built in. A program goes by the name it is called by:
  `git-credential-idcat`, `human_route_load_test`, or anything else for the broker.

## EdDSA keys

A signature check with an EdDSA key of fewer than 32 bytes would bring the process down. A person's
token is refused where its key is that short. A workload's EdDSA token is held only against roles
with a `validation-key` that is long enough: a role that allows EdDSA and leaves its key to be
discovered from the issuer matches no such token, since that key cannot be looked at beforehand.

## What is trusted

The contracts of a few functions are believed rather than proved: those that call `authzoo`,
`jsonwebtoken`, `serde_json`, `wildmatch`, `hmac`, `sha2`, `hex`, `reqwest`'s header values and
`String::from_utf8`. Each is marked `external_body`, and its doc comment says what it claims.
