# grok2api

The verified core of a gateway to the Grok service: it offers models, uploads,
lists, deletes and downloads assets, keeps a cache of media, stores media in a
directory or in an S3 bucket, and answers video requests.

- `src/` is the library. It decides what to send, where files go, what an answer
  means, and what comes next. Verus proves its functions against their contracts.
- `app/` does what the library decides: it runs curl, reads and writes files, talks
  to S3 and serves the routes. The program that the gateway runs in supplies its
  configuration, accounts and models through the trait `Host`.
- `tests/` holds examples of what the library does.

What is taken on trust of functions outside the library, and not proved, stands in
the contracts of the small private functions that call them, and in one for
`String::push`. Each has a comment that says what is trusted.
