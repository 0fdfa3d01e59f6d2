# tus_handlers

The request handling rules of a [tus](https://tus.io) resumable upload server,
verified with Verus.

`src/` decides what becomes of a request. Requests that need a store, a lock or
a hook are state machines: `patch`, `head`, `get` and `delete` look at the
request and say what to do first, and `step` takes what came of it and says what
to do next, until the reply is complete. `options` answers at once. The header
fields of a request and of its reply are kept in `HeaderMap`; the contracts speak
of their mathematical content, `headers::Fields`.

| module | subject |
| --- | --- |
| `patch`, `head`, `get`, `delete`, `options` | one method each |
| `common` | the reply, its common fields, the first checks |
| `finish` | what the hook for finished uploads adds to a reply |
| `metadata` | the `Upload-Metadata` field |
| `expiration` | when an upload expires |
| `upload`, `url`, `error` | plain data |
| `headers`, `text` | header fields, numbers and lists in text |

`app/` does what the library asks for, with salvo.
