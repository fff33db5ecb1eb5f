# Mirage Fit

An image remix service: users upload a photo, pick fashion items (generated
per category by Google's Gemini image model) and get back a photo of
themselves wearing them.

## Layout

- `src/` — the verified library (Verus). It decides everything the service
  does: which uploads are accepted (`validation`), how images are named,
  stored, listed, found again and evicted from the cache (`file_manager`,
  `ordering`), ISO 8601 timestamps (`time`), the
  configuration and its paths and URLs (`config`), item categories and the
  API's data (`models`), the prompts and requests sent to the model and how
  its answer is read (`gemini`), what each endpoint answers (`handlers`),
  which static asset a path names (`static_files`), CORS (`server`), and how
  errors are answered (`error`). Text helpers with their specifications are
  in `text`.
- `app/` — the program around it: command line, environment, file system,
  HTTP client and server, JSON, logging. It performs the I/O and hands the
  results to the library.
- `tests/` — tests of the library on concrete values.

Calls into `blake3`, `base64`, `image` and `uuid` stand in the library
behind small trusted wrappers whose contracts name what those crates return.
