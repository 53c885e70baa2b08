# git-remote-opendal

A Git remote helper that keeps repositories on storage services (S3, GCS,
Azure Blob, Google Drive, the local filesystem), addressed as
`opendal://<scheme>/<root-path>`.

The decisions of the helper are a library verified with Verus (`src/`):

- `config`: the remote URL, the `OPENDAL_<SCHEME>_<KEY>` parameters, and the
  bucket or container taken from the first path segment for `s3`, `gcs` and
  `azblob`.
- `credentials`: the parameters each scheme knows, prompt checks and labels,
  and `Resolver`, which decides step by step how missing parameters are
  filled from the local Git configuration or a prompt.
- `protocol`: the remote-helper command line format.
- `helper`: `Session` (how commands are batched and answered), the `list`,
  `capabilities` and fast-import replies, and `PushRun` (how a push is
  checked, bundled and recorded).
- `storage`: the refs store and the bundle object keys.
- `operator`: the settings of each storage service and the builder calls.
- `strmap`, `text`: an insertion-ordered string map and string helpers.

`app/` is the program around it: argument and environment handling, the
terminal prompts, running `git`, and storage I/O, each performing the
actions that the library hands out.
