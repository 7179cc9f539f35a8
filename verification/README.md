# oracles

Verified core of the Helium oracle services, written in Verus.

- `src/upload.rs`: the file uploader's decisions as a state machine (store,
  retry after a wait, remove once stored, stop on shutdown), with proofs that a
  file is stored at most six times, never when uploads are disabled, and
  removed only once stored.
- `src/source.rs`: reading report files: gzip decompression and splitting into
  length-delimited frames, with the proof that a source over several files
  yields the items of each file in turn.
- `src/ingest.rs`: the checks of the ingest server (public key, network,
  signature, API token, mapper port).
- `src/payload.rs`: the base64 form of console event payloads.
- `src/store.rs`: the endpoint setting and the keys of a bucket listing.
- `src/bucket.rs`, `src/balance.rs`: the command model of the command-line tools.
- `app/`: the I/O around the library: the S3 client, the uploader and reader
  loops, the command-line parsers, the web and gRPC handlers.
- `tests/`: tests of the library.

The payload of a console event is an encoded `MapperAttach` protobuf message.
The crate that defines it, `helium_proto`, is not a dependency of this crate, so
the payload is handled as base64 text and bytes only; decoding the message is
not done, and neither is the gRPC service whose messages it defines.
