# Isotopia

Isotopia is a small build orchestrator which dispatches image build requests to
worker processes running on different machines. Workers ask for pending
requests, claim one, build its image and upload it; clients download the image.

## Layout

- `src/` is the library: the requests table with its life cycle, package lists,
  known tarball checksums, the image cache, and the decisions behind each API
  endpoint. Everything in it is verified with Verus. What is taken on trust are
  the contracts of the few functions marked `external_body`, each of which calls
  one function of `md5` or of the standard library.
- `app/` is the server around it: HTTP, SQLite, the file system and the network.
- `tests/` runs the library.

Uploads and downloads are state machines: `Upload` and `Download` decide what is
done next, the server does it and reports how that went.

## Configuration

- `UPLOAD_SECRET`: the secret which workers present as bearer token. Required.
- `VALIDATE_TARBALL_MD5=0`: accept images which are not based on the latest ALARM
  tarball. Recommended during testing, since the comparison generates traffic to
  `https://archlinuxarm.org`.
