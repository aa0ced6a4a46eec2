# lyys_launcher

The logic of a Minecraft launcher, verified with Verus: version manifests and
their inheritance, library resolution and the Java class path, rule
evaluation, placeholder substitution and the launch command line, Java
detection and version parsing, and account management.

- `src/` — the verified library (a version is completed along its whole
  `inheritsFrom` chain; the running game is tracked by a small state machine).
  Paths are text built with the platform's
  separator; maps of the manifests are vectors of key/value pairs. Whatever the
  logic needs from the disk (which candidate files exist, the manifests read,
  the output of `java -version`) is handed to it as plain values.
- `tests/` — tests on concrete values.
- `app/` — the unverified shell: JSON files, directory scans, processes,
  unpacking native archives, and the command functions the front end calls.
