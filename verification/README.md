# kubesess

Fast `kubectx`/`kubens` replacement with session-isolated kubeconfigs.

- `src/` is the verified core (Verus): the selector preparation (priority
  tiers, rank penalties, colouring, ordering), the slots that remember the
  previous context or namespace, the parsing of `kubectl` output, the steps
  of each switching mode, and the text helpers they rest on. Regular
  expressions are compiled and matched by the `regex` crate.
- `app/` holds the I/O around it: reading `config.toml`, the slot files,
  running `kubectl`, the interactive `skim` selector, and converting a
  `kube` kubeconfig into the library's model.
- `tests/` exercises the library on concrete values.
