# sytra

A verified library for planning and checking sparse mixture-of-experts model
serving: runtime manifests and their expert indexes, compiled adapter
contracts, Kimi K2.7 and standard-MoE (Mixtral, Qwen, OLMoE, Granite)
configurations and tensor bindings, RAM/accelerator expert residency with hard
byte budgets, packed-INT4 tiling plans, oracle suites, checkpoint fingerprints,
merge and training guidance, and catalog risk alerts.

- `src/` is the library. Every function carries a `requires`/`ensures`
  contract proved by Verus; the few calls into the standard library and
  `sha2` that Verus cannot read stand behind small trusted wrappers whose
  contracts say what the outside documentation promises.
- `tests/` runs the library on concrete inputs.
- `app/` is the command line around it: reading files, JSON and YAML,
  floating-point size estimates, and printing.
