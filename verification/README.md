# velora

The decision logic of Velora Core, verified with Verus: configuration, the
protocol's types and validation, application discovery and the launch policy,
the Hyprland snapshot normalization and session store, telemetry parsing and
rates, MPRIS and notification normalization, the media and notification
stores, the IPC connection state machine and framing, and the frontend
bridge's line framing.

- `src/` is the verified library. Public functions state their results in
  `ensures` over spec functions and views; where a result comes from an
  outside decoder, hasher or size measure, the contract speaks of that
  result by name or through the measure. The laws that span several calls
  are public proof functions or state invariants (`inv`).
- `tests/` exercises the library on concrete values.
- `app/` is the Core program: environment, sockets, files, the compositor and
  the JSON wire encoding. It hands the library plain values and performs the
  steps the library decides.
