# wardenkernel (verified)

Capability tokens whose delegation can only narrow permissions, an agent tool
gateway that checks every request against its active token, and the
arithmetic of a bump allocator, with their contracts proved by Verus.

- `src/capability.rs`: `Capability`, `CapabilityToken`, delegation, and the
  narrowing laws over single steps and whole delegation chains.
- `src/gateway.rs`: `ToolRequest`, `ToolGateway` and the gateway laws.
- `src/adversarial.rs`, `src/gateway_tests.rs`: the built-in scenarios, each
  proved to report success.
- `src/allocator.rs`: where a bump allocation lands and one compare-and-swap
  attempt to claim it.
- `app/`: the boot program and the global allocator around the library.
