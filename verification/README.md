# bacnet_stack

The decision logic of a BACnet runtime, server and B/IP / BACnet/SC
transport stack, written in Verus with contracts and proved.

- `src/` is the verified library. Each module holds plain-value state and
  functions from state and event to next state and action: the runtime work
  scheduler, attachment configuration validation, client request preparation,
  the COV subscription table and its quotas, BBMD table validation and live
  control, the BVLC codec and management exchange, management rate limiting,
  foreign-device registration telemetry, confirmed-request duplicate
  detection, segmented-request reassembly, BACnet/SC hub URL normalisation and
  reconnect planning, NetworkPort publication and the in-process virtual
  network registry. Time enters as monotonic milliseconds.
- `app/` is the asynchronous edge around it, in ordinary Rust over tokio:
  clocks, task supervision, BDT persistence, datagram sends, the reconnect and
  registration loops, and the floating-point COV change test.
- `tests/` exercises the library on concrete values.
