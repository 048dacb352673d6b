# temporal-nbd

A client that presents volumes of a remote block service as local block devices, and a service
that manages many such devices through a control socket.

- `src/` is a Verus library with all the decisions: the write-back block cache, the network block
  device protocol, the session with the remote service and its retries, the control protocol, and
  the registry of devices. Every function has a contract, and what holds over several calls is
  proved in the `law_...` functions.
- `app/` is the program, which runs as `temporal-nbd` or `temporal-ublk` by its name: it owns the
  sockets, the timers, the kernel calls and the remote procedures, and asks the library what to do
  next.
- `tests/` runs the library on concrete values.

Nothing in `src/` waits. An operation that needs the outside world yields a step (`EngineStep`,
`RpcStep`, `NbdStep`, `CreateStep`, `RequestStep`, `ClaimStep`); the caller performs it and hands
back what came of it.

## Runtime semantics

- Staged writes are kept by block address; a later write to a block replaces an earlier one.
- Reads lay the staged blocks over what the backend returns.
- A flush sends the staged blocks in ascending order, at most 512 to a batch. A batch that fails
  stays staged; it is sent again until the retry deadline has passed.
- At the high watermark a write is done only once everything staged is stored.
- Remote calls that fail in a way that may pass are made again, a bounded number of times, after
  waits that double up to a limit.
- A device goes from `Allocating` over `OpeningVolume` and `Serving` to `Draining`, and ends as
  `Detached`, `ForceDetached` or `Failed`, which is final. It keeps its volume until then: a
  volume cannot be added again while its device is still being drained.
- Every response carries the identifier of its request as it was sent.
- A mutating control request carries an idempotency key. A repetition is answered like the first
  request; another request under the same key is refused.

## What is trusted

The contracts of these outside functions are taken on trust: the error numbers of `libc`
(`src/errno.rs`), `tonic::Code::description` (`src/rpc.rs`) and `serde_json::to_string` of a text
(`src/control/fingerprint.rs`).
