# billow

billow runs container workloads inside a pool of virtual machines. An agent
in each machine keeps workloads in their desired state through containerd and
CNI; a command-line client submits and inspects them; an installer sets the
agent up; a pool daemon keeps warm machines ready to hand out.

`src/` is the verified library, checked with Verus. It holds the rules of the
system with their contracts:

- `workload`, `policy`, `store`, `reconcile`, `watch`, `manager`: the
  workload model, which state changes are allowed, the store of workloads and
  their runs, and the decisions of the reconcile and watch loops;
- `runtime`, `containerd`, `network`, `rootfs`, `image`, `reference`: task
  names, run directories, cleanup bookkeeping, IPv4 ranges and CNI results,
  layer chain ids, image manifests and references;
- `cli`, `pool`, `pool_protocol`, `install`: argument parsing and output, the
  machine pool and its line protocol, the installation layout and checks;
- `text`, `seqs`: text and sequence helpers with their specifications.

`app/` is the unverified shell around it: process entry points, file, socket
and gRPC I/O, the SQLite persistence of the store, containerd and CNI calls,
and the async loops that run the library's decisions.

`tests/` exercises the library on concrete values.
