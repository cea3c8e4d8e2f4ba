# pallet_network

The bookkeeping core of a network of subnets: subnet registration, activation
and removal, subnet node registration and activation, hotkey and coldkey
management, overwatch nodes, node stake, delegate stake pools with share
accounting, the unbonding ledger, the delegate stake swap queue, and the
read-only views over all of it.

All of `src/` is verified with Verus: every public function states what it
returns and how it changes the state, over views of the network's maps.

Layout:

- `src/types.rs`: records, enums and errors.
- `src/network.rs`: the network state (`Network`) and its map helpers.
- `src/registry.rs`: subnet, node, key and overwatch records.
- `src/names.rs`: byte-string indexes (peer ids, names, bootnodes).
- `src/math.rs`: share/balance conversion, through `sp-core`'s 256-bit integers.
- `src/subnets.rs`, `src/nodes.rs`, `src/keys.rs`, `src/overwatch.rs`:
  registration, activation, removal and key updates.
- `src/pools.rs`, `src/delegate_staking.rs`, `src/validator_delegate_staking.rs`,
  `src/node_staking.rs`, `src/unbonding.rs`: stake.
- `src/swap_queue.rs`, `src/hooks.rs`: the swap queue and its per-block
  execution under a weight budget.
- `src/calls.rs`: the transaction entry points and the block schedule.
- `src/info.rs`: read-only views.
- `src/laws.rs`: properties that span several operations.
- `app/`: the currency and the per-block driver around the library.
- `tests/`: tests on concrete values.

Outside answers the library does not compute itself are passed in as
arguments: the currency's answer to a withdrawal (of a node's initial stake,
of delegate stake, of a subnet's registration cost), whether a registration
burn succeeded and what it cost, the current epoch and each subnet's current
epoch, whether a peer id is well formed and whether it is unused in its subnet,
and the runtime's benchmarked weights.
