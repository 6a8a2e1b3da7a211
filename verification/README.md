# moe3_server

The rules engine of a Diplomacy game server, written in Verus: the map, the
powers, units and orders, and the resolution of the three kinds of phase
(orders, retreats, adjustments), each function with a contract that Verus
proves.

## Layout

- `src/power.rs`, `src/province.rs`, `src/adjacency.rs`, `src/map.rs`: the
  powers, the table of provinces, the borders, and what is derived from them
  (moves, convoy routes, distances).
- `src/unit.rs`, `src/territory.rs`, `src/order.rs`, `src/phase.rs`: units,
  owned provinces, orders and phases.
- `src/validation.rs`, `src/settlement.rs`, `src/resolution.rs`,
  `src/adjudicator.rs`: the check of moves, supports and convoys, the
  decisions that follow from the rules alone (round after round, and plain
  circles of moves), and the guessing resolution of what is left; `src/main_order_resolution.rs` and `src/order_resolution.rs` record
  where the units stand afterwards; `src/phase_order_resolution.rs` holds the
  staged checks of an order phase (moves, supports, convoys, cut supports),
  whose results it writes back to the units of the phase.
- `src/retreat_adjudicator.rs`, `src/retreat_order_resolution.rs`,
  `src/retreat_order_helper.rs`: the retreat phase.
- `src/adjustment_adjudicator.rs`, `src/adjustment_order_resolution.rs`,
  `src/adjustment_order_helper.rs`, `src/unit_helper.rs`: builds, removals and
  civil disorder.
- `src/order_helper.rs`: queries over the orders of a phase; the set of
  destinations is an `indexmap::IndexSet` reached through two trusted wrappers.
- `tests/`: the DATC scenarios and further cases.
