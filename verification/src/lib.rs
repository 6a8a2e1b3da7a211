//! Adjudication library for the MOE 3 Diplomacy server: the map, the
//! units and orders, and the resolution of the order, retreat and
//! adjustment phases.

pub mod power;
pub mod province;
pub mod text;
pub mod adjacency;
pub mod unit;
pub mod territory;
pub mod order;
pub mod map;
pub mod phase;
pub mod validation;
pub mod resolution;
pub mod settlement;
pub mod adjudicator;
pub mod main_order_resolution;
pub mod order_resolution;
pub mod retreat_adjudicator;
pub mod retreat_order_resolution;
pub mod unit_helper;
pub mod adjustment_order_helper;
pub mod adjustment_adjudicator;
pub mod adjustment_order_resolution;
pub mod retreat_order_helper;
pub mod phase_order_resolution;
pub mod order_helper;
