use moe3_server::order::OrderStatus;
use moe3_server::phase::Phase;
use moe3_server::phase::PhaseContext;
use moe3_server::phase_order_resolution::resolve_orders_for_order_phase;
use moe3_server::power::Power;
use moe3_server::province::Province;
use moe3_server::unit::Unit;

fn p(code: &str) -> Province {
    Province::from_code(code).expect("valid province code")
}

fn run(phase: &mut Phase) {
    resolve_orders_for_order_phase(phase, &mut PhaseContext::new());
}

#[test]
fn a_fleet_move_out_of_reach_stays_open() {
    let mut phase = Phase::new_spring_order(1901, 1);
    phase.data.orders.push(Unit::new_fleet(Power::England, p("lon")).move_to(p("mun")));
    phase.data.orders.push(Unit::new_army(Power::England, p("lvp")).move_to(p("mun")));
    phase.data.orders.push(Unit::new_army(Power::France, p("par")).move_to(p("bur")));
    run(&mut phase);
    assert_eq!(phase.data.orders[0].status, OrderStatus::Unresolved);
    assert_eq!(phase.data.orders[1].status, OrderStatus::Invalid);
    assert_eq!(phase.data.orders[2].status, OrderStatus::Valid);
}

#[test]
fn a_convoyed_army_and_its_convoy_are_valid() {
    let mut phase = Phase::new_spring_order(1901, 1);
    let a_lon = Unit::new_army(Power::England, p("lon"));
    phase.data.orders.push(a_lon.move_to(p("bel")));
    phase.data.orders.push(Unit::new_fleet(Power::England, p("nth")).convoy(a_lon, p("bel")));
    phase.data.orders.push(Unit::new_fleet(Power::England, p("bre")).convoy(a_lon, p("bel")));
    run(&mut phase);
    assert_eq!(phase.data.orders[0].status, OrderStatus::Valid);
    assert_eq!(phase.data.orders[1].status, OrderStatus::Valid);
    assert_eq!(phase.data.orders[2].status, OrderStatus::Invalid);
}

#[test]
fn a_support_must_reach_the_very_coast() {
    let mut phase = Phase::new_spring_order(1901, 1);
    let a_mar = Unit::new_army(Power::France, p("mar"));
    phase.data.orders.push(a_mar.move_to(p("spa")));
    phase.data.orders.push(Unit::new_fleet(Power::France, p("wes")).support_move(a_mar, p("spa")));
    phase.data.orders.push(Unit::new_army(Power::France, p("gas")).support_move(a_mar, p("spa")));
    run(&mut phase);
    assert_eq!(phase.data.orders[0].status, OrderStatus::Valid);
    assert_eq!(phase.data.orders[1].status, OrderStatus::Invalid);
    assert_eq!(phase.data.orders[2].status, OrderStatus::Valid);
}

#[test]
fn an_attack_from_a_neighbour_cuts_a_support() {
    let mut phase = Phase::new_spring_order(1901, 1);
    let a_par = Unit::new_army(Power::France, p("par"));
    phase.data.orders.push(a_par.move_to(p("bur")));
    phase.data.orders.push(Unit::new_army(Power::France, p("mar")).support_move(a_par, p("bur")));
    phase.data.orders.push(Unit::new_army(Power::Italy, p("pie")).move_to(p("mar")));
    run(&mut phase);
    assert_eq!(phase.data.orders[1].status, OrderStatus::Cut);
}

#[test]
fn an_attack_from_the_supported_destination_does_not_cut() {
    let mut phase = Phase::new_spring_order(1901, 1);
    let a_gas = Unit::new_army(Power::France, p("gas"));
    phase.data.orders.push(a_gas.move_to(p("bur")));
    phase.data.orders.push(Unit::new_army(Power::France, p("mar")).support_move(a_gas, p("bur")));
    phase.data.orders.push(Unit::new_army(Power::Germany, p("bur")).move_to(p("mar")));
    run(&mut phase);
    assert_eq!(phase.data.orders[1].status, OrderStatus::Valid);
}

#[test]
fn a_support_to_hold_is_cut_by_any_attack() {
    let mut phase = Phase::new_spring_order(1901, 1);
    let a_par = Unit::new_army(Power::France, p("par"));
    phase.data.orders.push(a_par.hold());
    phase.data.orders.push(Unit::new_army(Power::France, p("bur")).support_hold(a_par));
    phase.data.orders.push(Unit::new_army(Power::Germany, p("mun")).move_to(p("bur")));
    phase.data.orders.push(Unit::new_army(Power::France, p("gas")).move_to(p("bre")));
    run(&mut phase);
    assert_eq!(phase.data.orders[1].status, OrderStatus::Cut);
}

#[test]
fn an_attack_of_the_own_power_does_not_cut() {
    let mut phase = Phase::new_spring_order(1901, 1);
    let a_par = Unit::new_army(Power::France, p("par"));
    phase.data.orders.push(a_par.hold());
    phase.data.orders.push(Unit::new_army(Power::France, p("bur")).support_hold(a_par));
    phase.data.orders.push(Unit::new_army(Power::France, p("mar")).move_to(p("bur")));
    run(&mut phase);
    assert_eq!(phase.data.orders[1].status, OrderStatus::Valid);
}

#[test]
fn attacks_from_two_places_cut() {
    let mut phase = Phase::new_spring_order(1901, 1);
    let a_gas = Unit::new_army(Power::France, p("gas"));
    phase.data.orders.push(a_gas.move_to(p("bur")));
    phase.data.orders.push(Unit::new_army(Power::France, p("mar")).support_move(a_gas, p("bur")));
    phase.data.orders.push(Unit::new_army(Power::Germany, p("bur")).move_to(p("mar")));
    phase.data.orders.push(Unit::new_army(Power::Italy, p("pie")).move_to(p("mar")));
    run(&mut phase);
    assert_eq!(phase.data.orders[1].status, OrderStatus::Cut);
}

#[test]
fn a_convoyed_attack_cuts_a_support() {
    let mut phase = Phase::new_spring_order(1901, 1);
    let a_hol = Unit::new_army(Power::Germany, p("hol"));
    let a_lon = Unit::new_army(Power::England, p("lon"));
    phase.data.orders.push(a_hol.move_to(p("ruh")));
    phase.data.orders.push(Unit::new_army(Power::Germany, p("bel")).support_move(a_hol, p("ruh")));
    phase.data.orders.push(a_lon.move_to(p("bel")));
    phase.data.orders.push(Unit::new_fleet(Power::England, p("nth")).convoy(a_lon, p("bel")));
    run(&mut phase);
    assert_eq!(phase.data.orders[2].status, OrderStatus::Valid);
    assert_eq!(phase.data.orders[3].status, OrderStatus::Valid);
    assert_eq!(phase.data.orders[1].status, OrderStatus::Cut);
}

#[test]
fn results_are_written_back_to_the_units() {
    let mut phase = Phase::new_spring_order(1901, 1);
    let a_par = Unit::new_army(Power::France, p("par"));
    let f_lon = Unit::new_fleet(Power::England, p("lon"));
    phase.data.units.push(a_par);
    phase.data.units.push(f_lon);
    let mut settled = a_par.move_to(p("bur"));
    settled.set_success();
    phase.data.orders.push(settled);
    phase.data.orders.push(f_lon.move_to(p("nth")));
    let mut context = PhaseContext::new();
    context.last_resolved_units.push(a_par);
    resolve_orders_for_order_phase(&mut phase, &mut context);
    assert_eq!(phase.data.units.len(), 2);
    assert_eq!(phase.data.units[0], Unit::new_army(Power::France, p("bur")));
    assert_eq!(phase.data.units[1], f_lon);
    assert_eq!(phase.data.orders[1].status, OrderStatus::Valid);
    assert_eq!(context.last_resolved_units.len(), 1);
    assert_eq!(context.last_resolved_units[0], a_par);
    assert_eq!(phase.year, 1901);
    assert_eq!(phase.id, 1);
}
