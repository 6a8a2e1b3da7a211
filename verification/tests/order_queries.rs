use moe3_server::order::Order;
use moe3_server::order::OrderKind;
use moe3_server::order::OrderStatus;
use moe3_server::order_helper::OrderHelper;
use moe3_server::power::Power;
use moe3_server::province::Province;
use moe3_server::retreat_order_helper::RetreatOrderHelper;
use moe3_server::unit::Unit;

fn p(code: &str) -> Province {
    Province::from_code(code).expect("valid province code")
}

fn with_status(mut o: Order, s: OrderStatus) -> Order {
    o.set_status(s);
    o
}

fn sample() -> Vec<Order> {
    let a_par = Unit::new_army(Power::France, p("par"));
    let a_mar = Unit::new_army(Power::France, p("mar"));
    let a_mun = Unit::new_army(Power::Germany, p("mun"));
    let f_eng = Unit::new_fleet(Power::England, p("eng"));
    let a_lon = Unit::new_army(Power::England, p("lon"));
    vec![
        with_status(a_par.move_to(p("bur")), OrderStatus::Valid),
        with_status(a_mar.support_move(a_par, p("bur")), OrderStatus::Valid),
        with_status(a_mun.move_to(p("bur")), OrderStatus::Valid),
        with_status(f_eng.convoy(a_lon, p("bel")), OrderStatus::Unresolved),
        with_status(a_lon.move_to(p("bel")), OrderStatus::Invalid),
        a_mun.hold().assumed_by(Power::France),
    ]
}

#[test]
fn collections_by_kind_and_status() {
    let orders = sample();
    assert_eq!(orders.collect_not_invalid_orders().len(), 4);
    assert_eq!(orders.collect_valid_order_indices(), vec![0, 1, 2, 3]);
    assert_eq!(orders.collect_unresolved_indices(), vec![3]);
    assert_eq!(orders.collect_unresolved_move_indices(), Vec::<usize>::new());
    assert_eq!(orders.collect_valid_move_indices(), vec![0, 2]);
    assert_eq!(orders.collect_valid_move_orders().len(), 2);
    assert_eq!(orders.collect_valid_support_indices(), vec![1]);
    assert_eq!(orders.collect_valid_support_orders()[0], orders[1]);
    assert_eq!(orders.collect_unresolved_support_indices(), Vec::<usize>::new());
    assert_eq!(orders.collect_unresolved_convoy_indices(), vec![3]);
    assert_eq!(orders.collect_valid_convoy_indices(), Vec::<usize>::new());
    assert!(orders.collect_valid_convoy_orders().is_empty());
}

#[test]
fn attackers_supports_and_conflicts() {
    let orders = sample();
    let hold_bur = Unit::new_army(Power::Austria, p("bur")).hold();
    let mut board = orders.clone();
    board.push(hold_bur);
    assert_eq!(board.collect_attacker_indicies(6), vec![0, 2]);
    assert_eq!(board.count_supports(0, None), 1);
    assert_eq!(board.count_supports(0, Some(&Power::France)), 0);
    assert_eq!(board.count_supports(2, None), 0);
    assert_eq!(board.count_max_supports_for_attackers(&[0, 2], 6), 1);
    assert_eq!(board.count_max_supports_for_attackers(&[], 6), 0);
    assert!(board.has_confliction("bur"));
    assert!(!board.has_confliction("bel"));
    assert_eq!(board.find_support_target_idx(1), Some(0));
    assert_eq!(board.find_convoy_target_idx(3), Some(4));
    assert_eq!(board.collect_matched_convoy_order_indices(&board[4]), vec![3]);
}

#[test]
fn destinations_are_collected_once_in_order() {
    let orders = sample();
    let set = orders.collect_valid_move_destination_set();
    assert_eq!(set.len(), 1);
    assert_eq!(set.get_index(0), Some(&p("bur").id()));
    let mut more = orders.clone();
    more.push(with_status(Unit::new_army(Power::Italy, p("pie")).move_to(p("mar")), OrderStatus::Valid));
    let set = more.collect_valid_move_destination_set();
    assert_eq!(set.len(), 2);
    assert_eq!(set.get_index(1), Some(&p("mar").id()));
}

#[test]
fn fleets_on_water_are_listed_once() {
    let mut orders = sample();
    orders.push(Unit::new_fleet(Power::England, p("eng")).hold());
    orders.push(Unit::new_fleet(Power::France, p("bre")).hold());
    orders.push(Unit::new_fleet(Power::Germany, p("nth")).hold());
    assert_eq!(orders.collect_fleet_water_codes(), vec!["eng", "nth"]);
}

#[test]
fn occupants_of_a_province() {
    let a_bur = Unit::new_army(Power::Austria, p("bur"));
    let f_stp = Unit::new_fleet(Power::Russia, p("stp_sc"));
    let a_ber = Unit::new_army(Power::Germany, p("ber"));
    let orders = vec![
        a_bur.hold(),
        f_stp.hold(),
        with_status(a_ber.move_to(p("kie")), OrderStatus::Success),
        with_status(Unit::new_army(Power::Italy, p("rom")).move_to(p("nap")), OrderStatus::Failure)
            .assumed_by(Power::Italy),
    ];
    assert_eq!(orders.find_occupant_order_idx("bur"), Some(0));
    assert_eq!(orders.find_occupant_order_idx("stp_nc"), Some(1));
    assert_eq!(orders.find_occupant_order_idx("ber"), None);
    assert_eq!(orders.occupant_power_on_target("bur"), Some(Power::Austria));
    assert_eq!(orders.occupant_power_on_target("stp"), Some(Power::Russia));
    assert_eq!(orders.occupant_power_on_target("ber"), None);
    assert_eq!(orders.occupant_power_on_target("rom"), Some(Power::Italy));
    assert_eq!(orders.occupant_power_on_target("lon"), None);
    assert_eq!(orders.find_convoy_at_dest_idx(match orders[2].kind {
        OrderKind::Move(m) => m,
        _ => unreachable!(),
    }), None);
}

#[test]
fn targets_of_supports() {
    let a_par = Unit::new_army(Power::France, p("par"));
    let f_eng = Unit::new_fleet(Power::England, p("eng"));
    let a_lon = Unit::new_army(Power::England, p("lon"));
    let f_nth = Unit::new_fleet(Power::England, p("nth"));
    let orders = vec![
        a_par.move_to(p("pic")),
        Unit::new_army(Power::France, p("bre")).support_move(a_par, p("pic")),
        f_eng.convoy(a_lon, p("pic")),
        f_nth.support_hold(f_eng),
        Unit::new_fleet(Power::France, p("pic")).hold(),
        a_lon.move_to(p("pic")),
    ];
    assert_eq!(orders.get_support_target_move_order_kind(1).map(|m| m.dest), Some(p("pic")));
    assert_eq!(orders.get_support_target_move_order_kind(3), None);
    let c = orders.get_support_target_convoy_order_kind(3).expect("a convoy");
    assert_eq!(c.0, 2);
    assert_eq!(c.1.target_dest, p("pic"));
    assert_eq!(orders.get_support_target_convoy_order_kind(1), None);
    assert_eq!(orders.find_support_at_dest_idx(0), None);
    assert_eq!(orders.find_support_at_dest_idx(4), None);
    let mut with_support_at_pic = orders.clone();
    with_support_at_pic[4] = Unit::new_fleet(Power::France, p("pic")).support_hold(a_par);
    assert_eq!(with_support_at_pic.find_support_at_dest_idx(0), Some(4));
}

#[test]
fn retreat_positions_skip_assumed_orders() {
    let f_ank = Unit::new_fleet(Power::Turkey, p("ank"));
    let a_ser = Unit::new_army(Power::Austria, p("ser"));
    let orders = vec![
        f_ank.retreat_to(p("bla")).assumed_by(Power::Russia),
        a_ser.hold(),
        a_ser.retreat_to(p("alb")),
        with_status(f_ank.retreat_to(p("arm")), OrderStatus::Invalid),
    ];
    let kept = orders.collect_not_assumed_orders();
    assert_eq!(kept.len(), 3);
    assert_eq!(kept[0], orders[1]);
    assert_eq!(orders.collect_retreat_indices(), vec![1]);
}
