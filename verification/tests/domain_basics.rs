use moe3_server::power::Power;
use moe3_server::province::Province;
use moe3_server::unit::Unit;

fn p(code: &str) -> Province {
    Province::from_code(code).expect("valid province code")
}

#[test]
fn test_from_code() {
    assert_eq!(Province::from_code("adr"), Some(p("adr")));
    assert_eq!(Province::from_code("lon"), Some(p("lon")));
    assert_eq!(Province::from_code("invalid"), None);
}

#[test]
fn test_full_name() {
    assert_eq!(p("adr").full_name(), "Adriatic Water");
    assert_eq!(p("lon").full_name(), "London");
}

#[test]
fn test_is_supply_center() {
    assert!(p("lon").is_supply_center());
    assert!(!p("adr").is_supply_center());
}

#[test]
fn test_is_water() {
    assert!(p("adr").is_water());
    assert!(!p("lon").is_water());
}

#[test]
fn test_home() {
    assert_eq!(p("lon").home(), Some("e"));
    assert_eq!(p("adr").home(), None);
}

#[test]
fn test_unit_creation() {
    let army = Unit::new_army(Power::France, p("par"));
    assert_eq!(army.symbol(), "A");
    assert_eq!(army.label(), "A par");

    let fleet = Unit::new_fleet(Power::England, p("lon"));
    assert_eq!(fleet.symbol(), "F");
    assert_eq!(fleet.label(), "F lon");
}
