use refuel::cycle::persist;
use refuel::parse::{PriceChange as Observed, RefuelStation, RefuelStationPriceChange};
use refuel::store::{NewPriceChange, NewStation, Station, StationPriceChange, Store};

fn station(store: &mut Store, name: &str, addr: &str) -> i32 {
    NewStation { name, addr }.save(store).unwrap()
}

fn observe(store: &mut Store, station_id: i32, updated: i64, price: i32) -> Option<i32> {
    NewPriceChange { station_id, updated, price }.save(store)
}

#[test]
fn recording_twice_keeps_one_row_and_one_id() {
    let mut store = Store::new();
    let a = station(&mut store, "A", "Street 1");
    let first = observe(&mut store, a, 1000, 1789);
    let second = observe(&mut store, a, 1000, 1789);
    assert_eq!(first, Some(1));
    assert_eq!(second, first);
    assert_eq!(store.price_changes().len(), 1);
    let again_other_price = observe(&mut store, a, 1000, 1799);
    assert_eq!(again_other_price, Some(1));
    assert_eq!(store.price_changes()[0].price, 1789);
}

#[test]
fn stations_are_found_by_name_and_address() {
    let mut store = Store::new();
    assert_eq!(station(&mut store, "JET", "Rhinstr. 240"), 1);
    assert_eq!(station(&mut store, "JET", "Storkower Str. 126"), 2);
    assert_eq!(station(&mut store, "JET", "Rhinstr. 240"), 1);
    assert_eq!(station(&mut store, "ESSO", "Rhinstr. 240"), 3);
    assert_eq!(store.stations().len(), 3);
    assert_eq!(store.stations()[1].addr, "Storkower Str. 126");
}

#[test]
fn current_prices_are_the_latest_per_station() {
    let mut store = Store::new();
    let a = station(&mut store, "A", "Street 1");
    let b = station(&mut store, "B", "Street 2");
    observe(&mut store, a, 100, 1700);
    observe(&mut store, a, 200, 1750);
    observe(&mut store, b, 400, 1800);
    observe(&mut store, a, 300, 1720);
    let current = StationPriceChange::load_current(&store);
    assert_eq!(current.len(), 2);
    assert_eq!((current[0].name.as_str(), current[0].updated, current[0].price), ("A", 300, 1720));
    assert_eq!((current[1].name.as_str(), current[1].updated, current[1].price), ("B", 400, 1800));
}

#[test]
fn history_is_newest_first_then_cheapest_then_by_station() {
    let mut store = Store::new();
    let b = station(&mut store, "B", "x");
    let a2 = station(&mut store, "A", "z");
    let a1 = station(&mut store, "A", "y");
    observe(&mut store, b, 10, 1500);
    observe(&mut store, a2, 10, 1500);
    observe(&mut store, a1, 10, 1500);
    observe(&mut store, b, 20, 1900);
    observe(&mut store, a1, 10 - 5, 1400);
    observe(&mut store, a2, 20, 1600);
    let all = StationPriceChange::load_all(&store);
    let got: Vec<(&str, &str, i64, i32)> =
        all.iter().map(|r| (r.name.as_str(), r.addr.as_str(), r.updated, r.price)).collect();
    assert_eq!(got, vec![
        ("A", "z", 20, 1600),
        ("B", "x", 20, 1900),
        ("A", "y", 10, 1500),
        ("A", "z", 10, 1500),
        ("B", "x", 10, 1500),
        ("A", "y", 5, 1400),
    ]);
    assert_eq!(all[0].display_price(), Ok([1, 60, 0]));
}

#[test]
fn station_history_is_newest_first() {
    let mut store = Store::new();
    let a = station(&mut store, "A", "Street 1");
    let b = station(&mut store, "B", "Street 2");
    observe(&mut store, a, 100, 1700);
    observe(&mut store, b, 150, 1650);
    observe(&mut store, a, 300, 1720);
    observe(&mut store, a, 200, 1750);
    let hist = StationPriceChange::load_station(a, &store);
    let times: Vec<i64> = hist.iter().map(|r| r.updated).collect();
    assert_eq!(times, vec![300, 200, 100]);
    assert!(StationPriceChange::load_station(99, &store).is_empty());
}

#[test]
fn empty_store_has_empty_projections() {
    let store = Store::new();
    assert!(StationPriceChange::load_all(&store).is_empty());
    assert!(StationPriceChange::load_current(&store).is_empty());
}

fn record(name: &str, updated: i64, price: [u8; 3]) -> RefuelStationPriceChange {
    RefuelStationPriceChange {
        station: RefuelStation { name: String::from(name), addr: String::from("Street") },
        price_change: Observed { price, updated },
    }
}

#[test]
fn saving_a_record_creates_station_and_observation() {
    let mut store = Store::new();
    let saved = record("A", 100, [1, 78, 9]).save(&mut store).unwrap();
    assert_eq!(saved.id, 1);
    assert_eq!(store.price_changes()[0].price, 1789);
    assert_eq!(store.price_changes()[0].station_id, 1);
    let again = record("A", 200, [1, 79, 9]).save(&mut store).unwrap();
    assert_eq!(again.id, 1);
    assert_eq!(store.stations().len(), 1);
    assert_eq!(store.price_changes().len(), 2);
}

#[test]
fn persisting_an_unchanged_page_again_saves_nothing() {
    let mut store = Store::new();
    let page = || vec![record("A", 100, [1, 78, 9]), record("B", 100, [1, 80, 9])];
    let first = persist(page(), &mut store, false);
    assert_eq!((first.fetched, first.saved), (2, 2));
    let second = persist(page(), &mut store, false);
    assert_eq!((second.fetched, second.saved), (2, 0));
    assert_eq!(store.price_changes().len(), 2);
}

#[test]
fn dry_run_persists_nothing() {
    let mut store = Store::new();
    let report = persist(vec![record("A", 100, [1, 78, 9])], &mut store, true);
    assert_eq!((report.fetched, report.saved), (1, 0));
    assert!(store.stations().is_empty());
    assert!(store.price_changes().is_empty());
}

#[test]
fn stations_are_listed_by_name_then_address() {
    let mut store = Store::new();
    station(&mut store, "JET", "Storkower Str. 126");
    station(&mut store, "ESSO", "Marienfelder Chaussee 171");
    station(&mut store, "JET", "Rhinstr. 240");
    let list = Station::load_all(&store);
    let got: Vec<(i32, &str, &str)> = list.iter().map(|s| (s.id, s.name.as_str(), s.addr.as_str())).collect();
    assert_eq!(got, vec![
        (2, "ESSO", "Marienfelder Chaussee 171"),
        (3, "JET", "Rhinstr. 240"),
        (1, "JET", "Storkower Str. 126"),
    ]);
}
