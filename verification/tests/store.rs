use car_rental::bounded_map::BoundedMap;
use car_rental::car::Car;
use car_rental::counter::IdCounter;
use car_rental::error::Error;
use car_rental::rental::{RentalRequest, RentalStatus};
use car_rental::segment::Allocator;
use car_rental::store::Store;
use car_rental::table::Table;

fn fresh() -> Store {
    let mut allocator = Allocator::new();
    Store::open(&mut allocator).unwrap()
}

fn car(id: u64, make: &str, model: &str, year: u32) -> Car {
    Car { id, make: make.to_string(), model: model.to_string(), year, available: true }
}

fn request(id: u64, car_id: u64, customer_id: u64) -> RentalRequest {
    RentalRequest {
        id,
        car_id,
        customer_id,
        start_date: 100,
        end_date: 200,
        status: RentalStatus::Pending,
    }
}

fn add_request(store: &mut Store, car_id: u64, customer_id: u64) -> RentalRequest {
    store.add_rental_request(car_id, customer_id, 100, 200, RentalStatus::Pending).unwrap()
}

#[test]
fn new_store_is_empty() {
    let store = fresh();
    assert_eq!(store.last_id(), 0);
    assert!(store.list_cars().is_empty());
    assert!(store.list_rental_requests().is_empty());
    assert!(store.list_rental_requests_for_car(1).is_empty());
    assert!(store.list_rental_requests_for_customer(1).is_empty());
}

#[test]
fn store_takes_its_three_segments() {
    let mut allocator = Allocator::new();
    let store = Store::open(&mut allocator);
    assert!(store.is_ok());
    assert!(allocator.is_claimed(0));
    assert!(allocator.is_claimed(1));
    assert!(allocator.is_claimed(2));
    assert!(!allocator.is_claimed(3));
    assert_eq!(
        Store::open(&mut allocator).err(),
        Some(Error::InvalidInput { msg: "Segment is not available".to_string() })
    );
}

#[test]
fn store_is_not_opened_over_a_segment_in_use() {
    let mut allocator = Allocator::new();
    allocator.claim(2).unwrap();
    assert_eq!(
        Store::open(&mut allocator).err(),
        Some(Error::InvalidInput { msg: "Segment is not available".to_string() })
    );
    assert!(!allocator.is_claimed(0));
    assert!(!allocator.is_claimed(1));
}

#[test]
fn added_car_is_read_back() {
    let mut store = fresh();
    let made = store.add_car("Toyota".to_string(), "Corolla".to_string(), 2020).unwrap();
    assert_eq!(made, car(1, "Toyota", "Corolla", 2020));
    assert_eq!(store.last_id(), 1);
    assert_eq!(store.get_car(1), Ok(made));
}

#[test]
fn added_request_is_read_back() {
    let mut store = fresh();
    let made = store.add_rental_request(9, 5, 1, 2, RentalStatus::Active).unwrap();
    let expected = RentalRequest {
        id: 1,
        car_id: 9,
        customer_id: 5,
        start_date: 1,
        end_date: 2,
        status: RentalStatus::Active,
    };
    assert_eq!(made, expected);
    assert_eq!(store.get_rental_request(1), Ok(expected));
    assert_eq!(
        store.get_car(1),
        Err(Error::NotFound { msg: "Car with id=1 not found".to_string() })
    );
}

#[test]
fn identifiers_are_shared_and_never_given_twice() {
    let mut store = fresh();
    assert_eq!(store.add_car("a".to_string(), "b".to_string(), 1).unwrap().id, 1);
    assert_eq!(add_request(&mut store, 1, 5).id, 2);
    assert_eq!(store.add_car("c".to_string(), "d".to_string(), 2).unwrap().id, 3);
    assert_eq!(store.delete_car(3), Ok(()));
    assert_eq!(store.delete_rental_request(2), Ok(()));
    assert_eq!(store.add_car("e".to_string(), "f".to_string(), 3).unwrap().id, 4);
    assert_eq!(add_request(&mut store, 1, 5).id, 5);
    assert_eq!(store.last_id(), 5);
}

#[test]
fn deleted_records_are_not_found() {
    let mut store = fresh();
    store.add_car("a".to_string(), "b".to_string(), 1).unwrap();
    add_request(&mut store, 1, 5);
    assert_eq!(store.delete_car(1), Ok(()));
    assert_eq!(
        store.get_car(1),
        Err(Error::NotFound { msg: "Car with id=1 not found".to_string() })
    );
    assert_eq!(
        store.delete_car(1),
        Err(Error::NotFound { msg: "Car with id=1 not found".to_string() })
    );
    assert_eq!(store.delete_rental_request(2), Ok(()));
    assert_eq!(
        store.get_rental_request(2),
        Err(Error::NotFound { msg: "Rental request with id=2 not found".to_string() })
    );
    assert_eq!(
        store.delete_rental_request(2),
        Err(Error::NotFound { msg: "Rental request with id=2 not found".to_string() })
    );
}

#[test]
fn delete_in_the_other_table_fails() {
    let mut store = fresh();
    store.add_car("a".to_string(), "b".to_string(), 1).unwrap();
    assert_eq!(
        store.delete_rental_request(1),
        Err(Error::NotFound { msg: "Rental request with id=1 not found".to_string() })
    );
    assert_eq!(store.get_car(1), Ok(car(1, "a", "b", 1)));
}

#[test]
fn updated_car_keeps_its_identifier_and_availability() {
    let mut store = fresh();
    store.add_car("Toyota".to_string(), "Corolla".to_string(), 2020).unwrap();
    store.add_car("Fiat".to_string(), "Panda".to_string(), 1990).unwrap();
    let revised = store.update_car(1, "Toyota".to_string(), "Camry".to_string(), 2021).unwrap();
    assert_eq!(revised, car(1, "Toyota", "Camry", 2021));
    assert_eq!(store.get_car(1), Ok(revised));
    assert_eq!(store.get_car(2), Ok(car(2, "Fiat", "Panda", 1990)));
    assert_eq!(store.last_id(), 2);
}

#[test]
fn update_of_an_absent_car_fails_and_changes_nothing() {
    let mut store = fresh();
    store.add_car("a".to_string(), "b".to_string(), 1).unwrap();
    assert_eq!(
        store.update_car(2, "c".to_string(), "d".to_string(), 2),
        Err(Error::NotFound { msg: "Car with id=2 not found".to_string() })
    );
    assert_eq!(store.list_cars(), vec![car(1, "a", "b", 1)]);
}

#[test]
fn updated_request_has_every_field_anew_but_its_identifier() {
    let mut store = fresh();
    add_request(&mut store, 1, 5);
    add_request(&mut store, 1, 6);
    let revised =
        store.update_rental_request(2, 7, 8, 300, 400, RentalStatus::Canceled).unwrap();
    let expected = RentalRequest {
        id: 2,
        car_id: 7,
        customer_id: 8,
        start_date: 300,
        end_date: 400,
        status: RentalStatus::Canceled,
    };
    assert_eq!(revised, expected);
    assert_eq!(store.get_rental_request(2), Ok(expected));
    assert_eq!(store.get_rental_request(1), Ok(request(1, 1, 5)));
    assert_eq!(
        store.update_rental_request(3, 7, 8, 300, 400, RentalStatus::Active),
        Err(Error::NotFound { msg: "Rental request with id=3 not found".to_string() })
    );
}

#[test]
fn car_that_is_too_long_is_refused() {
    let mut store = fresh();
    assert_eq!(
        store.add_car("m".repeat(600), "n".repeat(600), 1),
        Err(Error::InvalidInput { msg: "Car with id=1 is too large".to_string() })
    );
    assert!(store.list_cars().is_empty());
    assert_eq!(store.last_id(), 1);
    assert_eq!(store.add_car("a".to_string(), "b".to_string(), 1).unwrap().id, 2);
    assert_eq!(
        store.update_car(2, "m".repeat(600), "n".repeat(600), 1),
        Err(Error::InvalidInput { msg: "Car with id=2 is too large".to_string() })
    );
    assert_eq!(store.get_car(2), Ok(car(2, "a", "b", 1)));
}

#[test]
fn car_of_the_greatest_length_is_stored() {
    let mut store = fresh();
    let make = "é".repeat(250);
    let model = "n".repeat(1024 - 29 - 500);
    let made = store.add_car(make.clone(), model.clone(), 7).unwrap();
    assert_eq!(store.get_car(1), Ok(made));
    assert_eq!(
        store.update_car(1, make, model + "n", 7),
        Err(Error::InvalidInput { msg: "Car with id=1 is too large".to_string() })
    );
}

#[test]
fn lists_are_in_ascending_order_and_count_what_is_left() {
    let mut store = fresh();
    store.add_car("a".to_string(), "b".to_string(), 1).unwrap();
    add_request(&mut store, 1, 5);
    store.add_car("c".to_string(), "d".to_string(), 2).unwrap();
    add_request(&mut store, 3, 6);
    store.add_car("e".to_string(), "f".to_string(), 3).unwrap();
    assert_eq!(
        store.list_cars(),
        vec![car(1, "a", "b", 1), car(3, "c", "d", 2), car(5, "e", "f", 3)]
    );
    assert_eq!(store.list_rental_requests(), vec![request(2, 1, 5), request(4, 3, 6)]);
    assert_eq!(store.delete_car(3), Ok(()));
    assert_eq!(store.list_cars(), vec![car(1, "a", "b", 1), car(5, "e", "f", 3)]);
    assert_eq!(store.delete_rental_request(2), Ok(()));
    assert_eq!(store.list_rental_requests(), vec![request(4, 3, 6)]);
}

#[test]
fn requests_are_found_by_vehicle_and_by_customer() {
    let mut store = fresh();
    let a = add_request(&mut store, 1, 5);
    let b = add_request(&mut store, 2, 5);
    let c = add_request(&mut store, 1, 6);
    let d = add_request(&mut store, 3, 7);
    let e = add_request(&mut store, 1, 5);
    assert_eq!(store.list_rental_requests_for_car(1), vec![a, c, e]);
    assert_eq!(store.list_rental_requests_for_car(2), vec![b]);
    assert_eq!(store.list_rental_requests_for_car(4), vec![]);
    assert_eq!(store.list_rental_requests_for_customer(5), vec![a, b, e]);
    assert_eq!(store.list_rental_requests_for_customer(7), vec![d]);
    assert_eq!(store.list_rental_requests_for_customer(1), vec![]);

    let by_hand: Vec<RentalRequest> =
        store.list_rental_requests().into_iter().filter(|r| r.car_id == 1).collect();
    assert_eq!(store.list_rental_requests_for_car(1), by_hand);

    store.update_rental_request(c.id, 2, 5, 100, 200, RentalStatus::Active).unwrap();
    assert_eq!(store.list_rental_requests_for_car(1), vec![a, e]);
    assert_eq!(store.list_rental_requests_for_customer(5).len(), 4);
    store.delete_rental_request(a.id).unwrap();
    assert_eq!(store.list_rental_requests_for_car(1), vec![e]);
}

#[test]
fn requests_of_a_deleted_vehicle_stay() {
    let mut store = fresh();
    store.add_car("a".to_string(), "b".to_string(), 1).unwrap();
    let r = add_request(&mut store, 1, 5);
    store.delete_car(1).unwrap();
    assert_eq!(store.list_rental_requests_for_car(1), vec![r]);
    assert_eq!(store.get_rental_request(2), Ok(r));
}

fn parts(allocator: &mut Allocator, at: [u8; 3]) -> (IdCounter, Table<Car>, Table<RentalRequest>) {
    let counter = IdCounter::attach(allocator.claim(at[0]).unwrap()).unwrap();
    let cars = Table::over(BoundedMap::attach(allocator.claim(at[1]).unwrap())).unwrap();
    let rentals = Table::over(BoundedMap::attach(allocator.claim(at[2]).unwrap())).unwrap();
    (counter, cars, rentals)
}

#[test]
fn store_of_sound_parts_is_assembled() {
    let mut allocator = Allocator::new();
    let (mut counter, mut cars, mut rentals) = parts(&mut allocator, [0, 1, 2]);
    cars.create(&mut counter, car(0, "a", "b", 1)).unwrap();
    rentals.create(&mut counter, request(0, 1, 5)).unwrap();
    let mut store = Store::assemble(counter, cars, rentals).unwrap();
    assert_eq!(store.last_id(), 2);
    assert_eq!(store.list_cars(), vec![car(1, "a", "b", 1)]);
    assert_eq!(store.list_rental_requests(), vec![request(2, 1, 5)]);
    assert_eq!(store.add_car("c".to_string(), "d".to_string(), 2).unwrap().id, 3);
}

#[test]
fn store_in_other_segments_is_refused() {
    let misplaced = Error::InvalidInput { msg: "Store is not in its segments".to_string() };
    for at in [[3u8, 1, 2], [0, 3, 2], [0, 1, 3], [1, 0, 2], [0, 2, 1]] {
        let mut allocator = Allocator::new();
        let (counter, cars, rentals) = parts(&mut allocator, at);
        assert_eq!(Store::assemble(counter, cars, rentals).err(), Some(Error::InvalidInput {
            msg: "Store is not in its segments".to_string(),
        }));
    }
    assert_eq!(misplaced.message(), "Store is not in its segments");
}

#[test]
fn store_with_an_identifier_ahead_of_the_counter_is_refused() {
    let inconsistent = Error::InvalidInput { msg: "Store is inconsistent".to_string() };

    let mut allocator = Allocator::new();
    let (counter, mut cars, rentals) = parts(&mut allocator, [0, 1, 2]);
    cars.put(car(1, "a", "b", 1)).unwrap();
    assert_eq!(Store::assemble(counter, cars, rentals).err(), Some(inconsistent));

    let mut allocator = Allocator::new();
    let (mut counter, cars, mut rentals) = parts(&mut allocator, [0, 1, 2]);
    counter.increment_and_get().unwrap();
    rentals.put(request(2, 1, 5)).unwrap();
    assert_eq!(
        Store::assemble(counter, cars, rentals).err(),
        Some(Error::InvalidInput { msg: "Store is inconsistent".to_string() })
    );
}

#[test]
fn store_with_an_identifier_in_both_tables_is_refused() {
    let mut allocator = Allocator::new();
    let (mut counter, mut cars, mut rentals) = parts(&mut allocator, [0, 1, 2]);
    counter.increment_and_get().unwrap();
    counter.increment_and_get().unwrap();
    cars.put(car(2, "a", "b", 1)).unwrap();
    rentals.put(request(2, 1, 5)).unwrap();
    assert_eq!(
        Store::assemble(counter, cars, rentals).err(),
        Some(Error::InvalidInput { msg: "Store is inconsistent".to_string() })
    );
}
