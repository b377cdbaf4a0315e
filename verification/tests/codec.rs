use car_rental::car::Car;
use car_rental::record::{Record, MAX_SIZE};
use car_rental::rental::{RentalRequest, RentalStatus, RENTAL_SIZE};
use car_rental::wire::{get_text, get_u32, get_u64, put_text, put_u32, put_u64};

fn car(id: u64, make: &str, model: &str, year: u32, available: bool) -> Car {
    Car { id, make: make.to_string(), model: model.to_string(), year, available }
}

fn request(id: u64, status: RentalStatus) -> RentalRequest {
    RentalRequest { id, car_id: 7, customer_id: 8, start_date: 9, end_date: 10, status }
}

#[test]
fn u32_is_written_least_significant_byte_first() {
    let mut out = vec![0xffu8];
    put_u32(&mut out, 0x0403_0201);
    assert_eq!(out, vec![0xff, 1, 2, 3, 4]);
    assert_eq!(get_u32(&out, 1), 0x0403_0201);
}

#[test]
fn u64_is_written_least_significant_byte_first() {
    let mut out = Vec::new();
    put_u64(&mut out, 0x0807_0605_0403_0201);
    assert_eq!(out, vec![1, 2, 3, 4, 5, 6, 7, 8]);
    assert_eq!(get_u64(&out, 0), 0x0807_0605_0403_0201);
}

#[test]
fn integers_round_trip_at_their_bounds() {
    for x in [0u32, 1, 255, 256, 65_535, 65_536, u32::MAX] {
        let mut out = Vec::new();
        put_u32(&mut out, x);
        assert_eq!(out.len(), 4);
        assert_eq!(get_u32(&out, 0), x);
    }
    for x in [0u64, 1, 255, 256, 4_294_967_295, 4_294_967_296, u64::MAX] {
        let mut out = Vec::new();
        put_u64(&mut out, x);
        assert_eq!(out.len(), 8);
        assert_eq!(get_u64(&out, 0), x);
    }
}

#[test]
fn text_is_its_byte_count_and_its_bytes() {
    let mut out = Vec::new();
    put_text(&mut out, "hé");
    assert_eq!(out, vec![3, 0, 0, 0, 0, 0, 0, 0, b'h', 0xc3, 0xa9]);
    assert_eq!(get_text(&out, 0), Some(("hé".to_string(), 11)));
}

#[test]
fn empty_text_is_eight_zero_bytes() {
    let mut out = Vec::new();
    put_text(&mut out, "");
    assert_eq!(out, vec![0u8; 8]);
    assert_eq!(get_text(&out, 0), Some((String::new(), 8)));
}

#[test]
fn text_is_read_where_it_stands() {
    let mut out = vec![9u8, 9];
    put_text(&mut out, "ab");
    out.push(7);
    assert_eq!(get_text(&out, 2), Some(("ab".to_string(), 12)));
}

#[test]
fn text_that_is_cut_off_is_refused() {
    let mut out = Vec::new();
    put_text(&mut out, "abc");
    out.pop();
    assert_eq!(get_text(&out, 0), None);
    assert_eq!(get_text(&out[..7], 0), None);
    assert_eq!(get_text(&out, 4), None);
    assert_eq!(get_text(&out, out.len() + 1), None);
}

#[test]
fn text_with_a_count_beyond_the_memory_is_refused() {
    let mut out = Vec::new();
    put_u64(&mut out, u64::MAX);
    out.extend_from_slice(b"abc");
    assert_eq!(get_text(&out, 0), None);
}

#[test]
fn text_that_is_not_utf8_is_refused() {
    let mut out = Vec::new();
    put_u64(&mut out, 2);
    out.extend_from_slice(&[0xc3, 0x28]);
    assert_eq!(get_text(&out, 0), None);
}

#[test]
fn car_has_the_stated_byte_form() {
    let bytes = car(0x0102, "ab", "c", 2020, true).encode();
    let mut expected = vec![2u8, 1, 0, 0, 0, 0, 0, 0];
    expected.extend_from_slice(&[0xe4, 0x07, 0, 0]);
    expected.push(1);
    expected.extend_from_slice(&[2, 0, 0, 0, 0, 0, 0, 0, b'a', b'b']);
    expected.extend_from_slice(&[1, 0, 0, 0, 0, 0, 0, 0, b'c']);
    assert_eq!(bytes, expected);
    assert_eq!(bytes.len(), 29 + 2 + 1);
}

#[test]
fn car_round_trips() {
    let cases = [
        car(1, "Toyota", "Corolla", 2020, true),
        car(0, "", "", 0, false),
        car(u64::MAX, "Škoda", "Octavia — 鈴木", u32::MAX, true),
        car(42, "", "x", 1, false),
    ];
    for c in cases {
        assert_eq!(Car::decode(&c.encode()), Some(c.clone()));
    }
}

#[test]
fn car_of_another_shape_is_refused() {
    let good = car(1, "ab", "cd", 2020, true).encode();
    assert_eq!(Car::decode(&[]), None);
    assert_eq!(Car::decode(&good[..12]), None);
    assert_eq!(Car::decode(&good[..13]), None);
    assert_eq!(Car::decode(&good[..good.len() - 1]), None);

    let mut longer = good.clone();
    longer.push(0);
    assert_eq!(Car::decode(&longer), None);

    let mut flag = good.clone();
    flag[12] = 2;
    assert_eq!(Car::decode(&flag), None);

    let mut text = good.clone();
    text[21] = 0xff;
    assert_eq!(Car::decode(&text), None);

    let mut count = good.clone();
    count[13] = 200;
    assert_eq!(Car::decode(&count), None);
}

#[test]
fn car_that_is_not_available_is_read_back_so() {
    let mut bytes = car(3, "a", "b", 1999, true).encode();
    bytes[12] = 0;
    assert_eq!(Car::decode(&bytes), Some(car(3, "a", "b", 1999, false)));
}

#[test]
fn rental_request_has_the_stated_byte_form() {
    let r = RentalRequest {
        id: 1,
        car_id: 2,
        customer_id: 3,
        start_date: 4,
        end_date: 0x0100,
        status: RentalStatus::Completed,
    };
    let mut expected = Vec::new();
    for x in [1u8, 2, 3, 4] {
        expected.extend_from_slice(&[x, 0, 0, 0, 0, 0, 0, 0]);
    }
    expected.extend_from_slice(&[0, 1, 0, 0, 0, 0, 0, 0]);
    expected.push(2);
    assert_eq!(r.encode(), expected);
    assert_eq!(r.encode().len(), RENTAL_SIZE);
}

#[test]
fn rental_request_round_trips_in_every_status() {
    let statuses = [
        RentalStatus::Pending,
        RentalStatus::Active,
        RentalStatus::Completed,
        RentalStatus::Canceled,
    ];
    for status in statuses {
        let r = request(5, status);
        assert_eq!(RentalRequest::decode(&r.encode()), Some(r));
    }
    let zero = RentalRequest {
        id: 0,
        car_id: 0,
        customer_id: 0,
        start_date: 0,
        end_date: 0,
        status: RentalStatus::Pending,
    };
    assert_eq!(RentalRequest::decode(&zero.encode()), Some(zero));
    let top = RentalRequest {
        id: u64::MAX,
        car_id: u64::MAX,
        customer_id: u64::MAX,
        start_date: u64::MAX,
        end_date: u64::MAX,
        status: RentalStatus::Canceled,
    };
    assert_eq!(RentalRequest::decode(&top.encode()), Some(top));
}

#[test]
fn status_bytes() {
    assert_eq!(RentalStatus::Pending.to_byte(), 0);
    assert_eq!(RentalStatus::Active.to_byte(), 1);
    assert_eq!(RentalStatus::Completed.to_byte(), 2);
    assert_eq!(RentalStatus::Canceled.to_byte(), 3);
    assert_eq!(RentalStatus::from_byte(0), Some(RentalStatus::Pending));
    assert_eq!(RentalStatus::from_byte(1), Some(RentalStatus::Active));
    assert_eq!(RentalStatus::from_byte(2), Some(RentalStatus::Completed));
    assert_eq!(RentalStatus::from_byte(3), Some(RentalStatus::Canceled));
    assert_eq!(RentalStatus::from_byte(4), None);
    assert_eq!(RentalStatus::from_byte(255), None);
}

#[test]
fn rental_request_of_another_shape_is_refused() {
    let good = request(1, RentalStatus::Active).encode();
    assert_eq!(RentalRequest::decode(&[]), None);
    assert_eq!(RentalRequest::decode(&good[..40]), None);
    let mut longer = good.clone();
    longer.push(0);
    assert_eq!(RentalRequest::decode(&longer), None);
    let mut status = good.clone();
    status[40] = 4;
    assert_eq!(RentalRequest::decode(&status), None);
}

#[test]
fn identifiers_are_read_and_replaced() {
    let c = car(3, "a", "b", 1, true);
    assert_eq!(c.id(), 3);
    assert_eq!(c.duplicate(), c);
    assert_eq!(c.with_id(9), car(9, "a", "b", 1, true));
    let r = request(4, RentalStatus::Active);
    assert_eq!(r.id(), 4);
    assert_eq!(r.duplicate(), r);
    assert_eq!(r.with_id(11), request(11, RentalStatus::Active));
}

#[test]
fn kinds_and_sizes() {
    assert_eq!(MAX_SIZE, 1024);
    assert_eq!(Car::kind(), "Car");
    assert_eq!(RentalRequest::kind(), "Rental request");
    assert_eq!(Car::max_size(), 1024);
    assert_eq!(RentalRequest::max_size(), 1024);
    assert!(!Car::is_fixed_size());
    assert!(!RentalRequest::is_fixed_size());
}

#[test]
fn new_car_is_available() {
    assert_eq!(
        Car::new(6, "Fiat".to_string(), "Panda".to_string(), 1980),
        car(6, "Fiat", "Panda", 1980, true)
    );
}
