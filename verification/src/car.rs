//! Vehicles and their byte form.
//!
//! A vehicle is written as its identifier (eight bytes), its year (four), one
//! byte that is 1 where the vehicle is available and 0 where it is not, and
//! its make and its model as texts.

use crate::record::{Record, MAX_SIZE};
use crate::wire::{
    get_text, get_u32, get_u64, lemma_text_round_trip, lemma_u32_round_trip,
    lemma_u64_round_trip, put_text, put_u32, put_u64, text_at, text_bytes, text_fits, u32_bytes,
    u32_value, u64_bytes, u64_value,
};
use vstd::prelude::*;
use vstd::utf8::encode_utf8;

verus! {

/// A vehicle that can be rented.
#[derive(Debug, PartialEq, Eq)]
pub struct Car {
    pub id: u64,
    pub make: String,
    pub model: String,
    pub year: u32,
    pub available: bool,
}

/// A [`Car`] with its texts as sequences of characters.
pub struct CarView {
    pub id: u64,
    pub make: Seq<char>,
    pub model: Seq<char>,
    pub year: u32,
    pub available: bool,
}

impl View for Car {
    type V = CarView;

    open spec fn view(&self) -> CarView {
        CarView {
            id: self.id,
            make: self.make@,
            model: self.model@,
            year: self.year,
            available: self.available,
        }
    }
}

impl Clone for Car {
    fn clone(&self) -> (r: Car)
        ensures
            r@ == self@,
    {
        Car {
            id: self.id,
            make: self.make.clone(),
            model: self.model.clone(),
            year: self.year,
            available: self.available,
        }
    }
}

/// The byte form of a vehicle.
pub open spec fn car_encoding(v: CarView) -> Seq<u8> {
    u64_bytes(v.id) + u32_bytes(v.year) + seq![if v.available { 1u8 } else { 0u8 }] + text_bytes(
        v.make,
    ) + text_bytes(v.model)
}

/// The vehicle that the bytes are the form of: `None` where they are too
/// short, the availability byte is neither 0 nor 1, a text is cut off or is
/// not UTF-8, or bytes are left over.
pub open spec fn car_decoding(b: Seq<u8>) -> Option<CarView> {
    if b.len() < 13 || b[12] > 1 {
        None
    } else {
        match text_at(b, 13) {
            None => None,
            Some((make, at)) => match text_at(b, at) {
                None => None,
                Some((model, end)) => if end == b.len() {
                    Some(
                        CarView {
                            id: u64_value(b.subrange(0, 8)),
                            make,
                            model,
                            year: u32_value(b.subrange(8, 12)),
                            available: b[12] == 1,
                        },
                    )
                } else {
                    None
                },
            },
        }
    }
}

/// Reading the byte form of a vehicle gives the vehicle back, whatever its
/// texts, its year and its availability, as long as the byte count of each
/// text can be written.
pub proof fn lemma_car_round_trip(v: CarView)
    requires
        text_fits(v.make),
        text_fits(v.model),
    ensures
        car_decoding(car_encoding(v)) == Some(v),
{
    let head = u64_bytes(v.id) + u32_bytes(v.year) + seq![if v.available { 1u8 } else { 0u8 }];
    let b = car_encoding(v);
    lemma_u64_round_trip(v.id);
    lemma_u32_round_trip(v.year);
    lemma_text_round_trip(head, v.make, text_bytes(v.model));
    lemma_text_round_trip(head + text_bytes(v.make), v.model, Seq::empty());
    assert(b =~= head + text_bytes(v.make) + text_bytes(v.model));
    assert(b =~= head + text_bytes(v.make) + text_bytes(v.model) + Seq::<u8>::empty());
    assert(b.subrange(0, 8) =~= u64_bytes(v.id));
    assert(b.subrange(8, 12) =~= u32_bytes(v.year));
    assert(car_decoding(b).unwrap() =~= v);
}

/// The byte form of a vehicle is 29 bytes and the UTF-8 bytes of its texts.
pub proof fn lemma_car_size(v: CarView)
    ensures
        car_encoding(v).len() == 29 + encode_utf8(v.make).len() + encode_utf8(v.model).len(),
{
}

impl Car {
    /// A vehicle as it is first entered: available, and with the identifier
    /// that the store gave it.
    pub fn new(id: u64, make: String, model: String, year: u32) -> (car: Car)
        ensures
            car@ == (CarView { id, make: make@, model: model@, year, available: true }),
    {
        Car { id, make, model, year, available: true }
    }
}

impl Record for Car {
    open spec fn kind_text() -> Seq<char> {
        "Car"@
    }

    open spec fn id_of(v: CarView) -> u64 {
        v.id
    }

    open spec fn stamped(v: CarView, id: u64) -> CarView {
        CarView { id, ..v }
    }

    open spec fn writable(v: CarView) -> bool {
        text_fits(v.make) && text_fits(v.model)
    }

    open spec fn encoding(v: CarView) -> Seq<u8> {
        car_encoding(v)
    }

    open spec fn decoding(bytes: Seq<u8>) -> Option<CarView> {
        car_decoding(bytes)
    }

    open spec fn size_limit() -> nat {
        MAX_SIZE as nat
    }

    open spec fn fixed_size() -> bool {
        false
    }

    proof fn lemma_round_trip(v: CarView) {
        lemma_car_round_trip(v);
    }

    proof fn lemma_stamped(v: CarView, id: u64) {
    }

    proof fn lemma_size(v: CarView) {
    }

    fn kind() -> (k: &'static str) {
        "Car"
    }

    fn max_size() -> (n: usize) {
        MAX_SIZE
    }

    fn is_fixed_size() -> (b: bool) {
        false
    }

    fn id(&self) -> (id: u64) {
        self.id
    }

    fn with_id(self, id: u64) -> (r: Car) {
        Car { id, make: self.make, model: self.model, year: self.year, available: self.available }
    }

    fn duplicate(&self) -> (r: Car) {
        self.clone()
    }

    fn encode(&self) -> (bytes: Vec<u8>) {
        let mut bytes: Vec<u8> = Vec::new();
        put_u64(&mut bytes, self.id);
        put_u32(&mut bytes, self.year);
        bytes.push(if self.available { 1u8 } else { 0u8 });
        put_text(&mut bytes, self.make.as_str());
        put_text(&mut bytes, self.model.as_str());
        assert(bytes@ =~= car_encoding(self@));
        bytes
    }

    fn decode(bytes: &[u8]) -> (r: Option<Car>) {
        if bytes.len() < 13 {
            return None;
        }
        let id = get_u64(bytes, 0);
        let year = get_u32(bytes, 8);
        let flag = bytes[12];
        if flag > 1 {
            return None;
        }
        match get_text(bytes, 13) {
            None => None,
            Some((make, at)) => match get_text(bytes, at) {
                None => None,
                Some((model, end)) => if end == bytes.len() {
                    Some(Car { id, make, model, year, available: flag == 1 })
                } else {
                    None
                },
            },
        }
    }
}

} // verus!
