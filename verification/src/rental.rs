//! Rental requests and their byte form.
//!
//! A rental request is written as five eight-byte numbers (its identifier,
//! the vehicle, the customer, the first and the last day) and one byte for
//! its status: 41 bytes in all.

use crate::record::{Record, MAX_SIZE};
use crate::wire::{get_u64, lemma_u64_round_trip, put_u64, u64_bytes, u64_value};
use vstd::prelude::*;

verus! {

/// How far a rental request has come.
#[derive(Debug, Clone, Copy, PartialEq, Eq, Structural)]
pub enum RentalStatus {
    Pending,
    Active,
    Completed,
    Canceled,
}

/// A customer's request to rent a vehicle. `car_id` is not checked against
/// the vehicles: it may name one that is not, or is no longer, stored.
#[derive(Debug, Clone, Copy, PartialEq, Eq, Structural)]
pub struct RentalRequest {
    pub id: u64,
    pub car_id: u64,
    pub customer_id: u64,
    pub start_date: u64,
    pub end_date: u64,
    pub status: RentalStatus,
}

impl View for RentalRequest {
    type V = RentalRequest;

    open spec fn view(&self) -> RentalRequest {
        *self
    }
}

/// The length of the byte form of a rental request.
pub const RENTAL_SIZE: usize = 41;

/// The byte that stands for a status.
pub open spec fn status_byte(s: RentalStatus) -> u8 {
    match s {
        RentalStatus::Pending => 0,
        RentalStatus::Active => 1,
        RentalStatus::Completed => 2,
        RentalStatus::Canceled => 3,
    }
}

/// The status that a byte stands for, if it stands for one.
pub open spec fn status_of(b: u8) -> Option<RentalStatus> {
    if b == 0 {
        Some(RentalStatus::Pending)
    } else if b == 1 {
        Some(RentalStatus::Active)
    } else if b == 2 {
        Some(RentalStatus::Completed)
    } else if b == 3 {
        Some(RentalStatus::Canceled)
    } else {
        None
    }
}

/// The byte form of a rental request.
pub open spec fn rental_encoding(v: RentalRequest) -> Seq<u8> {
    u64_bytes(v.id) + u64_bytes(v.car_id) + u64_bytes(v.customer_id) + u64_bytes(v.start_date)
        + u64_bytes(v.end_date) + seq![status_byte(v.status)]
}

/// The rental request that the bytes are the form of: `None` unless they are
/// 41 bytes of which the last stands for a status.
pub open spec fn rental_decoding(b: Seq<u8>) -> Option<RentalRequest> {
    if b.len() != RENTAL_SIZE {
        None
    } else {
        match status_of(b[40]) {
            None => None,
            Some(status) => Some(
                RentalRequest {
                    id: u64_value(b.subrange(0, 8)),
                    car_id: u64_value(b.subrange(8, 16)),
                    customer_id: u64_value(b.subrange(16, 24)),
                    start_date: u64_value(b.subrange(24, 32)),
                    end_date: u64_value(b.subrange(32, 40)),
                    status,
                },
            ),
        }
    }
}

/// Reading the byte form of a rental request gives the request back,
/// whatever its numbers and its status.
pub proof fn lemma_rental_round_trip(v: RentalRequest)
    ensures
        rental_decoding(rental_encoding(v)) == Some(v),
{
    let b = rental_encoding(v);
    lemma_u64_round_trip(v.id);
    lemma_u64_round_trip(v.car_id);
    lemma_u64_round_trip(v.customer_id);
    lemma_u64_round_trip(v.start_date);
    lemma_u64_round_trip(v.end_date);
    assert(b.subrange(0, 8) =~= u64_bytes(v.id));
    assert(b.subrange(8, 16) =~= u64_bytes(v.car_id));
    assert(b.subrange(16, 24) =~= u64_bytes(v.customer_id));
    assert(b.subrange(24, 32) =~= u64_bytes(v.start_date));
    assert(b.subrange(32, 40) =~= u64_bytes(v.end_date));
}

/// The byte form of a rental request is 41 bytes long.
pub proof fn lemma_rental_size(v: RentalRequest)
    ensures
        rental_encoding(v).len() == RENTAL_SIZE,
{
}

impl RentalStatus {
    /// The byte that stands for this status.
    pub fn to_byte(self) -> (b: u8)
        ensures
            b == status_byte(self),
    {
        match self {
            RentalStatus::Pending => 0,
            RentalStatus::Active => 1,
            RentalStatus::Completed => 2,
            RentalStatus::Canceled => 3,
        }
    }

    /// The status that `b` stands for, if it stands for one.
    pub fn from_byte(b: u8) -> (s: Option<RentalStatus>)
        ensures
            s == status_of(b),
    {
        if b == 0 {
            Some(RentalStatus::Pending)
        } else if b == 1 {
            Some(RentalStatus::Active)
        } else if b == 2 {
            Some(RentalStatus::Completed)
        } else if b == 3 {
            Some(RentalStatus::Canceled)
        } else {
            None
        }
    }
}

impl Record for RentalRequest {
    open spec fn kind_text() -> Seq<char> {
        "Rental request"@
    }

    open spec fn id_of(v: RentalRequest) -> u64 {
        v.id
    }

    open spec fn stamped(v: RentalRequest, id: u64) -> RentalRequest {
        RentalRequest { id, ..v }
    }

    open spec fn writable(v: RentalRequest) -> bool {
        true
    }

    open spec fn encoding(v: RentalRequest) -> Seq<u8> {
        rental_encoding(v)
    }

    open spec fn decoding(bytes: Seq<u8>) -> Option<RentalRequest> {
        rental_decoding(bytes)
    }

    open spec fn size_limit() -> nat {
        MAX_SIZE as nat
    }

    open spec fn fixed_size() -> bool {
        false
    }

    proof fn lemma_round_trip(v: RentalRequest) {
        lemma_rental_round_trip(v);
    }

    proof fn lemma_stamped(v: RentalRequest, id: u64) {
    }

    proof fn lemma_size(v: RentalRequest) {
    }

    fn kind() -> (k: &'static str) {
        "Rental request"
    }

    fn max_size() -> (n: usize) {
        MAX_SIZE
    }

    fn is_fixed_size() -> (b: bool) {
        false
    }

    fn id(&self) -> (id: u64) {
        self.id
    }

    fn with_id(self, id: u64) -> (r: RentalRequest) {
        RentalRequest {
            id,
            car_id: self.car_id,
            customer_id: self.customer_id,
            start_date: self.start_date,
            end_date: self.end_date,
            status: self.status,
        }
    }

    fn duplicate(&self) -> (r: RentalRequest) {
        *self
    }

    fn encode(&self) -> (bytes: Vec<u8>) {
        let mut bytes: Vec<u8> = Vec::new();
        put_u64(&mut bytes, self.id);
        put_u64(&mut bytes, self.car_id);
        put_u64(&mut bytes, self.customer_id);
        put_u64(&mut bytes, self.start_date);
        put_u64(&mut bytes, self.end_date);
        bytes.push(self.status.to_byte());
        assert(bytes@ =~= rental_encoding(self@));
        bytes
    }

    fn decode(bytes: &[u8]) -> (r: Option<RentalRequest>) {
        if bytes.len() != RENTAL_SIZE {
            return None;
        }
        match RentalStatus::from_byte(bytes[40]) {
            None => None,
            Some(status) => Some(
                RentalRequest {
                    id: get_u64(bytes, 0),
                    car_id: get_u64(bytes, 8),
                    customer_id: get_u64(bytes, 16),
                    start_date: get_u64(bytes, 24),
                    end_date: get_u64(bytes, 32),
                    status,
                },
            ),
        }
    }
}

} // verus!
