//! The store: the identifier counter, the vehicles and the rental requests,
//! each in its segment, and the operations on them.

use crate::bounded_map::BoundedMap;
use crate::car::{Car, CarView};
use crate::counter::{increment_failed_text, IdCounter};
use crate::error::{not_found_text, too_large_text, Error, ErrorView};
use crate::listing::{is_listing, listing, values_of};
use crate::record::Record;
use crate::rental::{lemma_rental_size, RentalRequest, RentalStatus};
use crate::segment::{Allocator, CAR_SEGMENT, COUNTER_SEGMENT, RENTAL_SEGMENT};
use crate::table::{lookup, rows, Table};
use vstd::pervasive::unreached;
use vstd::prelude::*;

verus! {

/// Whether no identifier in use is ahead of the counter, and none is in use
/// in both tables.
pub open spec fn consistent(
    counter: u64,
    cars: Map<u64, CarView>,
    rentals: Map<u64, RentalRequest>,
) -> bool {
    &&& forall|k: u64| #[trigger] cars.contains_key(k) ==> k <= counter
    &&& forall|k: u64| #[trigger] rentals.contains_key(k) ==> k <= counter
    &&& forall|k: u64| !(#[trigger] cars.contains_key(k) && #[trigger] rentals.contains_key(k))
}

/// Whether the three structures stand in the segments that are theirs.
pub open spec fn placed(counter: u8, cars: u8, rentals: u8) -> bool {
    counter == COUNTER_SEGMENT && cars == CAR_SEGMENT && rentals == RENTAL_SEGMENT
}

/// The text of the failure to build a store from structures in other
/// segments than theirs.
pub open spec fn misplaced_text() -> Seq<char> {
    "Store is not in its segments"@
}

/// The text of the failure to build a store from a counter that is behind an
/// identifier in use, or from tables that share an identifier.
pub open spec fn inconsistent_text() -> Seq<char> {
    "Store is inconsistent"@
}

/// Whether a rental request names the vehicle `car_id`.
pub open spec fn names_car(car_id: u64) -> spec_fn(RentalRequest) -> bool {
    |q: RentalRequest| q.car_id == car_id
}

/// Whether a rental request is of the customer `customer_id`.
pub open spec fn names_customer(customer_id: u64) -> spec_fn(RentalRequest) -> bool {
    |q: RentalRequest| q.customer_id == customer_id
}

/// Whether the identifiers of `s` rise strictly.
pub open spec fn ascending(s: Seq<RentalRequest>) -> bool {
    forall|i: int, j: int| 0 <= i < j < s.len() ==> (#[trigger] s[i]).id < (#[trigger] s[j]).id
}

/// What is kept of a sequence with rising identifiers has rising identifiers.
pub proof fn lemma_filter_ascending(s: Seq<RentalRequest>, wanted: spec_fn(RentalRequest) -> bool)
    requires
        ascending(s),
    ensures
        ascending(s.filter(wanted)),
    decreases s.len(),
{
    reveal(Seq::filter);
    if s.len() > 0 {
        let front = s.drop_last();
        assert(ascending(front)) by {
            assert forall|i: int, j: int| 0 <= i < j < front.len() implies (#[trigger] front[i]).id
                < (#[trigger] front[j]).id by {
                assert(front[i] == s[i] && front[j] == s[j]);
            }
        }
        lemma_filter_ascending(front, wanted);
        let kept = front.filter(wanted);
        if wanted(s.last()) {
            let all = kept.push(s.last());
            assert forall|i: int, j: int| 0 <= i < j < all.len() implies (#[trigger] all[i]).id
                < (#[trigger] all[j]).id by {
                if j == kept.len() {
                    front.lemma_filter_contains_rev(wanted, kept[i]);
                    let k = choose|k: int| 0 <= k < front.len() && front[k] == kept[i];
                    assert(s[k].id < s[s.len() - 1].id);
                } else {
                    assert(kept[i].id < kept[j].id);
                }
            }
        }
    }
}

/// The requests of `all` that `keep` accepts, in the order of `all`.
fn scan<F: Fn(&RentalRequest) -> bool>(
    all: &Vec<RentalRequest>,
    keep: F,
    Ghost(wanted): Ghost<spec_fn(RentalRequest) -> bool>,
) -> (found: Vec<RentalRequest>)
    requires
        forall|q: RentalRequest| call_requires(keep, (&q,)),
        forall|q: RentalRequest, b: bool| call_ensures(keep, (&q,), b) ==> b == wanted(q),
    ensures
        found@ == all@.filter(wanted),
{
    let mut found: Vec<RentalRequest> = Vec::new();
    let mut i: usize = 0;
    proof {
        reveal(Seq::filter);
        assert(all@.take(0).filter(wanted) =~= Seq::<RentalRequest>::empty());
    }
    while i < all.len()
        invariant
            i <= all.len(),
            found@ == all@.take(i as int).filter(wanted),
            forall|q: RentalRequest| call_requires(keep, (&q,)),
            forall|q: RentalRequest, b: bool| call_ensures(keep, (&q,), b) ==> b == wanted(q),
        decreases all.len() - i,
    {
        proof {
            all@.take(i as int).lemma_filter_push(all@[i as int], wanted);
            assert(all@.take(i + 1) =~= all@.take(i as int).push(all@[i as int]));
        }
        if keep(&all[i]) {
            found.push(all[i]);
        }
        i = i + 1;
    }
    assert(all@.take(all.len() as int) =~= all@);
    found
}

/// The vehicles and the rental requests, with the counter that numbers
/// them.
pub struct Store {
    counter: IdCounter,
    cars: Table<Car>,
    rentals: Table<RentalRequest>,
}

impl Store {
    /// The last identifier given, or 0 where none was.
    pub closed spec fn counter(&self) -> u64 {
        self.counter.value()
    }

    /// The vehicles, each under its identifier.
    pub closed spec fn cars(&self) -> Map<u64, CarView> {
        self.cars@
    }

    /// The rental requests, each under its identifier.
    pub closed spec fn rentals(&self) -> Map<u64, RentalRequest> {
        self.rentals@
    }

    /// The rental requests in ascending order of their identifiers.
    pub open spec fn requests(&self) -> Seq<RentalRequest> {
        values_of(listing(self.rentals()))
    }

    /// The parts of the store are sound and stand in their segments.
    pub closed spec fn sound(&self) -> bool {
        &&& self.cars.wf()
        &&& self.rentals.wf()
        &&& placed(self.counter.handle(), self.cars.handle(), self.rentals.handle())
    }

    /// The store is sound: every record stands under its identifier, both
    /// tables are finite, no identifier in use is ahead of the counter, and
    /// none is in use in both tables.
    pub open spec fn wf(&self) -> bool {
        &&& self.sound()
        &&& self.cars().dom().finite()
        &&& self.rentals().dom().finite()
        &&& forall|k: u64| #[trigger] self.cars().contains_key(k) ==> self.cars()[k].id == k
        &&& forall|k: u64| #[trigger] self.rentals().contains_key(k) ==> self.rentals()[k].id == k
        &&& consistent(self.counter(), self.cars(), self.rentals())
    }

    /// The store of a counter and two tables, where they stand in their
    /// segments, no identifier in use is ahead of the counter and the tables
    /// share none; else the failure that says which of these does not hold.
    pub fn assemble(counter: IdCounter, cars: Table<Car>, rentals: Table<RentalRequest>) -> (r:
        Result<Store, Error>)
        requires
            cars.wf(),
            rentals.wf(),
        ensures
            match r {
                Ok(store) => {
                    &&& placed(counter.handle(), cars.handle(), rentals.handle())
                    &&& consistent(counter.value(), cars@, rentals@)
                    &&& store.wf()
                    &&& store.counter() == counter.value()
                    &&& store.cars() == cars@
                    &&& store.rentals() == rentals@
                },
                Err(e) => if !placed(counter.handle(), cars.handle(), rentals.handle()) {
                    e@ == (ErrorView::InvalidInput { msg: misplaced_text() })
                } else {
                    &&& !consistent(counter.value(), cars@, rentals@)
                    &&& e@ == (ErrorView::InvalidInput { msg: inconsistent_text() })
                },
            },
    {
        if counter.segment() != COUNTER_SEGMENT || cars.segment() != CAR_SEGMENT
            || rentals.segment() != RENTAL_SEGMENT {
            return Err(Error::invalid_input("Store is not in its segments"));
        }
        let last = counter.read();
        let vehicles = cars.list();
        let mut i: usize = 0;
        while i < vehicles.len()
            invariant
                i <= vehicles.len(),
                last == counter.value(),
                placed(counter.handle(), cars.handle(), rentals.handle()),
                is_listing(cars@, rows::<Car>(vehicles@)),
                forall|j: int|
                    0 <= j < i ==> (#[trigger] vehicles@[j]).id <= last && !rentals@.contains_key(
                        vehicles@[j].id,
                    ),
            decreases vehicles.len() - i,
        {
            let id = vehicles[i].id;
            assert(rows::<Car>(vehicles@)[i as int].0 == id);
            assert(cars@.contains_key(id));
            if id > last || rentals.contains(id) {
                return Err(Error::invalid_input("Store is inconsistent"));
            }
            i = i + 1;
        }
        let requests = rentals.list();
        let mut i: usize = 0;
        while i < requests.len()
            invariant
                i <= requests.len(),
                last == counter.value(),
                placed(counter.handle(), cars.handle(), rentals.handle()),
                is_listing(rentals@, rows::<RentalRequest>(requests@)),
                forall|j: int| 0 <= j < i ==> (#[trigger] requests@[j]).id <= last,
            decreases requests.len() - i,
        {
            let id = requests[i].id;
            assert(rows::<RentalRequest>(requests@)[i as int].0 == id);
            assert(rentals@.contains_key(id));
            if id > last {
                return Err(Error::invalid_input("Store is inconsistent"));
            }
            i = i + 1;
        }
        proof {
            cars.lemma_keys();
            rentals.lemma_keys();
            assert forall|k: u64| #[trigger] cars@.contains_key(k) implies k <= last
                && !rentals@.contains_key(k) by {
                let j = choose|j: int|
                    0 <= j < rows::<Car>(vehicles@).len() && rows::<Car>(vehicles@)[j].0 == k;
                assert(vehicles@[j].id == k);
            }
            assert forall|k: u64| #[trigger] rentals@.contains_key(k) implies k <= last by {
                let j = choose|j: int|
                    0 <= j < rows::<RentalRequest>(requests@).len() && rows::<RentalRequest>(
                        requests@,
                    )[j].0 == k;
                assert(requests@[j].id == k);
            }
        }
        Ok(Store { counter, cars, rentals })
    }

    /// Opens the store of the memory that `allocator` divides: the counter
    /// in segment 0, the vehicles in segment 1 and the rental requests in
    /// segment 2, each as the memory holds it, or new where it holds none.
    ///
    /// Where one of the three segments was handed out before, nothing
    /// changes and the store is not opened. Else the three segments are
    /// taken, and the store is opened unless what the memory holds cannot
    /// be read as a sound store.
    pub fn open(allocator: &mut Allocator) -> (r: Result<Store, Error>)
        requires
            old(allocator).wf(),
        ensures
            final(allocator).wf(),
            match r {
                Ok(store) => store.wf(),
                Err(e) => e@ is InvalidInput,
            },
            if old(allocator).claimed().contains(COUNTER_SEGMENT) || old(
                allocator,
            ).claimed().contains(CAR_SEGMENT) || old(allocator).claimed().contains(
                RENTAL_SEGMENT,
            ) {
                r.is_err() && final(allocator).claimed() == old(allocator).claimed()
            } else {
                final(allocator).claimed() == old(allocator).claimed().insert(
                    COUNTER_SEGMENT,
                ).insert(CAR_SEGMENT).insert(RENTAL_SEGMENT)
            },
    {
        if allocator.is_claimed(COUNTER_SEGMENT) || allocator.is_claimed(CAR_SEGMENT)
            || allocator.is_claimed(RENTAL_SEGMENT) {
            return Err(Error::invalid_input("Segment is not available"));
        }
        let counter_segment = match allocator.claim(COUNTER_SEGMENT) {
            Ok(segment) => segment,
            Err(_) => unreached(),
        };
        let car_segment = match allocator.claim(CAR_SEGMENT) {
            Ok(segment) => segment,
            Err(_) => unreached(),
        };
        let rental_segment = match allocator.claim(RENTAL_SEGMENT) {
            Ok(segment) => segment,
            Err(_) => unreached(),
        };
        let counter = match IdCounter::attach(counter_segment) {
            Ok(counter) => counter,
            Err(e) => {
                return Err(e);
            },
        };
        let cars = match Table::<Car>::over(BoundedMap::attach(car_segment)) {
            Ok(cars) => cars,
            Err(e) => {
                return Err(e);
            },
        };
        let rentals = match Table::<RentalRequest>::over(BoundedMap::attach(rental_segment)) {
            Ok(rentals) => rentals,
            Err(e) => {
                return Err(e);
            },
        };
        Store::assemble(counter, cars, rentals)
    }

    /// The last identifier given, or 0 where none was.
    pub fn last_id(&self) -> (id: u64)
        ensures
            id == self.counter(),
    {
        self.counter.read()
    }

    /// Enters a vehicle: it gets the identifier after the last one given,
    /// is available, and is stored and returned.
    ///
    /// Where the counter cannot be advanced nothing changes. Where the
    /// vehicle is too long to be stored the tables stay as they are and the
    /// identifier is spent.
    pub fn add_car(&mut self, make: String, model: String, year: u32) -> (r: Result<Car, Error>)
        requires
            old(self).wf(),
        ensures
            final(self).wf(),
            final(self).rentals() == old(self).rentals(),
            match r {
                Ok(car) => {
                    &&& old(self).counter() < u64::MAX
                    &&& final(self).counter() == old(self).counter() + 1
                    &&& car@ == (CarView {
                        id: final(self).counter(),
                        make: make@,
                        model: model@,
                        year,
                        available: true,
                    })
                    &&& Car::encoding(car@).len() <= Car::size_limit()
                    &&& !old(self).cars().contains_key(car.id)
                    &&& !old(self).rentals().contains_key(car.id)
                    &&& final(self).cars() == old(self).cars().insert(car.id, car@)
                },
                Err(e) => {
                    &&& final(self).cars() == old(self).cars()
                    &&& {
                        ||| {
                            &&& final(self).counter() == old(self).counter()
                            &&& e@ == (ErrorView::InvalidInput { msg: increment_failed_text() })
                        }
                        ||| {
                            &&& old(self).counter() < u64::MAX
                            &&& final(self).counter() == old(self).counter() + 1
                            &&& Car::encoding(
                                CarView {
                                    id: final(self).counter(),
                                    make: make@,
                                    model: model@,
                                    year,
                                    available: true,
                                },
                            ).len() > Car::size_limit()
                            &&& e@ == (ErrorView::InvalidInput {
                                msg: too_large_text(Car::kind_text(), final(self).counter()),
                            })
                        }
                    }
                },
            },
            old(self).counter() == u64::MAX ==> r.is_err(),
    {
        let draft = Car::new(0, make, model, year);
        let r = self.cars.create(&mut self.counter, draft);
        proof {
            self.cars.lemma_keys();
        }
        r
    }

    /// The vehicle with the identifier `id`.
    pub fn get_car(&self, id: u64) -> (r: Result<Car, Error>)
        requires
            self.wf(),
        ensures
            match r {
                Ok(car) => lookup::<Car>(self.cars(), id) == Ok::<CarView, ErrorView>(car@),
                Err(e) => lookup::<Car>(self.cars(), id) == Err::<CarView, ErrorView>(e@),
            },
    {
        self.cars.read(id)
    }

    /// Gives the vehicle `id` a new make, model and year; its identifier and
    /// its availability stay. It fails, and changes nothing, where there is
    /// no such vehicle or the new one is too long to be stored.
    pub fn update_car(&mut self, id: u64, make: String, model: String, year: u32) -> (r: Result<
        Car,
        Error,
    >)
        requires
            old(self).wf(),
        ensures
            final(self).wf(),
            final(self).counter() == old(self).counter(),
            final(self).rentals() == old(self).rentals(),
            match r {
                Ok(car) => {
                    &&& old(self).cars().contains_key(id)
                    &&& car@ == (CarView {
                        make: make@,
                        model: model@,
                        year,
                        ..old(self).cars()[id]
                    })
                    &&& car.id == id
                    &&& Car::encoding(car@).len() <= Car::size_limit()
                    &&& final(self).cars() == old(self).cars().insert(id, car@)
                },
                Err(e) => {
                    &&& final(self).cars() == old(self).cars()
                    &&& if old(self).cars().contains_key(id) {
                        &&& Car::encoding(
                            CarView { make: make@, model: model@, year, ..old(self).cars()[id] },
                        ).len() > Car::size_limit()
                        &&& e@ == (ErrorView::InvalidInput {
                            msg: too_large_text(Car::kind_text(), id),
                        })
                    } else {
                        e@ == (ErrorView::NotFound { msg: not_found_text(Car::kind_text(), id) })
                    }
                },
            },
    {
        let change = |car: Car| -> (revised: Car)
            ensures
                revised@ == (CarView { make: make@, model: model@, year, ..car@ }),
            { Car { id: car.id, make, model, year, available: car.available } };
        let r = self.cars.update(id, change);
        proof {
            self.cars.lemma_keys();
        }
        r
    }

    /// Takes the vehicle `id` out of the store. Rental requests that name it
    /// stay. It fails, and changes nothing, where there is no such vehicle.
    pub fn delete_car(&mut self, id: u64) -> (r: Result<(), Error>)
        requires
            old(self).wf(),
        ensures
            final(self).wf(),
            final(self).counter() == old(self).counter(),
            final(self).rentals() == old(self).rentals(),
            match r {
                Ok(_) => old(self).cars().contains_key(id) && final(self).cars() == old(
                    self,
                ).cars().remove(id),
                Err(e) => {
                    &&& !old(self).cars().contains_key(id)
                    &&& final(self).cars() == old(self).cars()
                    &&& e@ == (ErrorView::NotFound { msg: not_found_text(Car::kind_text(), id) })
                },
            },
    {
        let r = self.cars.delete(id);
        proof {
            self.cars.lemma_keys();
        }
        r
    }

    /// The vehicles in ascending order of their identifiers.
    pub fn list_cars(&self) -> (all: Vec<Car>)
        requires
            self.wf(),
        ensures
            is_listing(self.cars(), rows::<Car>(all@)),
            rows::<Car>(all@) == listing(self.cars()),
    {
        self.cars.list()
    }

    /// Enters a rental request: it gets the identifier after the last one
    /// given, and is stored and returned. The vehicle that it names need not
    /// be stored. Where the counter cannot be advanced nothing changes.
    pub fn add_rental_request(
        &mut self,
        car_id: u64,
        customer_id: u64,
        start_date: u64,
        end_date: u64,
        status: RentalStatus,
    ) -> (r: Result<RentalRequest, Error>)
        requires
            old(self).wf(),
        ensures
            final(self).wf(),
            final(self).cars() == old(self).cars(),
            match r {
                Ok(request) => {
                    &&& old(self).counter() < u64::MAX
                    &&& final(self).counter() == old(self).counter() + 1
                    &&& request == (RentalRequest {
                        id: final(self).counter(),
                        car_id,
                        customer_id,
                        start_date,
                        end_date,
                        status,
                    })
                    &&& !old(self).cars().contains_key(request.id)
                    &&& !old(self).rentals().contains_key(request.id)
                    &&& final(self).rentals() == old(self).rentals().insert(request.id, request)
                },
                Err(e) => {
                    &&& final(self).rentals() == old(self).rentals()
                    &&& final(self).counter() == old(self).counter()
                    &&& e@ == (ErrorView::InvalidInput { msg: increment_failed_text() })
                },
            },
            old(self).counter() == u64::MAX ==> r.is_err(),
    {
        let draft = RentalRequest { id: 0, car_id, customer_id, start_date, end_date, status };
        let r = self.rentals.create(&mut self.counter, draft);
        proof {
            self.rentals.lemma_keys();
            lemma_rental_size(RentalRequest { id: self.counter.value(), ..draft });
        }
        r
    }

    /// The rental request with the identifier `id`.
    pub fn get_rental_request(&self, id: u64) -> (r: Result<RentalRequest, Error>)
        requires
            self.wf(),
        ensures
            match r {
                Ok(request) => lookup::<RentalRequest>(self.rentals(), id) == Ok::<
                    RentalRequest,
                    ErrorView,
                >(request),
                Err(e) => lookup::<RentalRequest>(self.rentals(), id) == Err::<
                    RentalRequest,
                    ErrorView,
                >(e@),
            },
    {
        self.rentals.read(id)
    }

    /// Rewrites the rental request `id`: every field but its identifier is
    /// set anew. It fails, and changes nothing, where there is no such
    /// request.
    pub fn update_rental_request(
        &mut self,
        id: u64,
        car_id: u64,
        customer_id: u64,
        start_date: u64,
        end_date: u64,
        status: RentalStatus,
    ) -> (r: Result<RentalRequest, Error>)
        requires
            old(self).wf(),
        ensures
            final(self).wf(),
            final(self).counter() == old(self).counter(),
            final(self).cars() == old(self).cars(),
            match r {
                Ok(request) => {
                    &&& old(self).rentals().contains_key(id)
                    &&& request == (RentalRequest {
                        id,
                        car_id,
                        customer_id,
                        start_date,
                        end_date,
                        status,
                    })
                    &&& final(self).rentals() == old(self).rentals().insert(id, request)
                },
                Err(e) => {
                    &&& !old(self).rentals().contains_key(id)
                    &&& final(self).rentals() == old(self).rentals()
                    &&& e@ == (ErrorView::NotFound {
                        msg: not_found_text(RentalRequest::kind_text(), id),
                    })
                },
            },
    {
        let change = |request: RentalRequest| -> (revised: RentalRequest)
            ensures
                revised == (RentalRequest {
                    id: request.id,
                    car_id,
                    customer_id,
                    start_date,
                    end_date,
                    status,
                }),
            { RentalRequest { id: request.id, car_id, customer_id, start_date, end_date, status } };
        proof {
            old(self).rentals.lemma_keys();
            lemma_rental_size(RentalRequest { id, car_id, customer_id, start_date, end_date, status });
        }
        let r = self.rentals.update(id, change);
        proof {
            self.rentals.lemma_keys();
        }
        r
    }

    /// Takes the rental request `id` out of the store. It fails, and changes
    /// nothing, where there is no such request.
    pub fn delete_rental_request(&mut self, id: u64) -> (r: Result<(), Error>)
        requires
            old(self).wf(),
        ensures
            final(self).wf(),
            final(self).counter() == old(self).counter(),
            final(self).cars() == old(self).cars(),
            match r {
                Ok(_) => old(self).rentals().contains_key(id) && final(self).rentals() == old(
                    self,
                ).rentals().remove(id),
                Err(e) => {
                    &&& !old(self).rentals().contains_key(id)
                    &&& final(self).rentals() == old(self).rentals()
                    &&& e@ == (ErrorView::NotFound {
                        msg: not_found_text(RentalRequest::kind_text(), id),
                    })
                },
            },
    {
        let r = self.rentals.delete(id);
        proof {
            self.rentals.lemma_keys();
        }
        r
    }

    /// The rental requests in ascending order of their identifiers.
    pub fn list_rental_requests(&self) -> (all: Vec<RentalRequest>)
        requires
            self.wf(),
        ensures
            is_listing(self.rentals(), rows::<RentalRequest>(all@)),
            all@ == self.requests(),
            ascending(all@),
    {
        let all = self.rentals.list();
        proof {
            assert(values_of(rows::<RentalRequest>(all@)) =~= all@);
            assert forall|i: int, j: int| 0 <= i < j < all@.len() implies (#[trigger] all@[i]).id
                < (#[trigger] all@[j]).id by {
                assert(rows::<RentalRequest>(all@)[i].0 < rows::<RentalRequest>(all@)[j].0);
            }
        }
        all
    }

    /// The rental requests that name the vehicle `car_id`, in ascending
    /// order of their identifiers. The vehicle need not be stored.
    pub fn list_rental_requests_for_car(&self, car_id: u64) -> (found: Vec<RentalRequest>)
        requires
            self.wf(),
        ensures
            found@ == self.requests().filter(names_car(car_id)),
            ascending(found@),
    {
        let all = self.list_rental_requests();
        proof {
            lemma_filter_ascending(all@, names_car(car_id));
        }
        let keep = |q: &RentalRequest| -> (b: bool)
            ensures
                b == (q.car_id == car_id),
            { q.car_id == car_id };
        scan(&all, keep, Ghost(names_car(car_id)))
    }

    /// The rental requests of the customer `customer_id`, in ascending order
    /// of their identifiers.
    pub fn list_rental_requests_for_customer(&self, customer_id: u64) -> (found: Vec<
        RentalRequest,
    >)
        requires
            self.wf(),
        ensures
            found@ == self.requests().filter(names_customer(customer_id)),
            ascending(found@),
    {
        let all = self.list_rental_requests();
        proof {
            lemma_filter_ascending(all@, names_customer(customer_id));
        }
        let keep = |q: &RentalRequest| -> (b: bool)
            ensures
                b == (q.customer_id == customer_id),
            { q.customer_id == customer_id };
        scan(&all, keep, Ghost(names_customer(customer_id)))
    }
}

} // verus!
