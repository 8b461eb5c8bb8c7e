//! The entities of the simulation and the pool that ticks them.

use crate::entity::car::{lemma_step_stays_steerable, Car, CarState, Marker, CAR_RADIUS};
use vstd::prelude::*;

pub mod car;

verus! {

/// A pool of `N` cars. Cars are neither added nor removed: a tick only moves
/// and turns them.
pub struct EntityManager<const N: usize> {
    pub car_pool: [Car; N],
}

impl<const N: usize> View for EntityManager<N> {
    type V = Seq<CarState>;

    open spec fn view(&self) -> Seq<CarState> {
        Seq::new(N as nat, |i: int| self.car_pool[i]@)
    }
}

/// Every car of the pool one tick later, each stepped on its own.
pub open spec fn ticked(cars: Seq<CarState>) -> Seq<CarState> {
    Seq::new(cars.len(), |i: int| cars[i].step())
}

/// Every car of the pool can take its next step without leaving the plane of
/// representable points.
pub open spec fn tickable(cars: Seq<CarState>) -> bool {
    forall|i: int| 0 <= i < cars.len() ==> (#[trigger] cars[i]).step().pos.representable()
}

/// Every car of the pool is steerable.
pub open spec fn all_steerable(cars: Seq<CarState>) -> bool {
    forall|i: int| 0 <= i < cars.len() ==> (#[trigger] cars[i]).steerable()
}

/// A tick keeps the pool's size, and what it makes of one car depends on that
/// car alone: pools that agree on a car agree on it after the tick, whatever
/// their other cars are.
pub proof fn lemma_ticked_car_by_car(a: Seq<CarState>, b: Seq<CarState>, i: int, j: int)
    requires
        0 <= i < a.len(),
        0 <= j < b.len(),
        a[i] == b[j],
    ensures
        ticked(a).len() == a.len(),
        ticked(a)[i] == a[i].step(),
        ticked(a)[i] == ticked(b)[j],
{
}

/// A pool of steerable cars can be ticked, and is a pool of steerable cars
/// after the tick: it can be ticked for ever.
pub proof fn lemma_steerable_pool_stays_steerable(cars: Seq<CarState>)
    requires
        all_steerable(cars),
    ensures
        tickable(cars),
        all_steerable(ticked(cars)),
{
    assert forall|i: int| 0 <= i < cars.len() implies (#[trigger] cars[i]).step().pos.representable()
        && cars[i].step().steerable() by {
        lemma_step_stays_steerable(cars[i]);
    }
    assert forall|i: int| 0 <= i < ticked(cars).len() implies (#[trigger] ticked(
        cars,
    )[i]).steerable() by {
        assert(cars[i].step().steerable());
    }
}

impl<const N: usize> EntityManager<N> {
    /// Whether every car of the pool is steerable.
    pub fn steerable(&self) -> (r: bool)
        ensures
            r == all_steerable(self@),
    {
        let mut i: usize = 0;
        while i < N
            invariant
                i <= N,
                forall|j: int| 0 <= j < i ==> (#[trigger] self@[j]).steerable(),
            decreases N - i,
        {
            if !self.car_pool[i].steerable() {
                assert(!self@[i as int].steerable());
                return false;
            }
            i += 1;
        }
        true
    }

    /// One tick: steers every car of the pool, in pool order.
    pub fn update_cars(&mut self)
        requires
            tickable(old(self)@),
        ensures
            final(self)@ == ticked(old(self)@),
    {
        let mut i: usize = 0;
        while i < N
            invariant
                i <= N,
                tickable(old(self)@),
                forall|j: int| 0 <= j < i ==> self.car_pool[j]@ == old(self).car_pool[j]@.step(),
                forall|j: int| i <= j < N ==> self.car_pool[j] == old(self).car_pool[j],
            decreases N - i,
        {
            assert(old(self)@[i as int] == old(self).car_pool[i as int]@);
            self.car_pool[i].update();
            i += 1;
        }
        assert(self@ =~= ticked(old(self)@));
    }

    /// The discs to paint for the cars, in pool order.
    pub fn draw_cars(&self) -> (markers: Vec<Marker>)
        ensures
            markers.len() == N,
            forall|i: int|
                0 <= i < N ==> markers[i] == (Marker {
                    center: self.car_pool[i].pos,
                    radius: CAR_RADIUS,
                }),
    {
        let mut markers: Vec<Marker> = Vec::new();
        let mut i: usize = 0;
        while i < N
            invariant
                i <= N,
                markers.len() == i,
                forall|j: int|
                    0 <= j < i ==> markers[j] == (Marker {
                        center: self.car_pool[j].pos,
                        radius: CAR_RADIUS,
                    }),
            decreases N - i,
        {
            markers.push(self.car_pool[i].draw());
            i += 1;
        }
        markers
    }
}

} // verus!
