use vstd::prelude::*;

verus! {

/// A service that an order asks for.
#[derive(Clone, Debug)]
pub struct Service {
    pub id: u64,
    pub name: String,
}

/// An order placed by a buyer with an agency.
#[derive(Clone, Debug)]
pub struct Order {
    pub id: u64,
    pub agency_name: String,
    pub buyer_name: String,
    pub services: Vec<Service>,
}

/// The order that the client keeps between page loads.
#[derive(Clone, Debug)]
pub struct OrderStore {
    pub order: Order,
}

/// The counter that the client keeps between page loads.
#[derive(Clone, Copy, Debug)]
pub struct CounterStore {
    pub counter: i32,
}

impl Service {
    /// The empty service: id 0 and no name.
    pub fn new() -> (s: Service)
        ensures
            s.id == 0,
            s.name@ == Seq::<char>::empty(),
    {
        Service { id: 0, name: String::new() }
    }
}

impl Order {
    /// The empty order: id 0, no names and no services.
    pub fn new() -> (o: Order)
        ensures
            o.id == 0,
            o.agency_name@ == Seq::<char>::empty(),
            o.buyer_name@ == Seq::<char>::empty(),
            o.services@ == Seq::<Service>::empty(),
    {
        Order { id: 0, agency_name: String::new(), buyer_name: String::new(), services: Vec::new() }
    }
}

impl OrderStore {
    /// A store that holds the empty order.
    pub fn new() -> (s: OrderStore)
        ensures
            s.order.id == 0,
            s.order.agency_name@ == Seq::<char>::empty(),
            s.order.buyer_name@ == Seq::<char>::empty(),
            s.order.services@ == Seq::<Service>::empty(),
    {
        OrderStore { order: Order::new() }
    }
}

impl CounterStore {
    /// A store whose counter is 0.
    pub fn new() -> (s: CounterStore)
        ensures
            s.counter == 0,
    {
        CounterStore { counter: 0 }
    }
}

} // verus!
