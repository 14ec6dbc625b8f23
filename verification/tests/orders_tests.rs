use todo_app::orders::{CounterStore, Order, OrderStore, Service};

#[test]
fn empty_order_has_nothing() {
    let o = Order::new();
    assert_eq!(o.id, 0);
    assert_eq!(o.agency_name, "");
    assert_eq!(o.buyer_name, "");
    assert!(o.services.is_empty());
}

#[test]
fn stores_start_empty() {
    let s = OrderStore::new();
    assert_eq!(s.order.id, 0);
    assert!(s.order.services.is_empty());
    assert_eq!(CounterStore::new().counter, 0);
    let svc = Service::new();
    assert_eq!(svc.id, 0);
    assert_eq!(svc.name, "");
}
