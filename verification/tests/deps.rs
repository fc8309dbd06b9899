use sayiir::deps::{Deps, DepsBuilder, MissingDep};
use std::any::Any;
use std::sync::Arc;

#[derive(Clone, Debug, PartialEq, Eq)]
struct ServiceA(u32);

#[derive(Clone, Debug, PartialEq, Eq)]
struct ServiceB(&'static str);

const A: &str = "deps::ServiceA";
const B: &str = "deps::ServiceB";
const ARC_A: &str = "alloc::sync::Arc<deps::ServiceA>";

type Slot = Box<dyn Any>;

fn builder() -> DepsBuilder<Slot> {
    Deps::builder()
}

fn get<T: Clone + 'static>(deps: &Deps<Slot>, name: &str) -> Option<T> {
    deps.get(name).and_then(|d| d.downcast_ref::<T>()).cloned()
}

#[test]
fn insert_and_get_concrete() {
    let deps = builder().insert(A, Box::new(ServiceA(7))).build();
    assert_eq!(get::<ServiceA>(&deps, A), Some(ServiceA(7)));
}

#[test]
fn insert_arc_keeps_arc_key() {
    let deps = builder().insert(ARC_A, Box::new(Arc::new(ServiceA(7)))).build();
    assert!(deps.contains(ARC_A));
    assert!(!deps.contains(A));
    let resolved = deps.expect(ARC_A).downcast_ref::<Arc<ServiceA>>().unwrap().clone();
    assert_eq!(*resolved, ServiceA(7));
}

#[test]
fn multiple_types_coexist() {
    let deps = builder()
        .insert(A, Box::new(ServiceA(1)))
        .insert(B, Box::new(ServiceB("hi")))
        .build();
    assert_eq!(deps.len(), 2);
    assert_eq!(get::<ServiceA>(&deps, A), Some(ServiceA(1)));
    assert_eq!(get::<ServiceB>(&deps, B), Some(ServiceB("hi")));
}

#[test]
fn missing_type_returns_none() {
    let deps: Deps<Slot> = Deps::new();
    assert!(deps.get(A).is_none());
}

#[test]
fn try_get_reports_type_name() {
    let deps: Deps<Slot> = Deps::new();
    match deps.try_get(A) {
        Ok(_) => panic!("expected a missing dependency"),
        Err(err) => assert!(err.dep_type.contains("ServiceA")),
    }
}

#[test]
fn last_insert_wins_for_same_type() {
    let deps = builder()
        .insert(A, Box::new(ServiceA(1)))
        .insert(A, Box::new(ServiceA(2)))
        .build();
    assert_eq!(get::<ServiceA>(&deps, A), Some(ServiceA(2)));
}

#[test]
fn expect_returns_value() {
    let deps = builder().insert(A, Box::new(ServiceA(42))).build();
    let value = deps.expect(A).downcast_ref::<ServiceA>().unwrap().clone();
    assert_eq!(value, ServiceA(42));
}

#[test]
fn missing_dep_display() {
    let m = MissingDep::of(A);
    let rendered = m.to_string();
    assert!(rendered.contains("ServiceA"));
    assert!(rendered.contains("missing dependency"));
}

#[test]
fn empty_and_len() {
    let mut deps: Deps<Slot> = Deps::new();
    assert!(deps.is_empty());
    deps = builder().insert(A, Box::new(ServiceA(0))).build();
    assert!(!deps.is_empty());
    assert_eq!(deps.len(), 1);
}

#[test]
fn merge_non_overlapping() {
    let mut base = builder().insert(A, Box::new(ServiceA(1))).build();
    let extra = builder().insert(B, Box::new(ServiceB("x"))).build();
    base.merge(extra);

    assert_eq!(base.len(), 2);
    assert_eq!(get::<ServiceA>(&base, A), Some(ServiceA(1)));
    assert_eq!(get::<ServiceB>(&base, B), Some(ServiceB("x")));
}

#[test]
fn merge_overlap_other_wins() {
    let mut base = builder().insert(A, Box::new(ServiceA(1))).build();
    let extra = builder().insert(A, Box::new(ServiceA(99))).build();
    base.merge(extra);

    assert_eq!(base.len(), 1);
    assert_eq!(get::<ServiceA>(&base, A), Some(ServiceA(99)));
}

#[test]
fn merge_empty_into_populated() {
    let mut base = builder().insert(A, Box::new(ServiceA(1))).build();
    base.merge(Deps::new());
    assert_eq!(base.len(), 1);
    assert_eq!(get::<ServiceA>(&base, A), Some(ServiceA(1)));
}

#[test]
fn merge_populated_into_empty() {
    let mut base: Deps<Slot> = Deps::new();
    let extra = builder().insert(A, Box::new(ServiceA(7))).build();
    base.merge(extra);
    assert_eq!(base.len(), 1);
    assert_eq!(get::<ServiceA>(&base, A), Some(ServiceA(7)));
}

#[test]
fn builder_merge_layers_containers() {
    let library = builder().insert(A, Box::new(ServiceA(1))).build();
    let combined = builder().insert(B, Box::new(ServiceB("local"))).merge(library).build();

    assert_eq!(combined.len(), 2);
    assert_eq!(get::<ServiceA>(&combined, A), Some(ServiceA(1)));
    assert_eq!(get::<ServiceB>(&combined, B), Some(ServiceB("local")));
}

#[test]
fn builder_merge_other_wins_on_overlap() {
    let library = builder().insert(A, Box::new(ServiceA(2))).build();
    let combined = builder().insert(A, Box::new(ServiceA(1))).merge(library).build();

    assert_eq!(get::<ServiceA>(&combined, A), Some(ServiceA(2)));
}
