use crimp::hosts::{compute, ping, Counter};
use crimp::ids::{ModuleID, ModuleInstanceID};
use crimp::names::{decimal, module_name_from_ids, namespaced};

#[test]
fn decimal_formats_without_leading_zeros() {
    assert_eq!(decimal(0), "0");
    assert_eq!(decimal(7), "7");
    assert_eq!(decimal(1234), "1234");
    assert_eq!(decimal(u32::MAX), "4294967295");
}

#[test]
fn module_names_come_from_ids() {
    assert_eq!(module_name_from_ids(ModuleID(3), ModuleInstanceID(12)), "module3_instance12");
    assert_eq!(module_name_from_ids(ModuleID(0), ModuleInstanceID(0)), "module0_instance0");
}

#[test]
fn namespaced_joins_with_colon() {
    assert_eq!(namespaced("module0_instance1", "run"), "module0_instance1:run");
    assert_eq!(namespaced("", ""), ":");
}

#[test]
fn compute_sums_and_multiplies() {
    let a: [u32; 17] = [1, 2, 3, 4, 5, 6, 7, 8, 9, 10, 11, 12, 13, 14, 15, 16, 17];
    assert_eq!(compute(&a), (153, 24));
}

#[test]
fn compute_product_wraps() {
    let mut a = [0u32; 17];
    a[0] = 0x8000_0001;
    a[1] = 2;
    a[2] = 1;
    a[3] = 1;
    assert_eq!(compute(&a), (0x8000_0005, 2));
}

#[test]
fn counter_counts_from_zero() {
    let mut c = Counter::new();
    assert_eq!(c.count, 0);
    c.increment();
    c.increment();
    assert_eq!(c.count, 2);
    assert_eq!(ping(42), 42);
}

#[test]
fn module_names_of_distinct_instances_differ() {
    let a = module_name_from_ids(ModuleID(1), ModuleInstanceID(23));
    let b = module_name_from_ids(ModuleID(12), ModuleInstanceID(3));
    let c = module_name_from_ids(ModuleID(1), ModuleInstanceID(2));
    assert_eq!(a, "module1_instance23");
    assert_eq!(b, "module12_instance3");
    assert_ne!(a, b);
    assert_ne!(a, c);
    assert_ne!(b, c);
}

#[test]
fn namespaced_stub_names_differ_across_instances() {
    let a = namespaced(module_name_from_ids(ModuleID(0), ModuleInstanceID(1)).as_str(), "2:f");
    let b = namespaced(module_name_from_ids(ModuleID(0), ModuleInstanceID(12)).as_str(), ":f");
    assert_eq!(a, "module0_instance1:2:f");
    assert_eq!(b, "module0_instance12::f");
    assert_ne!(a, b);
}
