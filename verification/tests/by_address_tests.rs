use std::rc::Rc;

use rusty_lib::by_address;
use rusty_lib::by_address::get_address_as_string;

#[test]
fn check_by_address() {
    let ref_counted = Rc::new([1, 2, 3]);
    let ref_counted1 = by_address::ByAddress(ref_counted.clone());
    let ref_counted2 = by_address::ByAddress(ref_counted.clone());
    let ref_counted3 = by_address::ByAddress(Rc::new([1, 2, 3]));
    println!("ref_counted1: {:#x}, ref_counted2: {:#x}", ref_counted1.addr(), ref_counted2.addr());
    assert_eq!(ref_counted1.addr(), ref_counted2.addr());
    println!("ref_counted1: {:#x}, ref_counted3: {:#x}", ref_counted1.addr(), ref_counted3.addr());
    assert_ne!(ref_counted1.addr(), ref_counted3.addr());
}

#[test]
fn address_as_string() {
    let ref_counted = Rc::new(5);
    let address = get_address_as_string(&ref_counted);
    assert_eq!(address, format!("{ref_counted:p}"));
}
