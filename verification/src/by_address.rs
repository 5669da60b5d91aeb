//! Wrapper type for by-address comparison of pointer-like values.

use vstd::prelude::*;
use std::ops::Deref;

verus! {

/// Wrapper for pointer types whose identity is the address they point to.
pub struct ByAddress<T: ?Sized + Deref>(pub T);

impl<T: ?Sized + Deref> ByAddress<T> {
    /// Relies on `std::ptr::from_ref`: the address of the pointed-to value,
    /// as an integer. What address a value lives at depends on the
    /// allocator, so nothing is promised of it.
    #[verifier::external_body]
    pub fn addr(&self) -> usize {
        std::ptr::from_ref::<T::Target>(&*self.0).cast::<()>() as usize
    }
}

/// Relies on `Rc::as_ref` and pointer formatting: the address of the value
/// behind the `Rc`, rendered as `0x`-prefixed hexadecimal. The address
/// depends on the allocator, so nothing is promised of the text.
#[verifier::external_body]
pub fn get_address_as_string<T>(ptr: &std::rc::Rc<T>) -> String {
    let raw_addr = std::ptr::from_ref::<T>(ptr.as_ref()) as usize;
    format!("{raw_addr:#x}")
}

} // verus!
