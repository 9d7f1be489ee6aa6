//! Optioned types of references, of the nullable wrapper, of results and of the
//! single-value wrappers for which no conversion is given.

use crate::convert::Optionable;
use std::cell::RefCell;
use std::rc::Rc;
use std::sync::{Arc, Mutex};
use vstd::prelude::*;

verus! {

/// A reference is made partial by making its target partial; the kind of borrow
/// and its lifetime stay.
impl<'a, T: Optionable> Optionable for &'a T {
    type Optioned = &'a T::Optioned;
}

/// Collapsing rule: a nullable value adds no layer. The optioned type of
/// `Option<T>` is that of `T`, so that wrapping it into `Option` again expresses
/// absence once.
impl<T: Optionable> Optionable for Option<T> {
    type Optioned = T::Optioned;
}

/// Only the success arm of a result is made partial; the error arm stays.
impl<T: Optionable, E> Optionable for Result<T, E> {
    type Optioned = Result<T::Optioned, E>;
}

impl<T: Optionable> Optionable for Rc<T> {
    type Optioned = Rc<T::Optioned>;
}

impl<T: Optionable> Optionable for Arc<T> {
    type Optioned = Arc<T::Optioned>;
}

/// `std::cell::RefCell`, of which nothing is stated: a value of it is only named
/// in the type of another.
#[verifier::external_type_specification]
#[verifier::external_body]
#[verifier::reject_recursive_types(T)]
pub struct ExRefCell<T: ?Sized>(RefCell<T>);

/// `std::sync::Mutex`, of which nothing is stated: a value of it is only named in
/// the type of another.
#[verifier::external_type_specification]
#[verifier::external_body]
#[verifier::reject_recursive_types(T)]
pub struct ExMutex<T: ?Sized>(Mutex<T>);

impl<T: Optionable> Optionable for RefCell<T> {
    type Optioned = RefCell<T::Optioned>;
}

impl<T: Optionable> Optionable for Mutex<T> {
    type Optioned = Mutex<T::Optioned>;
}

} // verus!
