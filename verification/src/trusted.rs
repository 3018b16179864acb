//! What this crate believes of the standard library without proof.
//!
//! The channel and the lock are opaque here: no contract says what a channel
//! holds or who owns a lock, since both change under the hands of other
//! threads.

use std::sync::mpsc::{SendError, Sender};
use std::sync::{Arc, Mutex, MutexGuard};
use vstd::prelude::*;
use vstd::string::StringSliceAdditionalSpecFns;
use vstd::utf8::valid_utf8;

verus! {

/// The error of `core::str::from_utf8`; nothing is read from it.
#[verifier::external_type_specification]
#[verifier::external_body]
pub struct ExUtf8Error(core::str::Utf8Error);

/// The sending half of a channel of `std::sync::mpsc`.
#[verifier::external_type_specification]
#[verifier::external_body]
#[verifier::reject_recursive_types(T)]
pub struct ExSender<T>(Sender<T>);

/// The error of `Sender::send`, which hands the value back.
#[verifier::external_type_specification]
#[verifier::external_body]
#[verifier::reject_recursive_types(T)]
pub struct ExSendError<T>(SendError<T>);

/// The lock of `std::sync`.
#[verifier::external_type_specification]
#[verifier::external_body]
#[verifier::reject_recursive_types(T)]
pub struct ExMutex<T: ?Sized>(Mutex<T>);

/// The scoped access that a `Mutex` grants; dropping it releases the lock.
#[verifier::external_type_specification]
#[verifier::external_body]
#[verifier::reject_recursive_types(T)]
pub struct ExMutexGuard<'a, T: ?Sized + 'a>(MutexGuard<'a, T>);

/// `core::str::from_utf8` accepts exactly the byte sequences that are
/// well-formed UTF-8, which is what `valid_utf8` of vstd says, and the string
/// slice that it returns is made of the bytes it was given.
pub assume_specification[ core::str::from_utf8 ](v: &[u8]) -> (res: Result<
    &str,
    core::str::Utf8Error,
>)
    ensures
        res is Ok <==> valid_utf8(v@),
        res matches Ok(s) ==> s.spec_bytes() == v@,
;

/// `String::push` appends the character to the end of the string.
pub assume_specification[ String::push ](s: &mut String, ch: char)
    ensures
        final(s)@ == old(s)@.push(ch),
;

/// `Sender::send` hands the value to the channel. Whether it reached a
/// receiver depends on the other end, so nothing is said of the result.
pub assume_specification<T>[ Sender::<T>::send ](sender: &Sender<T>, t: T) -> (res: Result<
    (),
    SendError<T>,
>)
;

/// `Clone::clone` of a `Sender` gives another sending half of the same
/// channel. Nothing is said of it.
pub assume_specification<T>[ <Sender<T> as Clone>::clone ](sender: &Sender<T>) -> (res: Sender<T>)
;

/// `Mutex::new` makes an unlocked lock around the value. Nothing is said of
/// it.
pub assume_specification<T>[ Mutex::<T>::new ](t: T) -> (res: Mutex<T>)
;

/// `Mutex::lock`, with the guard taken out of the error where an earlier
/// holder panicked: a poisoned lock is entered like any other. The call
/// waits until no other thread holds the lock; a thread that holds the guard
/// of this lock already must not call it.
#[verifier::external_body]
pub(crate) fn lock_through_poison<'a, T>(lock: &'a Mutex<T>) -> (guard: MutexGuard<'a, T>) {
    match lock.lock() {
        Ok(guard) => guard,
        Err(poisoned) => poisoned.into_inner(),
    }
}

/// `Clone::clone` of an `Arc`: the result points to the lock that the
/// argument points to.
#[verifier::external_body]
pub(crate) fn share_lock<T>(lock: &Arc<Mutex<T>>) -> (res: Arc<Mutex<T>>)
    ensures
        res == *lock,
{
    lock.clone()
}

} // verus!
