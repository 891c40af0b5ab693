//! A cell that one thread writes and another waits on, and the controller
//! of a recording that is built on it.
//!
//! The cell is shared between threads, so nothing is known of what it
//! holds once a call has returned: none of these functions promises
//! anything of a value.

use std::sync::{Arc, Condvar, Mutex, MutexGuard};
use vstd::prelude::*;
use vstd::std_specs::cmp::PartialEqSpec;

verus! {

/// `std::sync::Mutex`, of which nothing is known here.
#[verifier::external_type_specification]
#[verifier::external_body]
#[verifier::reject_recursive_types(T)]
pub struct ExMutex<T: ?Sized>(Mutex<T>);

/// `std::sync::Condvar`, of which nothing is known here.
#[verifier::external_type_specification]
#[verifier::external_body]
pub struct ExCondvar(Condvar);

/// `std::sync::MutexGuard`, of which nothing is known here.
#[verifier::external_type_specification]
#[verifier::external_body]
#[verifier::reject_recursive_types(T)]
pub struct ExMutexGuard<'a, T: ?Sized + 'a>(MutexGuard<'a, T>);

/// A new mutex around a value (`Mutex::new`).
#[verifier::external_body]
fn new_mutex<T>(value: T) -> Mutex<T> {
    Mutex::new(value)
}

/// A new condition variable (`Condvar::new`).
#[verifier::external_body]
fn new_condvar() -> Condvar {
    Condvar::new()
}

/// Waits for the mutex and takes it (`Mutex::lock`). A mutex that a
/// panicking thread left behind is taken all the same.
#[verifier::external_body]
fn lock<'a, T>(mutex: &'a Mutex<T>) -> MutexGuard<'a, T> {
    mutex.lock().unwrap_or_else(|e| e.into_inner())
}

/// Writes the value that the guard gives access to.
#[verifier::external_body]
fn write<'a, T>(guard: &mut MutexGuard<'a, T>, value: T) {
    **guard = value;
}

/// Wakes one thread that waits on the condition variable (`Condvar::notify_one`).
#[verifier::external_body]
fn notify_one(cvar: &Condvar) {
    cvar.notify_one();
}

/// Whether two values differ, by the type's own `!=`: where that follows
/// the type's equality, the answer is that the two are not equal.
fn differs<T: PartialEq>(a: &T, b: &T) -> (r: bool)
    ensures
        T::obeys_eq_spec() ==> r == !a.eq_spec(b),
{
    *a != *b
}

/// Gives up the mutex and sleeps until the value behind it equals
/// `value` (`Condvar::wait_while`); returns with the mutex taken again.
/// The call returns only once the two are equal, if ever.
#[verifier::external_body]
fn wait_while_differs<'a, T: PartialEq>(
    cvar: &Condvar,
    guard: MutexGuard<'a, T>,
    value: &T,
) -> MutexGuard<'a, T> {
    cvar.wait_while(guard, |state| differs(state, value)).unwrap_or_else(|e| e.into_inner())
}

/// What a notifier shares between its clones.
#[verifier::reject_recursive_types(T)]
pub struct Shared<T> {
    lock: Mutex<T>,
    cvar: Condvar,
}

/// A value behind a mutex, with a condition variable to wait for a
/// change of it. Its clones share the value.
#[verifier::reject_recursive_types(T)]
pub struct Notifier<T> {
    shared: Arc<Shared<T>>,
    made_with: Ghost<T>,
}

impl<T> Notifier<T> {
    /// The value that the notifier was made with. What it holds later is
    /// whatever was written last, by whichever thread.
    pub closed spec fn initial_value(self) -> T {
        self.made_with@
    }
}

impl<T> Clone for Notifier<T> {
    fn clone(&self) -> Self {
        Notifier { shared: self.shared.clone(), made_with: self.made_with }
    }
}

impl<T: PartialEq> Notifier<T> {
    /// Writes `value` and wakes one thread that waits.
    pub fn notify(&self, value: T) {
        let mut state = lock(&self.shared.lock);
        write(&mut state, value);
        notify_one(&self.shared.cvar);
    }

    /// Sleeps until the value equals `value`.
    pub fn wait_until(&self, value: &T) {
        let state = lock(&self.shared.lock);
        let _state = wait_while_differs(&self.shared.cvar, state, value);
    }
}

impl<T: Default> Notifier<T> {
    /// A notifier that holds the default value: the one that the type's
    /// `default` gives.
    pub fn new() -> (n: Self)
        ensures
            call_ensures(T::default, (), n.initial_value()),
    {
        let value = T::default();
        let made_with = Ghost(value);
        Notifier {
            shared: Arc::new(Shared { lock: new_mutex(value), cvar: new_condvar() }),
            made_with,
        }
    }
}

/// Where a recording stands between the controller and the capture thread.
#[derive(Debug, Clone, Copy, PartialEq, Eq, Structural)]
pub enum RecordState {
    Stopped,
    Started,
    Recording,
}

impl Default for RecordState {
    fn default() -> (s: Self)
        ensures
            s == RecordState::Stopped,
    {
        RecordState::Stopped
    }
}

impl RecordState {
    /// The one order in which a recording goes through its states: from
    /// stopped to started, from started to recording, from recording to
    /// stopped.
    pub open spec fn leads_to(self, next: RecordState) -> bool {
        match self {
            RecordState::Stopped => next == RecordState::Started,
            RecordState::Started => next == RecordState::Recording,
            RecordState::Recording => next == RecordState::Stopped,
        }
    }

    /// The state that follows this one.
    pub fn next(self) -> (n: Self)
        ensures
            self.leads_to(n),
            forall|other: RecordState| self.leads_to(other) ==> other == n,
    {
        match self {
            RecordState::Stopped => RecordState::Started,
            RecordState::Started => RecordState::Recording,
            RecordState::Recording => RecordState::Stopped,
        }
    }
}

/// The controller of one recording: it tells the capture thread to start
/// and to stop, and learns from it when the recording runs.
pub struct Controller {
    notifier: Notifier<RecordState>,
}

impl Clone for Controller {
    fn clone(&self) -> Self {
        Controller { notifier: self.notifier.clone() }
    }
}

impl Controller {
    /// The state that the controller was made with.
    pub closed spec fn initial_state(self) -> RecordState {
        self.notifier.initial_value()
    }

    /// A controller of a recording that has not started: its state is
    /// `Stopped` until somebody writes another.
    pub fn new() -> (c: Self)
        ensures
            c.initial_state() == RecordState::Stopped,
    {
        Controller { notifier: Notifier::new() }
    }

    pub fn start(&self) {
        self.notifier.notify(RecordState::Started);
    }

    pub fn recording(&self) {
        self.notifier.notify(RecordState::Recording);
    }

    pub fn stop(&self) {
        self.notifier.notify(RecordState::Stopped);
    }

    pub fn wait_for(&self, state: RecordState) {
        self.notifier.wait_until(&state);
    }
}

} // verus!
