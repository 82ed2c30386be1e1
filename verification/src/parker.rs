//! Which thread to wake.
use vstd::prelude::*;

verus! {

/// Remembers the thread that a vCPU puts to sleep, so that it can be woken up.
///
/// `T` is a handle to a thread.
#[derive(Debug)]
pub struct Parker<T> {
    thread: Option<T>,
}

impl<T> View for Parker<T> {
    type V = Option<T>;

    /// The registered thread.
    closed spec fn view(&self) -> Option<T> {
        self.thread
    }
}

impl<T> Parker<T> {
    /// No thread is registered.
    pub fn new() -> (parker: Self)
        ensures
            parker@ == None::<T>,
    {
        Parker { thread: None }
    }

    /// Registers the current thread, in place of any other.
    pub fn register(&mut self, current: T)
        ensures
            final(self)@ == Some(current),
    {
        self.thread = Some(current);
    }

    /// Leaves no thread registered.
    pub fn unregister(&mut self)
        ensures
            final(self)@ == None::<T>,
    {
        self.thread = None;
    }

    /// The thread that is to be woken up, if there is one.
    pub fn unpark(&self) -> (thread: Option<&T>)
        ensures
            thread == (match self@ {
                Some(thread) => Some(&thread),
                None => None,
            }),
    {
        self.thread.as_ref()
    }
}

/// Before a thread is registered, none is woken up.
pub proof fn lemma_new_parker_wakes_no_thread<T>(parker: &Parker<T>, woken: Option<&T>)
    requires
        call_ensures(Parker::<T>::new, (), *parker),
        call_ensures(Parker::<T>::unpark, (parker,), woken),
    ensures
        woken is None,
{
}

/// The thread that is woken up is the one that was registered last, whatever was registered
/// before.
pub proof fn lemma_registered_thread_is_woken<T>(
    parker: &mut Parker<T>,
    current: T,
    after: &Parker<T>,
    woken: Option<&T>,
)
    requires
        call_ensures(Parker::<T>::register, (parker, current), ()),
        *after == *final(parker),
        call_ensures(Parker::<T>::unpark, (after,), woken),
    ensures
        woken == Some(&current),
{
}

/// After a thread has been unregistered, none is woken up.
pub proof fn lemma_unregistered_thread_is_not_woken<T>(
    parker: &mut Parker<T>,
    after: &Parker<T>,
    woken: Option<&T>,
)
    requires
        call_ensures(Parker::<T>::unregister, (parker,), ()),
        *after == *final(parker),
        call_ensures(Parker::<T>::unpark, (after,), woken),
    ensures
        woken is None,
{
}

} // verus!
