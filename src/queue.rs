//! The multi-producer queues that carry samples and events between threads.
use vstd::prelude::*;
use crossbeam::queue::SegQueue;

verus! {

#[verifier::external_type_specification]
#[verifier::external_body]
#[verifier::reject_recursive_types(T)]
pub struct ExSegQueue<T>(SegQueue<T>);

/// Relies on crossbeam's SegQueue::len: the number of queued items at some
/// moment. Other threads push and pop meanwhile, so nothing is promised.
pub assume_specification<T>[ SegQueue::<T>::len ](q: &SegQueue<T>) -> usize;

/// Relies on crossbeam's SegQueue::pop: the head item, if any. Other threads
/// push and pop meanwhile, so nothing is promised.
pub assume_specification<T>[ SegQueue::<T>::pop ](q: &SegQueue<T>) -> Option<T>;

/// Takes out the items that were queued when the call began, oldest first
/// (fewer where another consumer took some first). Items pushed during the
/// call stay for the next drain, so the call always returns.
pub fn drain_queue<T>(queue: &SegQueue<T>) -> (r: Vec<T>) {
    let n = queue.len();
    let mut out: Vec<T> = Vec::new();
    let mut i: usize = 0;
    while i < n
        invariant
            i <= n,
        decreases n - i,
    {
        match queue.pop() {
            Some(item) => out.push(item),
            None => {
                return out;
            },
        }
        i = i + 1;
    }
    out
}

} // verus!
