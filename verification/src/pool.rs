//! The fixed pool of workers.
//!
//! Threads are spawned and watched by the embedding program; the pool
//! keeps their handles and decides which workers to spawn.

use crate::text::{decimal_digits, push_decimal};
use vstd::prelude::*;

verus! {

/// Something that works off the items of a queue, one at a time.
pub trait Runner<T> {
    fn run(&mut self, v: T);
}

/// Something that makes the runner of a new worker.
pub trait WorkGen<T> {
    type Worker: Runner<T>;

    fn gen(&self) -> Self::Worker;
}

/// A pool of `workers` workers; `handles` holds the handle of each worker
/// that was spawned, the handle of worker `i` at index `i`.
pub struct ProxyThreadPool<H> {
    pub workers: u16,
    pub handles: Vec<H>,
}

/// The name of the thread of worker `id`.
pub open spec fn spec_worker_name(id: u16) -> Seq<char> {
    "PxyWorker"@ + decimal_digits(id as nat)
}

/// The name of the thread of worker `id`: `PxyWorker` and the number.
pub fn worker_name(id: u16) -> (name: String)
    ensures
        name@ == spec_worker_name(id),
{
    let mut name = "PxyWorker".to_owned();
    push_decimal(&mut name, id);
    name
}

/// The indices at which `finished` holds `true`, in rising order.
pub open spec fn finished_ids(finished: Seq<bool>) -> Seq<usize>
    decreases finished.len(),
{
    if finished.len() == 0 {
        Seq::empty()
    } else if finished.last() {
        finished_ids(finished.drop_last()).push((finished.len() - 1) as usize)
    } else {
        finished_ids(finished.drop_last())
    }
}

impl<H> ProxyThreadPool<H> {
    /// A pool of `workers` workers, none of them spawned yet.
    pub fn new(workers: u16) -> (p: ProxyThreadPool<H>)
        ensures
            p.workers == workers,
            p.handles@.len() == 0,
    {
        ProxyThreadPool { workers, handles: Vec::new() }
    }

    /// The worker to spawn next while the pool is set up: the number of
    /// the first worker without a handle, none once every worker has one.
    pub fn init(&self) -> (next: Option<u16>)
        ensures
            match next {
                Some(id) => id == self.handles@.len() && id < self.workers,
                None => self.handles@.len() >= self.workers,
            },
    {
        if self.handles.len() < self.workers as usize {
            Some(self.handles.len() as u16)
        } else {
            None
        }
    }

    /// Takes the handle of the worker that [`Self::init`] named.
    pub fn spawned(&mut self, handle: H)
        ensures
            final(self).workers == old(self).workers,
            final(self).handles@ == old(self).handles@.push(handle),
    {
        self.handles.push(handle);
    }

    /// The workers to spawn anew: `finished` says of each handle whether
    /// its worker has finished, and the result lists the finished workers
    /// by number, in rising order.
    pub fn revive(&self, finished: &Vec<bool>) -> (ids: Vec<usize>)
        ensures
            ids@ == finished_ids(finished@),
            forall|k: int|
                0 <= k < ids@.len() ==> (#[trigger] ids@[k]) < finished@.len() && finished@[ids@[k] as int],
    {
        let mut ids: Vec<usize> = Vec::new();
        let mut pos: usize = 0;
        while pos < finished.len()
            invariant
                pos <= finished@.len(),
                ids@ == finished_ids(finished@.subrange(0, pos as int)),
                forall|k: int|
                    0 <= k < ids@.len() ==> (#[trigger] ids@[k]) < pos && finished@[ids@[k] as int],
            decreases finished@.len() - pos,
        {
            proof {
                let next = finished@.subrange(0, pos as int + 1);
                assert(next.drop_last() =~= finished@.subrange(0, pos as int));
                assert(next.last() == finished@[pos as int]);
            }
            if finished[pos] {
                ids.push(pos);
            }
            pos += 1;
        }
        assert(finished@.subrange(0, pos as int) =~= finished@);
        ids
    }

    /// Puts the handle of the worker that was spawned anew in the place of
    /// worker `id`, and hands back the handle that was there. A number that
    /// names no worker changes nothing and hands `handle` back.
    pub fn revived(&mut self, id: usize, handle: H) -> (old_handle: H)
        ensures
            final(self).workers == old(self).workers,
            id < old(self).handles@.len() ==> final(self).handles@ == old(self).handles@.update(
                id as int,
                handle,
            ) && old_handle == old(self).handles@[id as int],
            id >= old(self).handles@.len() ==> final(self).handles@ == old(self).handles@
                && old_handle == handle,
    {
        if id >= self.handles.len() {
            return handle;
        }
        self.handles.push(handle);
        let old_handle = self.handles.swap_remove(id);
        assert(self.handles@ =~= old(self).handles@.update(id as int, handle));
        old_handle
    }
}

} // verus!
