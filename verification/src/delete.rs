//! Deferred deletion: a resource that is still in use by frames in flight is
//! queued with the number of the frame in which its deletion was asked for,
//! and handed back for deletion once `DELETION_FRAME_DELAY` frames have begun
//! since.
use vstd::prelude::*;
use std::collections::VecDeque;

verus! {

/// How many frames must begin after a deletion request before the resource
/// is deleted.
pub const DELETION_FRAME_DELAY: usize = 2;

/// The requests of `queue` that are due in frame `current`, in queue order.
pub open spec fn due_requests<R>(queue: Seq<(R, usize)>, current: int) -> Seq<R>
    decreases queue.len(),
{
    if queue.len() == 0 {
        Seq::empty()
    } else {
        let rest = due_requests(queue.drop_last(), current);
        if current - queue.last().1 >= DELETION_FRAME_DELAY {
            rest.push(queue.last().0)
        } else {
            rest
        }
    }
}

/// The packets of `queue` that are not yet due in frame `current`, in queue order.
pub open spec fn waiting_packets<R>(queue: Seq<(R, usize)>, current: int) -> Seq<(R, usize)>
    decreases queue.len(),
{
    if queue.len() == 0 {
        Seq::empty()
    } else {
        let rest = waiting_packets(queue.drop_last(), current);
        if current - queue.last().1 >= DELETION_FRAME_DELAY {
            rest
        } else {
            rest.push(queue.last())
        }
    }
}

/// Deletion requests waiting for the frames that may still use their
/// resources to finish.
pub struct Deleter<R> {
    frame_number: usize,
    queue: VecDeque<(R, usize)>,
}

impl<R> Deleter<R> {
    /// The number of the current frame.
    pub closed spec fn frame(&self) -> nat {
        self.frame_number as nat
    }

    /// The waiting requests, each with the frame it was made in, oldest first.
    pub closed spec fn pending(&self) -> Seq<(R, usize)> {
        self.queue@
    }

    /// No request is from a frame after the current one.
    pub open spec fn wf(&self) -> bool {
        forall|i: int| 0 <= i < self.pending().len() ==> #[trigger] self.pending()[i].1 <= self.frame()
    }

    /// No requests, at frame 0.
    pub fn new() -> (d: Self)
        ensures
            d.wf(),
            d.frame() == 0,
            d.pending() == Seq::<(R, usize)>::empty(),
    {
        Deleter { frame_number: 0, queue: VecDeque::new() }
    }

    /// Queues `request`, stamped with the current frame.
    pub fn request_delete(&mut self, request: R)
        requires
            old(self).wf(),
        ensures
            final(self).wf(),
            final(self).frame() == old(self).frame(),
            final(self).pending() == old(self).pending().push((request, old(self).frame() as usize)),
    {
        let frame_number = self.frame_number;
        let ghost before = self.queue@;
        self.queue.push_back((request, frame_number));
        assert forall|i: int| 0 <= i < self.pending().len() implies #[trigger] self.pending()[i].1 <= self.frame() by {
            if i < before.len() {
                assert(self.pending()[i] == before[i]);
                assert(old(self).pending()[i] == before[i]);
            }
        }
    }

    /// The number of the current frame.
    pub fn frame_number(&self) -> (f: usize)
        ensures
            f == self.frame(),
    {
        self.frame_number
    }

    /// Whether no request waits.
    pub fn is_empty(&self) -> (e: bool)
        ensures
            e == (self.pending().len() == 0),
    {
        self.queue.len() == 0
    }

    /// Begins the next frame and hands back, oldest first, the requests made
    /// `DELETION_FRAME_DELAY` or more frames before it; the others keep
    /// waiting, in their order.
    pub fn new_frame(&mut self) -> (due: Vec<R>)
        requires
            old(self).wf(),
            old(self).frame() < usize::MAX,
        ensures
            final(self).wf(),
            final(self).frame() == old(self).frame() + 1,
            due@ == due_requests(old(self).pending(), final(self).frame() as int),
            final(self).pending() == waiting_packets(old(self).pending(), final(self).frame() as int),
    {
        let current_frame = self.frame_number + 1;
        self.frame_number = current_frame;
        let ghost all = self.queue@;
        assert forall|i: int| 0 <= i < all.len() implies #[trigger] all[i].1 < current_frame by {
            assert(old(self).pending()[i] == all[i]);
        }
        let mut due: Vec<R> = Vec::new();
        let mut waiting: VecDeque<(R, usize)> = VecDeque::new();
        let ghost mut taken: int = 0;
        while self.queue.len() > 0
            invariant
                self.frame_number == current_frame,
                0 <= taken <= all.len(),
                self.queue@ == all.skip(taken),
                forall|i: int| 0 <= i < all.len() ==> #[trigger] all[i].1 < current_frame,
                due@ == due_requests(all.take(taken), current_frame as int),
                waiting@ == waiting_packets(all.take(taken), current_frame as int),
                forall|i: int| 0 <= i < waiting@.len() ==> #[trigger] waiting@[i].1 <= current_frame,
            decreases self.queue@.len(),
        {
            let ghost before = self.queue@;
            let packet = self.queue.pop_front();
            match packet {
                Some(packet) => {
                    proof {
                        assert(packet == all[taken]);
                        assert(all.take(taken + 1).drop_last() == all.take(taken));
                        assert(all.take(taken + 1).last() == all[taken]);
                        assert(self.queue@ == all.skip(taken + 1));
                    }
                    let (request, frame) = packet;
                    if current_frame - frame >= DELETION_FRAME_DELAY {
                        due.push(request);
                    } else {
                        let ghost w = waiting@;
                        waiting.push_back((request, frame));
                        proof {
                            assert forall|i: int| 0 <= i < waiting@.len() implies #[trigger] waiting@[i].1
                                <= current_frame by {
                                if i < w.len() {
                                    assert(waiting@[i] == w[i]);
                                }
                            }
                        }
                    }
                    proof {
                        taken = taken + 1;
                    }
                },
                None => {
                    proof {
                        assert(false);
                    }
                },
            }
        }
        proof {
            assert(all.take(all.len() as int) == all);
        }
        self.queue = waiting;
        due
    }

    /// Hands back every waiting request, oldest first, whatever its frame.
    pub fn exit(&mut self) -> (all: Vec<R>)
        ensures
            final(self).frame() == old(self).frame(),
            final(self).pending() == Seq::<(R, usize)>::empty(),
            all@ == old(self).pending().map_values(|p: (R, usize)| p.0),
    {
        let ghost queued = self.queue@;
        let ghost frame = self.frame_number;
        let mut all: Vec<R> = Vec::new();
        let ghost mut taken: int = 0;
        while self.queue.len() > 0
            invariant
                0 <= taken <= queued.len(),
                self.frame_number == frame,
                self.queue@ == queued.skip(taken),
                all@ == queued.take(taken).map_values(|p: (R, usize)| p.0),
            decreases self.queue@.len(),
        {
            match self.queue.pop_front() {
                Some(packet) => {
                    proof {
                        assert(packet == queued[taken]);
                        assert(self.queue@ == queued.skip(taken + 1));
                    }
                    all.push(packet.0);
                    proof {
                        assert(all@ =~= queued.take(taken + 1).map_values(|p: (R, usize)| p.0));
                    }
                    proof {
                        taken = taken + 1;
                    }
                },
                None => {
                    proof {
                        assert(false);
                    }
                },
            }
        }
        proof {
            assert(queued.take(queued.len() as int) == queued);
        }
        all
    }
}

/// A request made in frame `f` is kept through the frame after and handed
/// back when frame `f + DELETION_FRAME_DELAY` begins.
pub proof fn law_deleted_after_delay<R>(request: R, f: usize)
    ensures
        due_requests(seq![(request, f)], f + 1) == Seq::<R>::empty(),
        waiting_packets(seq![(request, f)], f + 1) == seq![(request, f)],
        due_requests(seq![(request, f)], f + DELETION_FRAME_DELAY) == seq![request],
        waiting_packets(seq![(request, f)], f + DELETION_FRAME_DELAY) == Seq::<(R, usize)>::empty(),
{
    let q = seq![(request, f)];
    reveal_with_fuel(due_requests, 2);
    reveal_with_fuel(waiting_packets, 2);
    assert(q.drop_last() =~= Seq::<(R, usize)>::empty());
    assert(q.last() == (request, f));
    assert(Seq::<R>::empty().push(request) =~= seq![request]);
    assert(Seq::<(R, usize)>::empty().push((request, f)) =~= q);
}

} // verus!
