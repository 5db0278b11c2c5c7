use vstd::prelude::*;

verus! {

/// The lifecycle of a relay: accepting items while producer handles are
/// live, draining the queue once every handle is gone, and closed once the
/// consumer loop has exited.
#[derive(Clone, Copy, Debug, PartialEq, Eq, Structural)]
pub enum RelayState {
    Open,
    Draining,
    Closed,
}

/// The sole error a relay surfaces: a submission arrived after the consumer
/// loop exited.
#[derive(Clone, Copy, Debug, PartialEq, Eq, Structural)]
pub enum RelayError {
    ChannelClosed,
}

/// What one receive step of the consumer loop observes: the next item in
/// order, an empty queue that may still grow, or a disconnected queue that
/// never will.
#[derive(Debug)]
pub enum RecvOutcome<T> {
    Received(T),
    Empty,
    Disconnected,
}

/// A capability to submit items to a relay. Handles are created only by the
/// relay itself, and giving one back (`drop_handle`) consumes it, so a
/// dropped handle cannot submit again.
#[derive(Debug)]
pub struct Handle {
    id: usize,
}

impl View for Handle {
    type V = int;

    /// The identity under which this handle's submissions are recorded.
    closed spec fn view(&self) -> int {
        self.id as int
    }
}

/// The items carried by a sequence of tagged submissions, in order.
pub open spec fn items_of<T>(entries: Seq<(int, T)>) -> Seq<T> {
    entries.map_values(|e: (int, T)| e.1)
}

/// Recognizes the submissions made through handle `h`.
pub open spec fn tagged_with<T>(h: int) -> spec_fn((int, T)) -> bool {
    |e: (int, T)| e.0 == h
}

/// The items among `entries` that were submitted through handle `h`, in
/// order.
pub open spec fn from_handle<T>(entries: Seq<(int, T)>, h: int) -> Seq<T> {
    items_of(entries.filter(tagged_with(h)))
}

/// An ordered hand-off point: any number of producer handles feed one queue,
/// and a single consumer loop takes the items out in submission order.
///
/// The ghost fields record the full history of the relay: every submission
/// (tagged with the submitting handle), the part the consumer has observed,
/// the part lost to an abnormal shutdown, and the part still queued.
pub struct Relay<T> {
    state: RelayState,
    pending: Vec<T>,
    n_handles: usize,
    next_id: usize,
    history: Ghost<Seq<(int, T)>>,
    observed: Ghost<Seq<(int, T)>>,
    discarded: Ghost<Seq<(int, T)>>,
    tags: Ghost<Seq<(int, T)>>,
}

impl<T> Relay<T> {
    /// Where the relay stands in its lifecycle.
    pub closed spec fn status(self) -> RelayState {
        self.state
    }

    /// The items submitted but not yet taken by the consumer, oldest first.
    pub closed spec fn queued(self) -> Seq<T> {
        self.pending@
    }

    /// How many producer handles are live.
    pub closed spec fn handles(self) -> int {
        self.n_handles as int
    }

    /// How many handle identities have been given out so far.
    pub closed spec fn issued(self) -> int {
        self.next_id as int
    }

    /// Every submission the relay ever accepted, in acceptance order, each
    /// tagged with the identity of the submitting handle.
    pub closed spec fn submitted(self) -> Seq<(int, T)> {
        self.history@
    }

    /// The prefix of the history that the consumer loop has observed.
    pub closed spec fn delivered(self) -> Seq<(int, T)> {
        self.observed@
    }

    /// Submissions lost because the consumer died while items were queued.
    pub closed spec fn lost(self) -> Seq<(int, T)> {
        self.discarded@
    }

    /// The queued part of the history: accepted, neither observed nor lost.
    pub closed spec fn in_flight(self) -> Seq<(int, T)> {
        self.tags@
    }

    /// The relay's invariant: the history splits into the observed, lost and
    /// queued parts in that order; the queue mirrors the queued history;
    /// items are lost only by an abnormal close; and the lifecycle state
    /// agrees with the handle count.
    pub open spec fn wf(self) -> bool {
        &&& (self.status() is Open ==> self.handles() > 0)
        &&& (self.status() is Draining ==> self.handles() == 0)
        &&& self.submitted() == self.delivered() + self.lost() + self.in_flight()
        &&& items_of(self.in_flight()) == self.queued()
        &&& (self.status() is Closed ==> self.queued().len() == 0)
        &&& (!(self.status() is Closed) ==> self.lost().len() == 0)
    }

    /// Creates a relay with an empty queue and its first producer handle.
    pub fn new() -> (r: (Relay<T>, Handle))
        ensures
            r.0.wf(),
            r.0.status() is Open,
            r.0.queued() == Seq::<T>::empty(),
            r.0.handles() == 1,
            r.0.issued() == 1,
            r.0.submitted() == Seq::<(int, T)>::empty(),
            r.0.delivered() == Seq::<(int, T)>::empty(),
            r.0.lost() == Seq::<(int, T)>::empty(),
            r.1@ == 0,
    {
        let relay = Relay {
            state: RelayState::Open,
            pending: Vec::new(),
            n_handles: 1,
            next_id: 1,
            history: Ghost(Seq::empty()),
            observed: Ghost(Seq::empty()),
            discarded: Ghost(Seq::empty()),
            tags: Ghost(Seq::empty()),
        };
        proof {
            assert(relay.submitted() =~= relay.delivered() + relay.lost() + relay.in_flight());
            assert(items_of(relay.in_flight()) =~= relay.queued());
        }
        (relay, Handle { id: 0 })
    }

    /// Enqueues `item` without blocking. Succeeds exactly as long as the
    /// consumer loop has not exited; afterwards every submission is refused
    /// with `ChannelClosed` and the relay is left untouched, so no item is
    /// ever silently dropped.
    pub fn submit(&mut self, handle: &Handle, item: T) -> (r: Result<(), RelayError>)
        requires
            old(self).wf(),
        ensures
            final(self).wf(),
            r is Ok <==> !(old(self).status() is Closed),
            !(r is Ok) ==> r == Err::<(), RelayError>(RelayError::ChannelClosed),
            final(self).queued() == (if old(self).status() is Closed {
                old(self).queued()
            } else {
                old(self).queued().push(item)
            }),
            final(self).submitted() == (if old(self).status() is Closed {
                old(self).submitted()
            } else {
                old(self).submitted().push((handle@, item))
            }),
            final(self).status() == old(self).status(),
            final(self).handles() == old(self).handles(),
            final(self).issued() == old(self).issued(),
            final(self).delivered() == old(self).delivered(),
            final(self).lost() == old(self).lost(),
    {
        match self.state {
            RelayState::Closed => Err(RelayError::ChannelClosed),
            _ => {
                let ghost entry = (handle@, item);
                self.pending.push(item);
                self.history = Ghost(self.history@.push(entry));
                self.tags = Ghost(self.tags@.push(entry));
                proof {
                    assert(self.submitted() =~= self.delivered() + self.lost()
                        + self.in_flight());
                    assert(items_of(self.in_flight()) =~= self.queued());
                }
                Ok(())
            },
        }
    }

    /// Registers one more producer handle and hands it out under a fresh
    /// identity.
    pub fn clone_handle(&mut self, handle: &Handle) -> (r: Handle)
        requires
            old(self).wf(),
            old(self).handles() >= 1,
            old(self).handles() < usize::MAX,
            old(self).issued() < usize::MAX,
        ensures
            final(self).wf(),
            r@ == old(self).issued(),
            final(self).issued() == old(self).issued() + 1,
            final(self).handles() == old(self).handles() + 1,
            final(self).status() == old(self).status(),
            final(self).queued() == old(self).queued(),
            final(self).submitted() == old(self).submitted(),
            final(self).delivered() == old(self).delivered(),
            final(self).lost() == old(self).lost(),
            final(self).in_flight() == old(self).in_flight(),
    {
        let _ = handle;
        let id = self.next_id;
        self.next_id = self.next_id + 1;
        self.n_handles = self.n_handles + 1;
        Handle { id }
    }

    /// Gives a producer handle back. Once the last handle is gone an open
    /// relay starts draining: the consumer loop will take the remaining
    /// items and then exit.
    pub fn drop_handle(&mut self, handle: Handle)
        requires
            old(self).wf(),
            old(self).handles() >= 1,
        ensures
            final(self).wf(),
            final(self).handles() == old(self).handles() - 1,
            final(self).status() == (if old(self).status() is Closed {
                RelayState::Closed
            } else if old(self).handles() == 1 {
                RelayState::Draining
            } else {
                old(self).status()
            }),
            final(self).issued() == old(self).issued(),
            final(self).queued() == old(self).queued(),
            final(self).submitted() == old(self).submitted(),
            final(self).delivered() == old(self).delivered(),
            final(self).lost() == old(self).lost(),
            final(self).in_flight() == old(self).in_flight(),
    {
        let _ = handle;
        self.n_handles = self.n_handles - 1;
        if self.n_handles == 0 {
            match self.state {
                RelayState::Open => {
                    self.state = RelayState::Draining;
                },
                _ => {},
            }
        }
    }

    /// One receive step of the consumer loop: takes the oldest queued item
    /// if there is one; reports the queue empty while producers remain; and
    /// observes disconnection — closing the relay — once the queue is empty
    /// and every handle is gone.
    pub fn recv(&mut self) -> (r: RecvOutcome<T>)
        requires
            old(self).wf(),
        ensures
            final(self).wf(),
            final(self).handles() == old(self).handles(),
            final(self).issued() == old(self).issued(),
            final(self).submitted() == old(self).submitted(),
            final(self).lost() == old(self).lost(),
            old(self).status() is Closed ==> r is Disconnected
                && final(self).status() is Closed
                && final(self).queued() == old(self).queued()
                && final(self).delivered() == old(self).delivered()
                && final(self).in_flight() == old(self).in_flight(),
            !(old(self).status() is Closed) && old(self).queued().len() > 0
                ==> r == RecvOutcome::Received(old(self).queued()[0])
                && final(self).status() == old(self).status()
                && final(self).queued() == old(self).queued().skip(1)
                && final(self).delivered() == old(self).delivered().push(
                    old(self).in_flight()[0],
                )
                && final(self).in_flight() == old(self).in_flight().skip(1),
            !(old(self).status() is Closed) && old(self).queued().len() == 0
                && old(self).handles() == 0 ==> r is Disconnected
                && final(self).status() is Closed
                && final(self).queued() == old(self).queued()
                && final(self).delivered() == old(self).delivered()
                && final(self).in_flight() == old(self).in_flight(),
            !(old(self).status() is Closed) && old(self).queued().len() == 0
                && old(self).handles() > 0 ==> r is Empty
                && final(self).status() == old(self).status()
                && final(self).queued() == old(self).queued()
                && final(self).delivered() == old(self).delivered()
                && final(self).in_flight() == old(self).in_flight(),
    {
        match self.state {
            RelayState::Closed => RecvOutcome::Disconnected,
            _ => {
                if self.pending.len() > 0 {
                    let item = self.pending.remove(0);
                    self.observed = Ghost(self.observed@.push(self.tags@[0]));
                    self.tags = Ghost(self.tags@.skip(1));
                    proof {
                        assert(items_of(old(self).in_flight())[0]
                            == old(self).in_flight()[0].1);
                        assert(items_of(self.in_flight()) =~= self.queued());
                        assert(self.submitted() =~= self.delivered() + self.lost()
                            + self.in_flight());
                        assert(self.queued() =~= old(self).queued().skip(1));
                    }
                    RecvOutcome::Received(item)
                } else if self.n_handles == 0 {
                    self.state = RelayState::Closed;
                    RecvOutcome::Disconnected
                } else {
                    RecvOutcome::Empty
                }
            },
        }
    }

    /// Records that the consumer loop died while processing: the relay
    /// closes abnormally and whatever was still queued is lost. Later
    /// submissions fail with `ChannelClosed`.
    pub fn poison(&mut self)
        requires
            old(self).wf(),
            !(old(self).status() is Closed),
        ensures
            final(self).wf(),
            final(self).status() is Closed,
            final(self).queued() == Seq::<T>::empty(),
            final(self).in_flight() == Seq::<(int, T)>::empty(),
            final(self).lost() == old(self).lost() + old(self).in_flight(),
            final(self).delivered() == old(self).delivered(),
            final(self).submitted() == old(self).submitted(),
            final(self).handles() == old(self).handles(),
            final(self).issued() == old(self).issued(),
    {
        self.state = RelayState::Closed;
        self.pending.clear();
        self.discarded = Ghost(self.discarded@ + self.tags@);
        self.tags = Ghost(Seq::empty());
        proof {
            assert(self.submitted() =~= self.delivered() + self.lost() + self.in_flight());
            assert(items_of(self.in_flight()) =~= self.queued());
        }
    }

    /// Runs the consumer loop to completion once every handle is gone:
    /// takes the remaining items in order, observes disconnection, and
    /// returns the items taken. The loop's termination measure is the queue
    /// length, so the task finishes within bounded time.
    pub fn drain(&mut self) -> (v: Vec<T>)
        requires
            old(self).wf(),
            old(self).handles() == 0,
        ensures
            final(self).wf(),
            final(self).status() is Closed,
            v@ == old(self).queued(),
            final(self).queued() == Seq::<T>::empty(),
            final(self).delivered() == old(self).delivered() + old(self).in_flight(),
            final(self).in_flight() == Seq::<(int, T)>::empty(),
            final(self).submitted() == old(self).submitted(),
            final(self).lost() == old(self).lost(),
            final(self).handles() == 0,
            final(self).issued() == old(self).issued(),
    {
        let mut out: Vec<T> = Vec::new();
        let mut done = false;
        proof {
            assert(out@ + self.queued() =~= old(self).queued());
            assert(self.delivered() =~= old(self).delivered() + old(self).in_flight().take(0));
            assert(self.in_flight() =~= old(self).in_flight().skip(0));
        }
        while !done
            invariant
                old(self).wf(),
                self.wf(),
                self.handles() == 0,
                self.issued() == old(self).issued(),
                self.submitted() == old(self).submitted(),
                self.lost() == old(self).lost(),
                out@.len() <= old(self).queued().len(),
                out@ + self.queued() == old(self).queued(),
                self.delivered() == old(self).delivered() + old(self).in_flight().take(
                    out@.len() as int,
                ),
                self.in_flight() == old(self).in_flight().skip(out@.len() as int),
                done ==> self.status() is Closed,
            decreases
                self.queued().len() + (if self.status() is Closed { 0int } else { 1 }) + (
                if done {
                    0int
                } else {
                    2
                }),
        {
            let ghost prev = *self;
            let ghost taken: int = out@.len() as int;
            match self.recv() {
                RecvOutcome::Received(item) => {
                    out.push(item);
                    proof {
                        assert(out@ + self.queued() =~= old(self).queued());
                        assert(prev.queued().len() > 0);
                        assert(prev.in_flight().len() == prev.queued().len());
                        assert(taken + prev.queued().len() == old(self).queued().len());
                        assert(items_of(old(self).in_flight()).len() == old(
                            self,
                        ).in_flight().len());
                        assert(old(self).in_flight().len() == old(self).queued().len());
                        assert(0 <= taken < old(self).in_flight().len());
                        assert(prev.in_flight()[0] == old(self).in_flight().skip(taken)[0]);
                        assert(prev.in_flight()[0] == old(self).in_flight()[taken]);
                        assert(old(self).in_flight().take(taken + 1) =~= old(
                            self,
                        ).in_flight().take(taken).push(prev.in_flight()[0]));
                        assert(old(self).in_flight().skip(taken).skip(1) =~= old(
                            self,
                        ).in_flight().skip(taken + 1));
                        assert(self.in_flight() =~= old(self).in_flight().skip(taken + 1));
                    }
                },
                RecvOutcome::Disconnected => {
                    done = true;
                },
                RecvOutcome::Empty => {
                    proof {
                        assert(false);
                    }
                    done = true;
                },
            }
        }
        proof {
            assert(self.queued().len() == 0);
            assert(out@ =~= old(self).queued());
            assert(old(self).in_flight().len() == old(self).queued().len());
            assert(old(self).in_flight().take(out@.len() as int) =~= old(self).in_flight());
            assert(self.in_flight() =~= Seq::<(int, T)>::empty());
            assert(self.queued() =~= Seq::<T>::empty());
        }
        out
    }

    /// Whether the consumer loop has exited, normally or not.
    pub fn is_closed(&self) -> (r: bool)
        ensures
            r == (self.status() is Closed),
    {
        match self.state {
            RelayState::Closed => true,
            _ => false,
        }
    }
}

/// Law: per-handle ordering. Whatever interleaving the producers drove the
/// relay through, the items the consumer has observed from one handle form a
/// prefix of the items submitted through that handle — the same relative
/// order, with nothing reordered or duplicated.
pub proof fn lemma_per_handle_order<T>(relay: Relay<T>, h: int)
    requires
        relay.wf(),
    ensures
        from_handle(relay.delivered(), h).is_prefix_of(from_handle(relay.submitted(), h)),
{
    let pred = tagged_with::<T>(h);
    let d = relay.delivered();
    let rest = relay.lost() + relay.in_flight();
    assert(relay.submitted() =~= d + rest);
    Seq::<(int, T)>::filter_distributes_over_add(d, rest, pred);
    assert(relay.submitted().filter(pred) == d.filter(pred) + rest.filter(pred));
    let df = d.filter(pred);
    let rf = rest.filter(pred);
    assert(items_of(df + rf) =~= items_of(df) + items_of(rf));
    assert(from_handle(relay.submitted(), h) == items_of(df) + items_of(rf));
    assert((items_of(df) + items_of(rf)).subrange(0, items_of(df).len() as int) =~= items_of(
        df,
    ));
}

/// Law: a clean shutdown delivers everything. When the relay has closed
/// without losing items — the normal path, after the handles were dropped
/// and the queue drained — the consumer observed exactly the accepted
/// submissions: each item exactly once, in acceptance order.
pub proof fn lemma_clean_shutdown_delivers_all<T>(relay: Relay<T>)
    requires
        relay.wf(),
        relay.status() is Closed,
        relay.lost() == Seq::<(int, T)>::empty(),
    ensures
        relay.delivered() == relay.submitted(),
{
    assert(items_of(relay.in_flight()).len() == relay.in_flight().len());
    assert(relay.in_flight() =~= Seq::<(int, T)>::empty());
    assert(relay.delivered() =~= relay.submitted());
}

} // verus!
