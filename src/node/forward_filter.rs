use vstd::prelude::*;

use crate::error::Error;
use crate::frame::MediaFrame;
use crate::poll::{Async, AsyncSink, Poll};
use super::{MediaFilter, MediaSource};

verus! {

/// The item held in a one-item buffer, as a sequence of length zero or one.
pub open spec fn slot_seq<A>(slot: Option<A>) -> Seq<A> {
    match slot {
        Some(x) => seq![x],
        None => Seq::empty(),
    }
}

/// `emitted` repeats `accepted` item for item, up to its own length: what a
/// transformer that passes items through unchanged has done.
pub open spec fn passes_through(accepted: Seq<Option<MediaFrame>>, emitted: Seq<Option<MediaFrame>>) -> bool {
    &&& emitted.len() <= accepted.len()
    &&& emitted == accepted.take(emitted.len() as int)
}

/// What the filter-forwarding combinator has just learnt.
pub enum FilterEvent {
    /// A poll begins, with the item held from a rejected push, if any.
    Resume(Option<Option<MediaFrame>>),
    /// The producer answered a poll.
    Pulled(Async<Option<MediaFrame>>),
    /// The transformer answered a push.
    Pushed(AsyncSink<Option<MediaFrame>>),
}

/// What the filter-forwarding combinator does next.
pub enum FilterAction {
    /// Poll the producer.
    Pull,
    /// Push this item into the transformer.
    Push(Option<MediaFrame>),
    /// Keep this rejected item for the next poll, then ask the transformer for output.
    Hold(Option<MediaFrame>),
    /// Ask the transformer for output and return its outcome.
    Emit,
}

/// The decisions of one poll of the filter-forwarding combinator: a held item
/// is pushed again before anything is pulled; a pulled item or end-marker is
/// pushed; a rejected one is held; every poll ends by asking the transformer
/// for output, also when the producer had nothing.
pub fn filter_step(ev: FilterEvent) -> (a: FilterAction)
    ensures
        ev matches FilterEvent::Resume(Some(x)) ==> a == FilterAction::Push(x),
        ev matches FilterEvent::Resume(None) ==> a == FilterAction::Pull,
        ev matches FilterEvent::Pulled(Async::Ready(x)) ==> a == FilterAction::Push(x),
        ev matches FilterEvent::Pulled(Async::NotReady) ==> a == FilterAction::Emit,
        ev matches FilterEvent::Pushed(AsyncSink::Ready) ==> a == FilterAction::Emit,
        ev matches FilterEvent::Pushed(AsyncSink::NotReady(x)) ==> a == FilterAction::Hold(x),
{
    match ev {
        FilterEvent::Resume(Some(x)) => FilterAction::Push(x),
        FilterEvent::Resume(None) => FilterAction::Pull,
        FilterEvent::Pulled(Async::Ready(x)) => FilterAction::Push(x),
        FilterEvent::Pulled(Async::NotReady) => FilterAction::Emit,
        FilterEvent::Pushed(AsyncSink::Ready) => FilterAction::Emit,
        FilterEvent::Pushed(AsyncSink::NotReady(x)) => FilterAction::Hold(x),
    }
}

/// A producer made of a producer and a transformer: what the producer yields
/// is pushed into the transformer, and what the transformer emits is yielded.
pub struct ForwardFilter<T: MediaSource, U: MediaFilter> {
    source: T,
    filter: U,
    buffered: Option<Option<MediaFrame>>,
    start_accepted: Ghost<Seq<Option<MediaFrame>>>,
    start_produced: Ghost<nat>,
}

impl<T: MediaSource, U: MediaFilter> ForwardFilter<T, U> {
    pub closed spec fn source_spec(&self) -> T {
        self.source
    }

    pub closed spec fn filter_spec(&self) -> U {
        self.filter
    }

    pub closed spec fn buffered_spec(&self) -> Option<Option<MediaFrame>> {
        self.buffered
    }

    /// What the source yielded since this combinator was made.
    pub open spec fn forwarded(&self) -> Seq<Option<MediaFrame>> {
        self.source_spec().produced().subrange(
            self.start_produced() as int,
            self.source_spec().produced().len() as int,
        )
    }

    /// How much the producer had yielded before this combinator was made.
    pub closed spec fn start_produced(&self) -> nat {
        self.start_produced@
    }

    /// What the transformer accepted before this combinator was made.
    pub closed spec fn start_accepted(&self) -> Seq<Option<MediaFrame>> {
        self.start_accepted@
    }

    /// Every item taken from the source is either accepted by the transformer,
    /// in order, or is the one item held for retry.
    pub closed spec fn wf(&self) -> bool {
        &&& self.source.inv()
        &&& self.filter.inv()
        &&& self.start_produced@ <= self.source.produced().len()
        &&& self.filter.accepted() + slot_seq(self.buffered) == self.start_accepted@ + self.forwarded()
    }

    pub fn new(source: T, filter: U) -> (r: ForwardFilter<T, U>)
        requires
            source.inv(),
            filter.inv(),
        ensures
            r.wf(),
            r.inv(),
            r.source_spec() == source,
            r.filter_spec() == filter,
            r.buffered_spec() is None,
            r.start_accepted() == filter.accepted(),
            r.forwarded() == Seq::<Option<MediaFrame>>::empty(),
    {
        let ghost acc = filter.accepted();
        let ghost n = source.produced().len();
        let r = ForwardFilter {
            source: source,
            filter: filter,
            buffered: None,
            start_accepted: Ghost(acc),
            start_produced: Ghost(n),
        };
        assert(r.forwarded() =~= Seq::<Option<MediaFrame>>::empty());
        assert(r.filter.accepted() + slot_seq(r.buffered) =~= r.start_accepted@ + r.forwarded());
        r
    }

    /// The producer.
    pub fn source_ref(&self) -> (r: &T)
        ensures
            *r == self.source_spec(),
    {
        &self.source
    }

    /// The transformer.
    pub fn filter_ref(&self) -> (r: &U)
        ensures
            *r == self.filter_spec(),
    {
        &self.filter
    }

    /// An item rejected by the transformer is held for the next poll.
    pub fn is_holding(&self) -> (r: bool)
        ensures
            r == self.buffered_spec() is Some,
    {
        self.buffered.is_some()
    }

    /// Pushes `frame` into the transformer; a rejected item is kept for retry.
    fn try_start_send(&mut self, frame: Option<MediaFrame>) -> (r: Result<(), Error>)
        requires
            old(self).buffered is None,
            old(self).filter.inv(),
        ensures
            final(self).source == old(self).source,
            final(self).start_accepted == old(self).start_accepted,
            final(self).start_produced == old(self).start_produced,
            r is Ok ==> final(self).filter.inv(),
            r is Ok ==> final(self).filter.emitted() == old(self).filter.emitted(),
            r is Ok ==> final(self).filter.accepted() + slot_seq(final(self).buffered)
                == old(self).filter.accepted().push(frame),
            r is Ok ==> (final(self).buffered is None || final(self).buffered == Some(frame)),
            r is Ok && final(self).buffered is None ==> final(self).filter.accepted()
                == old(self).filter.accepted().push(frame),
            r is Ok && final(self).buffered is Some ==> final(self).filter.accepted()
                == old(self).filter.accepted(),
    {
        let pushed = match self.filter.start_send(frame) {
            Err(e) => { return Err(e); },
            Ok(s) => s,
        };
        match filter_step(FilterEvent::Pushed(pushed)) {
            FilterAction::Hold(x) => {
                self.buffered = Some(x);
                proof {
                    assert(self.filter.accepted() + slot_seq(self.buffered)
                        =~= old(self).filter.accepted().push(frame));
                }
            },
            _ => {
                proof {
                    assert(self.filter.accepted() + slot_seq(self.buffered)
                        =~= self.filter.accepted());
                }
            },
        }
        Ok(())
    }
}

impl<T: MediaSource, U: MediaFilter> ForwardFilter<T, U> {
    /// The combinator's own well-formedness, as seen through the producer trait.
    pub proof fn lemma_inv_is_wf(&self)
        ensures
            self.inv() == self.wf(),
    {
    }

    /// Through a transformer that passes items through unchanged, nothing is
    /// lost, duplicated or reordered: what the combinator has yielded repeats
    /// what its producer yielded since it was made, and is all of it once the
    /// transformer has emitted everything it took and nothing is held.
    pub proof fn lemma_identity_forwarding(&self)
        requires
            self.wf(),
            self.start_accepted().len() == 0,
            passes_through(self.filter_spec().accepted(), self.filter_spec().emitted()),
        ensures
            passes_through(self.forwarded(), self.produced()),
            self.buffered_spec() is None && self.filter_spec().emitted().len()
                == self.filter_spec().accepted().len() ==> self.produced() == self.forwarded(),
    {
        let acc = self.filter.accepted();
        let em = self.filter.emitted();
        assert(self.start_accepted@ + self.forwarded() =~= self.forwarded());
        assert(acc =~= (acc + slot_seq(self.buffered)).take(acc.len() as int));
        assert(em =~= self.forwarded().take(em.len() as int));
        if self.buffered is None && em.len() == acc.len() {
            assert(acc + slot_seq(self.buffered) =~= acc);
            assert(em =~= self.forwarded());
        }
    }

    /// At most one item is in transit: taken from the producer and not yet
    /// accepted by the transformer.
    pub proof fn lemma_single_slot(&self)
        requires
            self.wf(),
        ensures
            self.filter_spec().accepted().len() <= self.start_accepted().len() + self.forwarded().len()
                <= self.filter_spec().accepted().len() + 1,
            self.buffered_spec() is None ==> self.filter_spec().accepted() == self.start_accepted()
                + self.forwarded(),
            self.filter_spec().accepted() + slot_seq(self.buffered_spec()) == self.start_accepted()
                + self.forwarded(),
    {
        let acc = self.filter.accepted();
        assert((acc + slot_seq(self.buffered)).len() == acc.len() + slot_seq(self.buffered).len());
        assert((self.start_accepted@ + self.forwarded()).len() == self.start_accepted@.len()
            + self.forwarded().len());
        if self.buffered is None {
            assert(acc + slot_seq(self.buffered) =~= acc);
        }
    }

    /// An item held after a rejection is the very one owed to the transformer
    /// next, so a retry presents the rejected item again.
    pub proof fn lemma_retry_is_next(&self)
        requires
            self.wf(),
            self.buffered_spec() is Some,
        ensures
            (self.start_accepted() + self.forwarded())[self.filter_spec().accepted().len() as int]
                == self.buffered_spec()->Some_0,
    {
        let acc = self.filter.accepted();
        assert((acc + slot_seq(self.buffered))[acc.len() as int] == self.buffered->Some_0);
    }
}

impl<T: MediaSource, U: MediaFilter> MediaSource for ForwardFilter<T, U> {
    /// What the combinator yields is exactly what the transformer emits.
    open spec fn produced(&self) -> Seq<Option<MediaFrame>> {
        self.filter_spec().emitted()
    }

    closed spec fn inv(&self) -> bool {
        self.wf()
    }

    fn poll(&mut self) -> (r: Poll<Option<MediaFrame>, Error>)
        ensures
            old(self).buffered_spec() is Some ==> final(self).source_spec() == old(self).source_spec(),
            r is Ok ==> final(self).source_spec().produced().len() <= old(self).source_spec().produced().len()
                + 1,
            r is Ok ==> final(self).filter_spec().accepted().len() <= old(self).filter_spec().accepted().len()
                + 1,
            r is Ok ==> final(self).filter_spec().accepted() + slot_seq(final(self).buffered_spec())
                == final(self).start_accepted() + final(self).forwarded(),
            final(self).start_accepted() == old(self).start_accepted(),
            final(self).start_produced() == old(self).start_produced(),
            r matches Ok(Async::Ready(x)) ==> final(self).filter_spec().emitted()
                == old(self).filter_spec().emitted().push(x),
            r matches Ok(Async::NotReady) ==> final(self).filter_spec().emitted()
                == old(self).filter_spec().emitted(),
            // A held item is pushed again, and is either taken or still held.
            r is Ok && old(self).buffered_spec() is Some ==> {
                let y = old(self).buffered_spec()->Some_0;
                ||| final(self).buffered_spec() == Some(y) && final(self).filter_spec().accepted()
                    == old(self).filter_spec().accepted()
                ||| final(self).buffered_spec() is None && final(self).filter_spec().accepted()
                    == old(self).filter_spec().accepted().push(y)
            },
            // With nothing held: an idle producer means no push; a pulled item
            // is pushed, and is held only if the transformer rejected it.
            r is Ok && old(self).buffered_spec() is None ==> {
                let p0 = old(self).source_spec().produced();
                let p = final(self).source_spec().produced();
                let a0 = old(self).filter_spec().accepted();
                let a = final(self).filter_spec().accepted();
                &&& p.len() == p0.len() ==> p == p0 && a == a0 && final(self).buffered_spec() is None
                &&& p.len() == p0.len() + 1 ==> {
                    &&& p == p0.push(p.last())
                    &&& (final(self).buffered_spec() is None && a == a0.push(p.last()))
                        || (final(self).buffered_spec() == Some(p.last()) && a == a0)
                }
            },
    {
        let held = self.buffered.take();
        let mut action = filter_step(FilterEvent::Resume(held));
        proof {
            assert(old(self).filter.accepted() + slot_seq(old(self).buffered) =~= match held {
                Some(x) => old(self).filter.accepted().push(x),
                None => old(self).filter.accepted(),
            });
        }
        if let FilterAction::Pull = action {
            let polled = match self.source.poll() {
                Err(e) => { return Err(e); },
                Ok(p) => p,
            };
            proof {
                if polled is Ready {
                    let frame = polled->Ready_0;
                    let p0 = old(self).source.produced();
                    let s0 = old(self).start_produced@ as int;
                    assert(self.source.produced().subrange(s0, self.source.produced().len() as int)
                        =~= p0.subrange(s0, p0.len() as int).push(frame));
                    assert(self.start_accepted@ + self.forwarded()
                        =~= (old(self).start_accepted@ + old(self).forwarded()).push(frame));
                }
            }
            action = filter_step(FilterEvent::Pulled(polled));
        }
        if let FilterAction::Push(x) = action {
            match self.try_start_send(x) {
                Err(e) => { return Err(e); },
                Ok(()) => {},
            }
        }
        self.filter.poll_complete()
    }
}

} // verus!
