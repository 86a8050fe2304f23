use vstd::prelude::*;

use crate::error::Error;
use crate::frame::MediaFrame;
use crate::poll::{Async, AsyncSink, Poll};
use super::forward_filter::slot_seq;
use super::{ended, MediaSink, MediaSource};

verus! {

/// The frames in a history of a producer, without its end-markers.
pub open spec fn frames_of(s: Seq<Option<MediaFrame>>) -> Seq<MediaFrame>
    decreases s.len(),
{
    if s.len() == 0 {
        Seq::empty()
    } else {
        match s.last() {
            Some(f) => frames_of(s.drop_last()).push(f),
            None => frames_of(s.drop_last()),
        }
    }
}

/// One more item on a history adds its frame, if it is one.
pub proof fn lemma_frames_of_push(s: Seq<Option<MediaFrame>>, x: Option<MediaFrame>)
    ensures
        frames_of(s.push(x)) == frames_of(s) + slot_seq(x),
{
    assert(s.push(x).drop_last() =~= s);
    assert(frames_of(s) + slot_seq(x) =~= match x {
        Some(f) => frames_of(s).push(f),
        None => frames_of(s),
    });
}

/// The frames yielded since position `start` of a history, one more item on.
pub proof fn lemma_forwarded_push(p: Seq<Option<MediaFrame>>, start: int, x: Option<MediaFrame>)
    requires
        0 <= start <= p.len(),
    ensures
        frames_of(p.push(x).subrange(start, p.len() + 1 as int)) == frames_of(p.subrange(start, p.len() as int))
            + slot_seq(x),
{
    assert(p.push(x).subrange(start, p.len() + 1 as int) =~= p.subrange(start, p.len() as int).push(x));
    lemma_frames_of_push(p.subrange(start, p.len() as int), x);
}

/// `b` extends `a`: it starts with all of `a`.
pub open spec fn extends<A>(a: Seq<A>, b: Seq<A>) -> bool {
    a.len() <= b.len() && b.take(a.len() as int) == a
}

/// Every sequence extends itself.
pub proof fn lemma_extends_refl<A>(a: Seq<A>)
    ensures
        extends(a, a),
{
    assert(a.take(a.len() as int) =~= a);
}

/// Extending by one more item keeps extending.
pub proof fn lemma_extends_push<A>(a: Seq<A>, b: Seq<A>, x: A)
    requires
        extends(a, b),
    ensures
        extends(a, b.push(x)),
{
    assert(b.push(x).take(a.len() as int) =~= b.take(a.len() as int));
}

/// What the sink-forwarding operation has just learnt.
pub enum SinkEvent {
    /// A poll begins, with the frame held from a rejected push, if any.
    Resume(Option<MediaFrame>),
    /// The producer answered a poll.
    Polled(Async<Option<MediaFrame>>),
    /// The consumer answered a push.
    Pushed(AsyncSink<MediaFrame>),
    /// The consumer answered a close.
    Closed(Async<()>),
}

/// What the sink-forwarding operation does next.
pub enum SinkAction {
    /// Poll the producer.
    Pull,
    /// Push this frame into the consumer.
    Push(MediaFrame),
    /// Keep this rejected frame for the next poll and report `NotReady`.
    Hold(MediaFrame),
    /// Close the consumer.
    Close,
    /// Flush the consumer, then report `NotReady` whatever the flush says.
    FlushThenPending,
    /// Report `NotReady`.
    Pending,
    /// Hand back the producer and the consumer.
    Complete,
}

/// The decisions of the sink-forwarding operation: a held frame is pushed
/// again before anything is pulled; a pulled frame is pushed at once, and
/// after an accepted push the next frame is pulled; a rejected frame is held;
/// the end-marker closes the consumer; an idle producer flushes the consumer;
/// a close that is not ready is retried on a later poll; a ready close
/// completes the operation.
pub fn sink_step(ev: SinkEvent) -> (a: SinkAction)
    ensures
        ev matches SinkEvent::Resume(Some(f)) ==> a == SinkAction::Push(f),
        ev matches SinkEvent::Resume(None) ==> a == SinkAction::Pull,
        ev matches SinkEvent::Polled(Async::Ready(Some(f))) ==> a == SinkAction::Push(f),
        ev matches SinkEvent::Polled(Async::Ready(None)) ==> a == SinkAction::Close,
        ev matches SinkEvent::Polled(Async::NotReady) ==> a == SinkAction::FlushThenPending,
        ev matches SinkEvent::Pushed(AsyncSink::Ready) ==> a == SinkAction::Pull,
        ev matches SinkEvent::Pushed(AsyncSink::NotReady(f)) ==> a == SinkAction::Hold(f),
        ev matches SinkEvent::Closed(Async::Ready(_)) ==> a == SinkAction::Complete,
        ev matches SinkEvent::Closed(Async::NotReady) ==> a == SinkAction::Pending,
{
    match ev {
        SinkEvent::Resume(Some(f)) => SinkAction::Push(f),
        SinkEvent::Resume(None) => SinkAction::Pull,
        SinkEvent::Polled(Async::Ready(Some(f))) => SinkAction::Push(f),
        SinkEvent::Polled(Async::Ready(None)) => SinkAction::Close,
        SinkEvent::Polled(Async::NotReady) => SinkAction::FlushThenPending,
        SinkEvent::Pushed(AsyncSink::Ready) => SinkAction::Pull,
        SinkEvent::Pushed(AsyncSink::NotReady(f)) => SinkAction::Hold(f),
        SinkEvent::Closed(Async::Ready(_)) => SinkAction::Complete,
        SinkEvent::Closed(Async::NotReady) => SinkAction::Pending,
    }
}

/// How many frames one poll may forward before it yields.
const POLL_BUDGET: u64 = 0xffff_ffff_ffff_ffff;

/// A one-shot operation that drains a producer into a consumer, then closes
/// the consumer and hands both back.
pub struct ForwardSink<T: MediaSource, U: MediaSink> {
    source: Option<T>,
    sink: Option<U>,
    buffered: Option<MediaFrame>,
    start_received: Ghost<Seq<MediaFrame>>,
    start_produced: Ghost<nat>,
}

impl<T: MediaSource, U: MediaSink> ForwardSink<T, U> {
    pub closed spec fn source_spec(&self) -> Option<T> {
        self.source
    }

    pub closed spec fn sink_spec(&self) -> Option<U> {
        self.sink
    }

    pub closed spec fn buffered_spec(&self) -> Option<MediaFrame> {
        self.buffered
    }

    /// Completed: the producer and the consumer have been handed back.
    pub open spec fn is_done(&self) -> bool {
        self.source_spec() is None
    }

    /// What the consumer had received before this operation was made.
    pub closed spec fn start_received(&self) -> Seq<MediaFrame> {
        self.start_received@
    }

    /// How much the producer had yielded before this operation was made.
    pub closed spec fn start_produced(&self) -> nat {
        self.start_produced@
    }

    /// The frames owed to the consumer: those it had, then every frame the
    /// producer yielded since this operation was made.
    pub open spec fn owed(&self) -> Seq<MediaFrame> {
        let p = self.source_spec()->Some_0.produced();
        self.start_received() + frames_of(p.subrange(self.start_produced() as int, p.len() as int))
    }

    /// Every frame taken from the producer has reached the consumer, in
    /// order, but for the one frame held for retry.
    pub closed spec fn wf(&self) -> bool {
        &&& (self.source is None <==> self.sink is None)
        &&& self.source is Some ==> {
            let p = self.source->Some_0.produced();
            &&& self.source->Some_0.inv()
            &&& self.sink->Some_0.inv()
            &&& self.start_produced@ <= p.len()
            &&& self.buffered is Some ==> p.len() > 0 && p.last() == Some(self.buffered->Some_0)
            &&& self.sink->Some_0.received() + slot_seq(self.buffered)
                == self.start_received@ + frames_of(p.subrange(self.start_produced@ as int, p.len() as int))
        }
    }

    pub fn new(source: T, sink: U) -> (r: ForwardSink<T, U>)
        requires
            source.inv(),
            sink.inv(),
        ensures
            r.wf(),
            !r.is_done(),
            r.source_spec() == Some(source),
            r.sink_spec() == Some(sink),
            r.buffered_spec() is None,
            r.start_received() == sink.received(),
            r.start_produced() == source.produced().len(),
    {
        let ghost rec = sink.received();
        let ghost n = source.produced().len();
        let r = ForwardSink {
            source: Some(source),
            sink: Some(sink),
            buffered: None,
            start_received: Ghost(rec),
            start_produced: Ghost(n),
        };
        proof {
            let p = source.produced();
            assert(p.subrange(n as int, p.len() as int) =~= Seq::<Option<MediaFrame>>::empty());
            assert(frames_of(Seq::<Option<MediaFrame>>::empty()) == Seq::<MediaFrame>::empty());
            assert(rec + slot_seq(r.buffered) =~= rec + Seq::<MediaFrame>::empty());
        }
        r
    }

    /// The producer, until the operation completes.
    pub fn source_ref(&self) -> (r: Option<&T>)
        ensures
            r is Some <==> self.source_spec() is Some,
            r is Some ==> *r->Some_0 == self.source_spec()->Some_0,
    {
        self.source.as_ref()
    }

    /// The producer, mutably, until the operation completes.
    pub fn source_mut(&mut self) -> (r: Option<&mut T>)
        ensures
            r is Some <==> old(self).source_spec() is Some,
            r is Some ==> *r->Some_0 == old(self).source_spec()->Some_0,
            r is Some ==> final(self).source_spec() == Some(*final(r->Some_0)),
            r is None ==> final(self).source_spec() is None,
            final(self).sink_spec() == old(self).sink_spec(),
            final(self).buffered_spec() == old(self).buffered_spec(),
            final(self).start_received() == old(self).start_received(),
            final(self).start_produced() == old(self).start_produced(),
    {
        self.source.as_mut()
    }

    /// The consumer, until the operation completes.
    pub fn sink_ref(&self) -> (r: Option<&U>)
        ensures
            r is Some <==> self.sink_spec() is Some,
            r is Some ==> *r->Some_0 == self.sink_spec()->Some_0,
    {
        self.sink.as_ref()
    }

    /// The consumer, mutably, until the operation completes.
    pub fn sink_mut(&mut self) -> (r: Option<&mut U>)
        ensures
            r is Some <==> old(self).sink_spec() is Some,
            r is Some ==> *r->Some_0 == old(self).sink_spec()->Some_0,
            r is Some ==> final(self).sink_spec() == Some(*final(r->Some_0)),
            r is None ==> final(self).sink_spec() is None,
            final(self).source_spec() == old(self).source_spec(),
            final(self).buffered_spec() == old(self).buffered_spec(),
            final(self).start_received() == old(self).start_received(),
            final(self).start_produced() == old(self).start_produced(),
    {
        self.sink.as_mut()
    }

    /// Hands back the producer and the consumer; the operation is then spent.
    fn take_result(&mut self) -> (r: (T, U))
        requires
            old(self).source is Some,
            old(self).sink is Some,
        ensures
            r == (old(self).source->Some_0, old(self).sink->Some_0),
            final(self).source is None,
            final(self).sink is None,
            final(self).buffered == old(self).buffered,
            final(self).start_received == old(self).start_received,
            final(self).start_produced == old(self).start_produced,
    {
        let sink = self.sink.take().unwrap();
        let source = self.source.take().unwrap();
        (source, sink)
    }

    /// Pushes `item` into the consumer; a rejected item is kept for retry and
    /// `NotReady` is reported.
    fn try_start_send(&mut self, item: MediaFrame) -> (r: Poll<(), Error>)
        requires
            old(self).buffered is None,
            old(self).sink is Some,
            old(self).sink->Some_0.inv(),
        ensures
            final(self).source == old(self).source,
            final(self).start_received == old(self).start_received,
            final(self).start_produced == old(self).start_produced,
            final(self).sink is Some,
            r is Ok ==> final(self).sink->Some_0.inv(),
            r is Ok ==> final(self).sink->Some_0.closed() == old(self).sink->Some_0.closed(),
            r is Ok ==> final(self).sink->Some_0.received() + slot_seq(final(self).buffered)
                == old(self).sink->Some_0.received().push(item),
            r matches Ok(Async::Ready(_)) ==> final(self).buffered is None,
            r matches Ok(Async::NotReady) ==> final(self).buffered == Some(item),
            r is Ok && final(self).buffered is None ==> final(self).sink->Some_0.received()
                == old(self).sink->Some_0.received().push(item),
            r is Ok && final(self).buffered is Some ==> final(self).sink->Some_0.received()
                == old(self).sink->Some_0.received(),
    {
        let mut sink = self.sink.take().unwrap();
        let res = sink.start_send(item);
        self.sink = Some(sink);
        let pushed = match res {
            Err(e) => { return Err(e); },
            Ok(p) => p,
        };
        match sink_step(SinkEvent::Pushed(pushed)) {
            SinkAction::Hold(f) => {
                self.buffered = Some(f);
                proof {
                    assert(self.sink->Some_0.received() + slot_seq(self.buffered)
                        =~= old(self).sink->Some_0.received().push(item));
                }
                Ok(Async::NotReady)
            },
            _ => {
                proof {
                    assert(self.sink->Some_0.received() + slot_seq(self.buffered)
                        =~= self.sink->Some_0.received());
                }
                Ok(Async::Ready(()))
            },
        }
    }
}

impl<T: MediaSource, U: MediaSink> ForwardSink<T, U> {
    /// The producer and the consumer are held together, until completion.
    pub proof fn lemma_done_iff(&self)
        requires
            self.wf(),
        ensures
            self.is_done() <==> self.sink_spec() is None,
    {
    }

    /// At most one frame is in transit: taken from the producer and not yet
    /// accepted by the consumer; with none held, the consumer has all it is owed.
    pub proof fn lemma_single_slot(&self)
        requires
            self.wf(),
            !self.is_done(),
        ensures
            self.sink_spec()->Some_0.received().len() <= self.owed().len()
                <= self.sink_spec()->Some_0.received().len() + 1,
            self.buffered_spec() is None ==> self.sink_spec()->Some_0.received() == self.owed(),
            self.sink_spec()->Some_0.received() + slot_seq(self.buffered_spec()) == self.owed(),
    {
        if self.buffered is None {
            let rec = self.sink->Some_0.received();
            assert(rec + slot_seq(self.buffered) =~= rec);
        }
    }

    /// A frame held after a rejection is the very one owed to the consumer
    /// next, so a retry presents the rejected frame again.
    pub proof fn lemma_retry_is_next(&self)
        requires
            self.wf(),
            !self.is_done(),
            self.buffered_spec() is Some,
        ensures
            self.owed()[self.sink_spec()->Some_0.received().len() as int] == self.buffered_spec()->Some_0,
    {
        let rec = self.sink->Some_0.received();
        assert((rec + slot_seq(self.buffered))[rec.len() as int] == self.buffered->Some_0);
    }

    /// Drives the operation: forwards frames while the consumer takes them,
    /// and on the end-marker closes the consumer and hands both back.
    pub fn poll(&mut self) -> (r: Poll<(T, U), Error>)
        requires
            old(self).wf(),
            !old(self).is_done(),
        ensures
            r is Ok ==> final(self).wf(),
            final(self).start_received() == old(self).start_received(),
            final(self).start_produced() == old(self).start_produced(),
            r matches Ok(Async::NotReady) ==> !final(self).is_done(),
            r is Ok && !final(self).is_done() && old(self).buffered_spec() is Some
                && final(self).sink_spec()->Some_0.received() == old(self).sink_spec()->Some_0.received()
                ==> final(self).source_spec() == old(self).source_spec()
                && final(self).buffered_spec() == old(self).buffered_spec(),
            r matches Ok(Async::NotReady) ==> {
                let p0 = old(self).source_spec()->Some_0.produced();
                let p = final(self).source_spec()->Some_0.produced();
                p.len() > p0.len() && p.last() is None ==> !final(self).sink_spec()->Some_0.closed()
            },
            r is Ok && !final(self).is_done() ==> final(self).sink_spec()->Some_0.received()
                + slot_seq(final(self).buffered_spec()) == final(self).owed(),
            // Histories only grow; a held frame is the next one pushed; close
            // comes only after the end-marker, and nothing is pushed after it.
            r is Ok ==> {
                let p0 = old(self).source_spec()->Some_0.produced();
                let rec0 = old(self).sink_spec()->Some_0.received();
                let p = if final(self).is_done() { r->Ok_0->Ready_0.0.produced() } else {
                    final(self).source_spec()->Some_0.produced()
                };
                let rec = if final(self).is_done() { r->Ok_0->Ready_0.1.received() } else {
                    final(self).sink_spec()->Some_0.received()
                };
                let closed = if final(self).is_done() { r->Ok_0->Ready_0.1.closed() } else {
                    final(self).sink_spec()->Some_0.closed()
                };
                &&& extends(p0, p)
                &&& extends(rec0, rec)
                &&& old(self).buffered_spec() is Some ==> {
                    ||| !final(self).is_done() && final(self).buffered_spec() == old(self).buffered_spec()
                        && rec == rec0 && p == p0
                    ||| rec.len() > rec0.len() && rec[rec0.len() as int] == old(self).buffered_spec()->Some_0
                }
                &&& ended(p0) && old(self).buffered_spec() is None ==> rec == rec0
                &&& !final(self).is_done() && !ended(p) ==> closed == old(self).sink_spec()->Some_0.closed()
                &&& !final(self).is_done() && ended(p) ==> !closed && final(self).buffered_spec() is None
            },
            r matches Ok(Async::Ready(pair)) ==> {
                let p = pair.0.produced();
                &&& final(self).is_done()
                &&& final(self).sink_spec() is None
                &&& final(self).buffered_spec() is None
                &&& pair.0.inv()
                &&& pair.1.inv()
                &&& pair.1.closed()
                &&& old(self).source_spec()->Some_0.produced().len() < p.len()
                &&& p.last() is None
                &&& pair.1.received() == old(self).start_received() + frames_of(
                    p.subrange(old(self).start_produced() as int, p.len() as int),
                )
            },
    {
        proof {
            lemma_extends_refl(old(self).source->Some_0.produced());
            lemma_extends_refl(old(self).sink->Some_0.received());
        }
        let held = self.buffered.take();
        if let SinkAction::Push(item) = sink_step(SinkEvent::Resume(held)) {
            proof {
                let rec = old(self).sink->Some_0.received();
                assert(rec.push(item) =~= rec + slot_seq(old(self).buffered));
            }
            match self.try_start_send(item) {
                Err(e) => { return Err(e); },
                Ok(Async::NotReady) => { return Ok(Async::NotReady); },
                Ok(Async::Ready(())) => {
                    proof {
                        let rec = old(self).sink->Some_0.received();
                        lemma_extends_push(rec, rec, item);
                    }
                },
            }
        }
        let mut budget: u64 = POLL_BUDGET;
        loop
            invariant
                self.wf(),
                !self.is_done(),
                self.buffered is None,
                self.start_received == old(self).start_received,
                self.start_produced == old(self).start_produced,
                old(self).source->Some_0.produced().len() <= self.source->Some_0.produced().len(),
                old(self).buffered is Some ==> self.sink->Some_0.received().len()
                    > old(self).sink->Some_0.received().len()
                    && self.sink->Some_0.received()[old(self).sink->Some_0.received().len() as int]
                    == old(self).buffered->Some_0,
                extends(old(self).source->Some_0.produced(), self.source->Some_0.produced()),
                extends(old(self).sink->Some_0.received(), self.sink->Some_0.received()),
                self.sink->Some_0.closed() == old(self).sink->Some_0.closed(),
                ended(old(self).source->Some_0.produced()) && old(self).buffered is None
                    ==> self.source->Some_0.produced() == old(self).source->Some_0.produced()
                    && self.sink->Some_0.received() == old(self).sink->Some_0.received(),
                budget < POLL_BUDGET ==> self.source->Some_0.produced().len()
                    > old(self).source->Some_0.produced().len(),
                self.source->Some_0.produced().len() == old(self).source->Some_0.produced().len()
                    ==> self.source->Some_0.produced() == old(self).source->Some_0.produced(),
                self.source->Some_0.produced().len() > old(self).source->Some_0.produced().len()
                    ==> self.source->Some_0.produced().last() is Some,
            decreases budget,
        {
            if budget == 0 {
                return self.flush();
            }
            budget = budget - 1;
            let ghost rec0 = self.sink->Some_0.received();
            let ghost p0 = self.source->Some_0.produced();
            let mut source = self.source.take().unwrap();
            let polled = source.poll();
            self.source = Some(source);
            proof {
                if polled is Ok && polled->Ok_0 is Ready {
                    let x = polled->Ok_0->Ready_0;
                    lemma_forwarded_push(p0, self.start_produced@ as int, x);
                    lemma_extends_push(old(self).source->Some_0.produced(), p0, x);
                    assert(self.source->Some_0.produced() == p0.push(x));
                    assert(rec0 + slot_seq(x) =~= match x {
                        Some(f) => rec0.push(f),
                        None => rec0,
                    });
                    assert(rec0 + slot_seq(None::<MediaFrame>) =~= rec0);
                    let f0 = frames_of(p0.subrange(self.start_produced@ as int, p0.len() as int));
                    assert((self.start_received@ + f0) + slot_seq(x) =~= self.start_received@ + (f0
                        + slot_seq(x)));
                }
            }
            let polled = match polled {
                Err(e) => { return Err(e); },
                Ok(p) => p,
            };
            match sink_step(SinkEvent::Polled(polled)) {
                SinkAction::Push(item) => {
                    match self.try_start_send(item) {
                        Err(e) => { return Err(e); },
                        Ok(Async::NotReady) => { return Ok(Async::NotReady); },
                        Ok(Async::Ready(())) => {
                            proof {
                                lemma_extends_push(old(self).sink->Some_0.received(), rec0, item);
                            }
                        },
                    }
                },
                SinkAction::Close => {
                    let mut sink = self.sink.take().unwrap();
                    let closing = sink.close();
                    self.sink = Some(sink);
                    let closed = match closing {
                        Err(e) => { return Err(e); },
                        Ok(c) => c,
                    };
                    match sink_step(SinkEvent::Closed(closed)) {
                        SinkAction::Complete => { return Ok(Async::Ready(self.take_result())); },
                        _ => { return Ok(Async::NotReady); },
                    }
                },
                _ => {
                    return self.flush();
                },
            }
        }
    }

    /// Gives the consumer a chance to make room, then reports `NotReady`.
    fn flush(&mut self) -> (r: Poll<(T, U), Error>)
        requires
            old(self).wf(),
            !old(self).is_done(),
        ensures
            r is Ok ==> final(self).wf(),
            r is Ok ==> r == Ok::<Async<(T, U)>, Error>(Async::NotReady),
            r is Ok ==> final(self).sink->Some_0.received() == old(self).sink->Some_0.received(),
            r is Ok ==> final(self).sink->Some_0.closed() == old(self).sink->Some_0.closed(),
            final(self).source == old(self).source,
            final(self).buffered == old(self).buffered,
            final(self).start_received == old(self).start_received,
            final(self).start_produced == old(self).start_produced,
            !final(self).is_done(),
    {
        let mut sink = self.sink.take().unwrap();
        let flushed = sink.poll_complete();
        self.sink = Some(sink);
        match flushed {
            Err(e) => Err(e),
            Ok(_) => Ok(Async::NotReady),
        }
    }
}

} // verus!
