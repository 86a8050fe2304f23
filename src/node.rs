use vstd::prelude::*;

pub mod forward_filter;
pub mod forward_sink;

use crate::error::Error;
use crate::frame::MediaFrame;
use crate::poll::{Async, AsyncSink, Poll, StartSend};
use forward_filter::ForwardFilter;
use forward_sink::ForwardSink;

verus! {

/// The last value of a history is the end-marker.
pub open spec fn ended(history: Seq<Option<MediaFrame>>) -> bool {
    history.len() > 0 && history.last() is None
}

/// A pull-style producer of frames.
///
/// The spec functions of the three stage traits describe a stage's history
/// for proofs. A verified implementation overrides them with its own history;
/// the default bodies (nothing produced, received or emitted, never closed)
/// only let code outside Verus implement the traits, and such an
/// implementation is not held to the contracts: what is proved of the
/// combinators assumes stages that meet them. Code generic over the traits
/// never sees the defaults.
///
/// `produced` is the history of every value handed out by `poll` as `Ready`
/// (`None` being the end-marker); `inv` is the implementation's own
/// well-formedness, which holds until an operation fails. Once the
/// end-marker is out, every successful poll yields it again.
pub trait MediaSource {
    closed spec fn produced(&self) -> Seq<Option<MediaFrame>> {
        Seq::empty()
    }

    closed spec fn inv(&self) -> bool {
        true
    }

    fn poll(&mut self) -> (r: Poll<Option<MediaFrame>, Error>)
        requires
            old(self).inv(),
        ensures
            r is Ok ==> final(self).inv(),
            r matches Ok(Async::Ready(x)) ==> final(self).produced() == old(self).produced().push(x),
            r matches Ok(Async::NotReady) ==> final(self).produced() == old(self).produced(),
            ended(old(self).produced()) && r is Ok ==> r matches Ok(Async::Ready(None)),
    ;
}

/// Combinators on every producer.
pub trait MediaSourceExt: MediaSource + Sized {
    /// Chains a transformer after this producer.
    fn forward_filter<F: MediaFilter>(self, filter: F) -> (r: ForwardFilter<Self, F>)
        requires
            self.inv(),
            filter.inv(),
        ensures
            r.inv(),
            r.source_spec() == self,
            r.filter_spec() == filter,
            r.buffered_spec() is None,
            r.start_accepted() == filter.accepted(),
            r.forwarded() == Seq::<Option<MediaFrame>>::empty(),
    ;

    /// Makes the operation that drains this producer into `sink`.
    fn forward_sink<K: MediaSink>(self, sink: K) -> (r: ForwardSink<Self, K>)
        requires
            self.inv(),
            sink.inv(),
        ensures
            r.wf(),
            !r.is_done(),
            r.source_spec() == Some(self),
            r.sink_spec() == Some(sink),
            r.buffered_spec() is None,
            r.start_received() == sink.received(),
            r.start_produced() == self.produced().len(),
    ;
}

impl<S: MediaSource> MediaSourceExt for S {
    fn forward_filter<F: MediaFilter>(self, filter: F) -> (r: ForwardFilter<Self, F>)
    {
        ForwardFilter::new(self, filter)
    }

    fn forward_sink<K: MediaSink>(self, sink: K) -> (r: ForwardSink<Self, K>)
    {
        ForwardSink::new(self, sink)
    }
}

/// A push-then-pull transformer: it takes frames or the end-marker, and later
/// yields transformed frames or the end-marker.
///
/// `accepted` is the history of what `start_send` took; `emitted` is the
/// history of what `poll_complete` handed out as `Ready`. Once the end-marker
/// is emitted, every successful `poll_complete` emits it again.
pub trait MediaFilter {
    closed spec fn accepted(&self) -> Seq<Option<MediaFrame>> {
        Seq::empty()
    }

    closed spec fn emitted(&self) -> Seq<Option<MediaFrame>> {
        Seq::empty()
    }

    closed spec fn inv(&self) -> bool {
        true
    }

    fn start_send(&mut self, frame: Option<MediaFrame>) -> (r: StartSend<Option<MediaFrame>, Error>)
        requires
            old(self).inv(),
        ensures
            r is Ok ==> final(self).inv() && final(self).emitted() == old(self).emitted(),
            r matches Ok(AsyncSink::Ready) ==> final(self).accepted() == old(self).accepted().push(frame),
            r matches Ok(AsyncSink::NotReady(g)) ==> g == frame && final(self).accepted() == old(self).accepted(),
    ;

    fn poll_complete(&mut self) -> (r: Poll<Option<MediaFrame>, Error>)
        requires
            old(self).inv(),
        ensures
            r is Ok ==> final(self).inv() && final(self).accepted() == old(self).accepted(),
            r matches Ok(Async::Ready(x)) ==> final(self).emitted() == old(self).emitted().push(x),
            r matches Ok(Async::NotReady) ==> final(self).emitted() == old(self).emitted(),
            ended(old(self).emitted()) && r is Ok ==> r matches Ok(Async::Ready(None)),
    ;
}

/// A push-style consumer of frames, with flush and close phases.
///
/// `received` is the history of the frames that `start_send` took; `closed`
/// says that `close` has reported completion.
pub trait MediaSink {
    closed spec fn received(&self) -> Seq<MediaFrame> {
        Seq::empty()
    }

    closed spec fn closed(&self) -> bool {
        false
    }

    closed spec fn inv(&self) -> bool {
        true
    }

    fn start_send(&mut self, frame: MediaFrame) -> (r: StartSend<MediaFrame, Error>)
        requires
            old(self).inv(),
        ensures
            r is Ok ==> final(self).inv() && final(self).closed() == old(self).closed(),
            r matches Ok(AsyncSink::Ready) ==> final(self).received() == old(self).received().push(frame),
            r matches Ok(AsyncSink::NotReady(g)) ==> g == frame && final(self).received() == old(self).received(),
    ;

    fn poll_complete(&mut self) -> (r: Poll<(), Error>)
        requires
            old(self).inv(),
        ensures
            r is Ok ==> final(self).inv() && final(self).received() == old(self).received()
                && final(self).closed() == old(self).closed(),
    ;

    fn close(&mut self) -> (r: Poll<(), Error>)
        requires
            old(self).inv(),
        ensures
            r is Ok ==> final(self).inv() && final(self).received() == old(self).received(),
            r matches Ok(Async::Ready(_)) ==> final(self).closed(),
            r matches Ok(Async::NotReady) ==> !final(self).closed(),
    ;
}

} // verus!
