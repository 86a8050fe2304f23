use std::collections::VecDeque;
use std::time::Duration;

use rusty_pipe::error::Error;
use rusty_pipe::frame::MediaFrame;
use rusty_pipe::node::forward_filter::{filter_step, FilterAction, FilterEvent};
use rusty_pipe::node::forward_sink::{sink_step, ForwardSink, SinkAction, SinkEvent};
use rusty_pipe::node::{MediaFilter, MediaSink, MediaSource, MediaSourceExt};
use rusty_pipe::{Async, AsyncSink, Poll, StartSend};

fn frame(secs: u64) -> MediaFrame {
    MediaFrame::builder().pts(Duration::from_secs(secs)).build()
}

/// Yields its scripted outcomes in order, then the end-marker forever.
struct ScriptSource {
    id: u32,
    script: VecDeque<Option<Option<u64>>>,
    polls: usize,
}

impl ScriptSource {
    fn frames(ptss: &[u64]) -> Self {
        ScriptSource {
            id: 7,
            script: ptss.iter().map(|p| Some(Some(*p))).collect(),
            polls: 0,
        }
    }

    fn with_script(script: Vec<Option<Option<u64>>>) -> Self {
        ScriptSource { id: 7, script: script.into_iter().collect(), polls: 0 }
    }
}

impl MediaSource for ScriptSource {
    fn poll(&mut self) -> Poll<Option<MediaFrame>, Error> {
        self.polls += 1;
        match self.script.pop_front() {
            Some(Some(Some(p))) => Ok(Async::Ready(Some(frame(p)))),
            Some(Some(None)) => Ok(Async::Ready(None)),
            Some(None) => Ok(Async::NotReady),
            None => Ok(Async::Ready(None)),
        }
    }
}

struct FailingSource;

impl MediaSource for FailingSource {
    fn poll(&mut self) -> Poll<Option<MediaFrame>, Error> {
        Err(Error::Unknown)
    }
}

/// Re-buckets frames into slots of a fixed duration.
#[derive(PartialEq, Debug)]
struct FixedDurationFilter {
    dur: Duration,
    next_pts: Duration,
    buffer: Option<Option<MediaFrame>>,
}

impl FixedDurationFilter {
    fn new(sec: u64) -> Self {
        FixedDurationFilter {
            dur: Duration::from_secs(sec),
            next_pts: Duration::from_secs(0),
            buffer: None,
        }
    }
}

impl MediaFilter for FixedDurationFilter {
    fn start_send(&mut self, frame: Option<MediaFrame>) -> StartSend<Option<MediaFrame>, Error> {
        if self.buffer.is_none() {
            self.buffer = Some(frame);
            Ok(AsyncSink::Ready)
        } else {
            Ok(AsyncSink::NotReady(frame))
        }
    }

    fn poll_complete(&mut self) -> Poll<Option<MediaFrame>, Error> {
        if let Some(item) = self.buffer.take() {
            if let Some(frame) = item {
                if frame.pts < self.next_pts {
                    Ok(Async::NotReady)
                } else {
                    let item = if frame.pts < self.next_pts + self.dur {
                        Some(frame)
                    } else {
                        self.buffer = Some(Some(frame));
                        Some(MediaFrame::builder().pts(self.next_pts).build())
                    };
                    self.next_pts = self.next_pts + self.dur;
                    Ok(Async::Ready(item))
                }
            } else {
                Ok(Async::Ready(None))
            }
        } else {
            Ok(Async::NotReady)
        }
    }
}

/// Passes items through unchanged, holding one at a time.
struct IdentityFilter {
    slot: Option<Option<MediaFrame>>,
}

impl MediaFilter for IdentityFilter {
    fn start_send(&mut self, frame: Option<MediaFrame>) -> StartSend<Option<MediaFrame>, Error> {
        if self.slot.is_none() {
            self.slot = Some(frame);
            Ok(AsyncSink::Ready)
        } else {
            Ok(AsyncSink::NotReady(frame))
        }
    }

    fn poll_complete(&mut self) -> Poll<Option<MediaFrame>, Error> {
        match self.slot.take() {
            Some(item) => Ok(Async::Ready(item)),
            None => Ok(Async::NotReady),
        }
    }
}

/// Records every push attempt; rejects a push when `reject` says so, and
/// reports `NotReady` from `close` a given number of times.
#[derive(PartialEq, Debug)]
struct DummySink {
    id: u32,
    frames: Vec<MediaFrame>,
    attempts: Vec<u64>,
    reject: Vec<bool>,
    close_pending: usize,
    closes: usize,
    flushes: usize,
}

impl DummySink {
    fn new() -> Self {
        DummySink {
            id: 9,
            frames: Vec::new(),
            attempts: Vec::new(),
            reject: Vec::new(),
            close_pending: 0,
            closes: 0,
            flushes: 0,
        }
    }
}

impl MediaSink for DummySink {
    fn start_send(&mut self, frame: MediaFrame) -> StartSend<MediaFrame, Error> {
        let n = self.attempts.len();
        self.attempts.push(frame.pts.as_secs());
        if self.reject.get(n).copied().unwrap_or(false) {
            return Ok(AsyncSink::NotReady(frame));
        }
        self.frames.push(frame);
        Ok(AsyncSink::Ready)
    }

    fn poll_complete(&mut self) -> Poll<(), Error> {
        self.flushes += 1;
        Ok(Async::Ready(()))
    }

    fn close(&mut self) -> Poll<(), Error> {
        self.closes += 1;
        if self.close_pending > 0 {
            self.close_pending -= 1;
            Ok(Async::NotReady)
        } else {
            Ok(Async::Ready(()))
        }
    }
}

fn pts_of(frames: &[MediaFrame]) -> Vec<u64> {
    frames.iter().map(|f| f.pts.as_secs()).collect()
}

fn run<T: MediaSource, U: MediaSink>(mut op: ForwardSink<T, U>, max_polls: usize) -> (T, U) {
    for _ in 0..max_polls {
        match op.poll() {
            Ok(Async::Ready(pair)) => return pair,
            Ok(Async::NotReady) => {}
            Err(e) => panic!("forwarding failed: {:?}", e),
        }
    }
    panic!("forwarding did not complete");
}

#[test]
fn forward_sink() {
    let op = ScriptSource::frames(&[0, 10, 15, 30])
        .forward_filter(FixedDurationFilter::new(10))
        .forward_sink(DummySink::new());
    let (source, sink) = run(op, 100);
    assert_eq!(source.source_ref().script.len(), 0);
    assert_eq!(source.source_ref().id, 7);
    assert_eq!(
        *source.filter_ref(),
        FixedDurationFilter {
            dur: Duration::from_secs(10),
            next_pts: Duration::from_secs(40),
            buffer: None,
        }
    );
    assert!(!source.is_holding());
    assert_eq!(pts_of(&sink.frames), vec![0, 10, 20, 30]);
    assert_eq!(
        sink.frames,
        vec![frame(0), frame(10), frame(20), frame(30)]
    );
    assert_eq!(sink.closes, 1);
}

#[test]
fn fixed_duration_filter_state_after_forwarding() {
    let mut ff = ScriptSource::frames(&[0, 10, 15, 30]).forward_filter(FixedDurationFilter::new(10));
    let mut out = Vec::new();
    for _ in 0..100 {
        match ff.poll() {
            Ok(Async::Ready(Some(f))) => out.push(f.pts.as_secs()),
            Ok(Async::Ready(None)) => break,
            Ok(Async::NotReady) => {}
            Err(e) => panic!("{:?}", e),
        }
    }
    assert_eq!(out, vec![0, 10, 20, 30]);
}

#[test]
fn identity_filter_keeps_sequence() {
    let input = [3, 1, 4, 1, 5, 9, 2, 6];
    let mut ff = ScriptSource::frames(&input).forward_filter(IdentityFilter { slot: None });
    let mut out = Vec::new();
    for _ in 0..100 {
        match ff.poll() {
            Ok(Async::Ready(Some(f))) => out.push(f.pts.as_secs()),
            Ok(Async::Ready(None)) => break,
            Ok(Async::NotReady) => {}
            Err(e) => panic!("{:?}", e),
        }
    }
    assert_eq!(out, input.to_vec());
}

#[test]
fn identity_filter_with_pending_source() {
    let script = vec![Some(Some(1)), None, None, Some(Some(2)), None, Some(Some(3)), Some(None)];
    let mut ff = ScriptSource::with_script(script).forward_filter(IdentityFilter { slot: None });
    let mut out = Vec::new();
    for _ in 0..100 {
        match ff.poll() {
            Ok(Async::Ready(Some(f))) => out.push(f.pts.as_secs()),
            Ok(Async::Ready(None)) => break,
            Ok(Async::NotReady) => {}
            Err(e) => panic!("{:?}", e),
        }
    }
    assert_eq!(out, vec![1, 2, 3]);
}

#[test]
fn rejected_frame_is_retried_first() {
    let mut sink = DummySink::new();
    sink.reject = vec![false, true, true, false, true, false, false];
    let op = ScriptSource::frames(&[5, 6, 7, 8]).forward_sink(sink);
    let (_source, sink) = run(op, 100);
    assert_eq!(pts_of(&sink.frames), vec![5, 6, 7, 8]);
    assert_eq!(sink.attempts, vec![5, 6, 6, 6, 7, 7, 8]);
}

#[test]
fn rejection_reports_not_ready_and_holds_frame() {
    let mut sink = DummySink::new();
    sink.reject = vec![true];
    let mut op = ScriptSource::frames(&[1, 2]).forward_sink(sink);
    assert!(matches!(op.poll(), Ok(Async::NotReady)));
    assert_eq!(op.source_ref().unwrap().polls, 1);
    assert_eq!(op.sink_ref().unwrap().attempts, vec![1]);
    assert!(op.sink_ref().unwrap().frames.is_empty());
}

#[test]
fn close_pending_is_retried_until_ready() {
    let mut sink = DummySink::new();
    sink.close_pending = 2;
    let mut op = ScriptSource::frames(&[1]).forward_sink(sink);
    assert!(matches!(op.poll(), Ok(Async::NotReady)));
    assert!(matches!(op.poll(), Ok(Async::NotReady)));
    let (source, sink) = match op.poll().unwrap() {
        Async::Ready(pair) => pair,
        Async::NotReady => panic!("expected completion"),
    };
    assert_eq!(sink.closes, 3);
    assert_eq!(pts_of(&sink.frames), vec![1]);
    assert_eq!(source.polls, 4);
    assert!(op.source_ref().is_none());
    assert!(op.sink_ref().is_none());
}

#[test]
fn pending_source_flushes_sink() {
    let script = vec![Some(Some(1)), None, Some(Some(2)), Some(None)];
    let mut op = ScriptSource::with_script(script).forward_sink(DummySink::new());
    assert!(matches!(op.poll(), Ok(Async::NotReady)));
    assert_eq!(op.sink_ref().unwrap().flushes, 1);
    assert_eq!(op.sink_ref().unwrap().closes, 0);
    let (_source, sink) = match op.poll().unwrap() {
        Async::Ready(pair) => pair,
        Async::NotReady => panic!("expected completion"),
    };
    assert_eq!(pts_of(&sink.frames), vec![1, 2]);
    assert_eq!(sink.closes, 1);
}

#[test]
fn completion_hands_back_same_stages() {
    let mut sink = DummySink::new();
    sink.id = 42;
    let mut source = ScriptSource::frames(&[4, 8]);
    source.id = 24;
    let (source, sink) = run(source.forward_sink(sink), 10);
    assert_eq!(source.id, 24);
    assert_eq!(sink.id, 42);
    assert_eq!(pts_of(&sink.frames), vec![4, 8]);
}

#[test]
fn empty_stream_only_closes() {
    let (_source, sink) = run(ScriptSource::frames(&[]).forward_sink(DummySink::new()), 10);
    assert!(sink.frames.is_empty());
    assert!(sink.attempts.is_empty());
    assert_eq!(sink.closes, 1);
}

#[test]
fn source_error_propagates() {
    let mut op = FailingSource.forward_sink(DummySink::new());
    assert_eq!(op.poll().err(), Some(Error::Unknown));
    let mut ff = FailingSource.forward_filter(IdentityFilter { slot: None });
    assert_eq!(ff.poll().err(), Some(Error::Unknown));
}

#[test]
fn accessors_reach_stages() {
    let mut op = ScriptSource::frames(&[1]).forward_sink(DummySink::new());
    op.sink_mut().unwrap().id = 5;
    op.source_mut().unwrap().id = 6;
    assert_eq!(op.sink_ref().unwrap().id, 5);
    assert_eq!(op.source_ref().unwrap().id, 6);
}

#[test]
fn frame_builder_sets_pts() {
    let f = MediaFrame::builder().pts(Duration::from_millis(1500)).build();
    assert_eq!(f.pts, Duration::from_millis(1500));
    assert_eq!(f, MediaFrame::new(Duration::from_millis(1500)));
    assert_eq!(MediaFrame::builder().build().pts, Duration::from_secs(0));
}

#[test]
fn error_kinds_compare_by_value() {
    let e = Error::IoError { kind: std::io::ErrorKind::NotFound };
    assert_eq!(e, Error::IoError { kind: std::io::ErrorKind::NotFound });
    assert_ne!(e, Error::Unknown);
}

#[test]
fn filter_step_decisions() {
    assert!(matches!(filter_step(FilterEvent::Resume(Some(Some(frame(3))))), FilterAction::Push(Some(f)) if f == frame(3)));
    assert!(matches!(filter_step(FilterEvent::Resume(Some(None))), FilterAction::Push(None)));
    assert!(matches!(filter_step(FilterEvent::Resume(None)), FilterAction::Pull));
    assert!(matches!(filter_step(FilterEvent::Pulled(Async::Ready(Some(frame(4))))), FilterAction::Push(Some(f)) if f == frame(4)));
    assert!(matches!(filter_step(FilterEvent::Pulled(Async::Ready(None))), FilterAction::Push(None)));
    assert!(matches!(filter_step(FilterEvent::Pulled(Async::NotReady)), FilterAction::Emit));
    assert!(matches!(filter_step(FilterEvent::Pushed(AsyncSink::Ready)), FilterAction::Emit));
    assert!(matches!(filter_step(FilterEvent::Pushed(AsyncSink::NotReady(Some(frame(5))))), FilterAction::Hold(Some(f)) if f == frame(5)));
}

#[test]
fn sink_step_decisions() {
    assert!(matches!(sink_step(SinkEvent::Resume(Some(frame(1)))), SinkAction::Push(f) if f == frame(1)));
    assert!(matches!(sink_step(SinkEvent::Resume(None)), SinkAction::Pull));
    assert!(matches!(sink_step(SinkEvent::Polled(Async::Ready(Some(frame(2))))), SinkAction::Push(f) if f == frame(2)));
    assert!(matches!(sink_step(SinkEvent::Polled(Async::Ready(None))), SinkAction::Close));
    assert!(matches!(sink_step(SinkEvent::Polled(Async::NotReady)), SinkAction::FlushThenPending));
    assert!(matches!(sink_step(SinkEvent::Pushed(AsyncSink::Ready)), SinkAction::Pull));
    assert!(matches!(sink_step(SinkEvent::Pushed(AsyncSink::NotReady(frame(6)))), SinkAction::Hold(f) if f == frame(6)));
    assert!(matches!(sink_step(SinkEvent::Closed(Async::Ready(()))), SinkAction::Complete));
    assert!(matches!(sink_step(SinkEvent::Closed(Async::NotReady)), SinkAction::Pending));
}

#[test]
fn filter_holds_rejected_item_and_still_emits() {
    let mut ff = ScriptSource::frames(&[0, 25]).forward_filter(FixedDurationFilter::new(10));
    assert!(matches!(ff.poll(), Ok(Async::Ready(Some(f))) if f == frame(0)));
    assert!(matches!(ff.poll(), Ok(Async::Ready(Some(f))) if f == frame(10)));
    // The end-marker is rejected while the transformer still holds 25 s, yet
    // the transformer's output comes out in the same poll.
    assert!(matches!(ff.poll(), Ok(Async::Ready(Some(f))) if f == frame(25)));
    assert!(ff.is_holding());
    assert_eq!(ff.source_ref().polls, 3);
    // The held end-marker is pushed again; the producer is not polled.
    let _ = ff.poll();
    assert_eq!(ff.source_ref().polls, 3);
}

#[test]
fn io_error_keeps_its_kind() {
    let err = std::io::Error::new(std::io::ErrorKind::BrokenPipe, "pipe closed");
    assert_eq!(Error::from(err), Error::IoError { kind: std::io::ErrorKind::BrokenPipe });
}
