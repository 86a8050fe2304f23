use std::time::Duration;
use vstd::prelude::*;

verus! {

/// A timestamped unit of media data.
#[derive(PartialEq, Debug)]
pub struct MediaFrame {
    pub pts: Duration,
}

/// Builds a `MediaFrame`; the timestamp starts at zero.
pub struct MediaFrameBuilder {
    pts: Duration,
}

/// The duration of a whole number of seconds.
pub uninterp spec fn duration_of_secs(secs: u64) -> Duration;

/// Relies on `Duration::from_secs`: the duration of `secs` seconds, a function
/// of `secs` alone; it does not panic.
pub assume_specification[ core::time::Duration::from_secs ](secs: u64) -> (r: Duration)
    ensures
        r == duration_of_secs(secs),
;

impl MediaFrame {
    pub fn new(pts: Duration) -> (r: Self)
        ensures
            r.pts == pts,
    {
        MediaFrame { pts: pts }
    }

    pub fn builder() -> (r: MediaFrameBuilder)
        ensures
            r.pts_spec() == duration_of_secs(0),
    {
        MediaFrameBuilder::default()
    }
}

impl MediaFrameBuilder {
    pub closed spec fn pts_spec(&self) -> Duration {
        self.pts
    }

    pub(crate) fn new() -> (r: Self)
        ensures
            r.pts_spec() == duration_of_secs(0),
    {
        MediaFrameBuilder { pts: Duration::from_secs(0) }
    }

    pub fn pts(self, pts: Duration) -> (r: Self)
        ensures
            r.pts_spec() == pts,
    {
        let mut b = self;
        b.pts = pts;
        b
    }

    pub fn build(self) -> (r: MediaFrame)
        ensures
            r.pts == self.pts_spec(),
    {
        MediaFrame::new(self.pts)
    }
}

impl Default for MediaFrameBuilder {
    fn default() -> (r: Self)
        ensures
            r.pts_spec() == duration_of_secs(0),
    {
        MediaFrameBuilder::new()
    }
}

} // verus!
