//! Whether feeds are being fetched, since when, and what to show of it.

use std::time::Instant;
use vstd::prelude::*;

verus! {

/// How long the notice stays after the fetch has ended, in seconds.
pub const NOTICE_SECS: u64 = 3;

/// How long the spinner shows one frame, in milliseconds.
pub const FRAME_MILLIS: u128 = 80;

/// The state of a fetch: running since `start_time`, or ended at `finish_time`.
#[derive(Debug, Clone, Copy)]
pub struct LoadingState {
    pub is_loading: bool,
    pub start_time: Instant,
    pub finish_time: Option<Instant>,
}

/// The frames of the spinner, in the order in which they are shown.
pub open spec fn spinner_frames() -> Seq<Seq<char>> {
    seq!["⠋"@, "⠙"@, "⠹"@, "⠸"@, "⠼"@, "⠴"@, "⠦"@, "⠧"@, "⠇"@, "⠏"@]
}

/// What the spinner shows `millis` milliseconds into a fetch: nothing when no fetch
/// runs, else the frames in turn, each for `FRAME_MILLIS`.
pub open spec fn frame_at(is_loading: bool, millis: int) -> Seq<char> {
    if is_loading {
        spinner_frames()[(millis / (FRAME_MILLIS as int)) % 10]
    } else {
        Seq::empty()
    }
}

/// Whether the notice of the fetch is shown: while the fetch runs, and for `NOTICE_SECS`
/// after its end, which was `since_finish` seconds ago.
pub open spec fn notice_shown(is_loading: bool, since_finish: Option<u64>) -> bool {
    is_loading || (since_finish matches Some(secs) && secs < NOTICE_SECS)
}

/// Whether the notice of the fetch is shown: while the fetch runs, and for three seconds
/// after its end, which was `since_finish` seconds ago.
pub fn show_notice(is_loading: bool, since_finish: Option<u64>) -> (r: bool)
    ensures
        r == notice_shown(is_loading, since_finish),
{
    if is_loading {
        return true;
    }
    match since_finish {
        Some(secs) => secs < NOTICE_SECS,
        None => false,
    }
}

/// What the spinner shows `millis` milliseconds into a fetch.
pub fn spinner_frame_at(is_loading: bool, millis: u128) -> (r: &'static str)
    ensures
        r@ == frame_at(is_loading, millis as int),
{
    if !is_loading {
        proof {
            reveal_strlit("");
        }
        assert(""@ =~= Seq::<char>::empty());
        return "";
    }
    let frames = ["⠋", "⠙", "⠹", "⠸", "⠼", "⠴", "⠦", "⠧", "⠇", "⠏"];
    let index: usize = ((millis / FRAME_MILLIS) % 10) as usize;
    frames[index]
}

impl LoadingState {
    /// A fetch that starts now.
    pub fn new() -> (r: Self)
        ensures
            r.is_loading,
            r.finish_time is None,
    {
        LoadingState { is_loading: true, start_time: Instant::now(), finish_time: None }
    }

    /// Starts a fetch now.
    pub fn start(&mut self)
        ensures
            final(self).is_loading,
            final(self).finish_time is None,
    {
        self.is_loading = true;
        self.start_time = Instant::now();
        self.finish_time = None;
    }

    /// Ends the fetch now.
    pub fn stop(&mut self)
        ensures
            !final(self).is_loading,
            final(self).finish_time is Some,
            final(self).start_time == old(self).start_time,
    {
        self.is_loading = false;
        self.finish_time = Some(Instant::now());
    }

    /// The seconds since the fetch started.
    pub fn elapsed_secs(&self) -> u64 {
        self.start_time.elapsed().as_secs()
    }

    /// Whether the notice of the fetch is shown: while the fetch runs, and for three
    /// seconds after its end. A fetch that never ran has no notice.
    pub fn should_show_popup(&self) -> (r: bool)
        ensures
            self.is_loading ==> r,
            !self.is_loading && self.finish_time is None ==> !r,
    {
        let since_finish = match self.finish_time {
            Some(finish) => Some(finish.elapsed().as_secs()),
            None => None,
        };
        show_notice(self.is_loading, since_finish)
    }

    /// What the spinner shows now: nothing when no fetch runs, else one of its frames.
    pub fn spinner_frame(&self) -> (r: &'static str)
        ensures
            !self.is_loading ==> r@.len() == 0,
            self.is_loading ==> exists|k: int| 0 <= k < 10 && r@ == #[trigger] spinner_frames()[k],
    {
        if !self.is_loading {
            return spinner_frame_at(false, 0);
        }
        let millis = self.start_time.elapsed().as_millis();
        let r = spinner_frame_at(true, millis);
        assert(r@ == spinner_frames()[(millis as int / (FRAME_MILLIS as int)) % 10]);
        r
    }
}

} // verus!
