//! The decisions of the two logging loops: the interval camera, which
//! photographs the sky and records the weather with every photo, and the
//! weather logger, which records a fixed number of weather readings.
//!
//! The caller performs each action (the camera, the network, the disk, the
//! sleep) and reports its outcome as the next event.

use vstd::prelude::*;

verus! {

/// Where a capture cycle stands: what outcome it is waiting for.
#[derive(Clone, Copy, Debug, PartialEq, Eq, Structural)]
pub enum Phase {
    /// A photo is being taken and downloaded.
    Capturing,
    /// The weather is being fetched for a captured photo.
    Fetching,
    /// The processed photo is being saved.
    Saving,
    /// The photo's table row is being written and flushed.
    Writing,
    /// The cycle is over; the loop sleeps before the next one.
    Resting,
    /// No weather data came: the program stops.
    Aborted,
}

/// The outcome of the last action.
#[derive(Clone, Copy, Debug, PartialEq, Eq, Structural)]
pub enum CaptureEvent {
    CaptureFailed,
    Captured,
    WeatherMissing,
    WeatherFetched,
    SaveFailed,
    ImageSaved,
    RowFlushFailed,
    RowFlushed,
    /// The pause between cycles is over.
    Woke,
}

/// What to do next.
#[derive(Clone, Copy, Debug, PartialEq, Eq, Structural)]
pub enum CaptureAction {
    /// Take a photo (with its timestamp) and download it.
    Capture,
    /// Process the photo and fetch the weather.
    FetchWeather,
    /// Save the processed photo.
    SaveImage,
    /// Write the photo's table row and flush it.
    WriteRow,
    /// Sleep until the next cycle.
    Sleep,
    /// Stop the program.
    Abort,
}

/// The interval camera's loop: where the current cycle stands, and how many
/// cycles have ended.
#[derive(Clone, Copy, Debug, PartialEq, Eq, Structural)]
pub struct CaptureLoop {
    pub phase: Phase,
    pub photo_count: u32,
}

/// The event that the loop can receive in each phase.
pub open spec fn expects(phase: Phase, event: CaptureEvent) -> bool {
    match phase {
        Phase::Capturing => event == CaptureEvent::CaptureFailed || event == CaptureEvent::Captured,
        Phase::Fetching => event == CaptureEvent::WeatherMissing || event
            == CaptureEvent::WeatherFetched,
        Phase::Saving => event == CaptureEvent::SaveFailed || event == CaptureEvent::ImageSaved,
        Phase::Writing => event == CaptureEvent::RowFlushFailed || event
            == CaptureEvent::RowFlushed,
        Phase::Resting => event == CaptureEvent::Woke,
        Phase::Aborted => false,
    }
}

/// The phase and the action that follow an expected event: a failed
/// capture, save or flush ends the cycle, missing weather stops the
/// program, and success moves to the next step.
pub open spec fn transition(event: CaptureEvent) -> (Phase, CaptureAction) {
    match event {
        CaptureEvent::CaptureFailed => (Phase::Resting, CaptureAction::Sleep),
        CaptureEvent::Captured => (Phase::Fetching, CaptureAction::FetchWeather),
        CaptureEvent::WeatherMissing => (Phase::Aborted, CaptureAction::Abort),
        CaptureEvent::WeatherFetched => (Phase::Saving, CaptureAction::SaveImage),
        CaptureEvent::SaveFailed => (Phase::Resting, CaptureAction::Sleep),
        CaptureEvent::ImageSaved => (Phase::Writing, CaptureAction::WriteRow),
        CaptureEvent::RowFlushFailed => (Phase::Resting, CaptureAction::Sleep),
        CaptureEvent::RowFlushed => (Phase::Resting, CaptureAction::Sleep),
        CaptureEvent::Woke => (Phase::Capturing, CaptureAction::Capture),
    }
}

impl CaptureLoop {
    /// A loop about to take its first photo.
    pub fn new() -> (l: CaptureLoop)
        ensures
            l.phase == Phase::Capturing,
            l.photo_count == 0,
    {
        CaptureLoop { phase: Phase::Capturing, photo_count: 0 }
    }

    /// Moves the loop on by the outcome of its last action, and says what
    /// to do next. Every cycle that ends, ends in a sleep and counts once.
    pub fn step(&mut self, event: CaptureEvent) -> (action: CaptureAction)
        requires
            expects(old(self).phase, event),
            transition(event).1 == CaptureAction::Sleep ==> old(self).photo_count < u32::MAX,
        ensures
            (final(self).phase, action) == transition(event),
            final(self).photo_count == old(self).photo_count + (if action == CaptureAction::Sleep {
                1int
            } else {
                0int
            }),
    {
        let (phase, action) = match event {
            CaptureEvent::CaptureFailed => (Phase::Resting, CaptureAction::Sleep),
            CaptureEvent::Captured => (Phase::Fetching, CaptureAction::FetchWeather),
            CaptureEvent::WeatherMissing => (Phase::Aborted, CaptureAction::Abort),
            CaptureEvent::WeatherFetched => (Phase::Saving, CaptureAction::SaveImage),
            CaptureEvent::SaveFailed => (Phase::Resting, CaptureAction::Sleep),
            CaptureEvent::ImageSaved => (Phase::Writing, CaptureAction::WriteRow),
            CaptureEvent::RowFlushFailed => (Phase::Resting, CaptureAction::Sleep),
            CaptureEvent::RowFlushed => (Phase::Resting, CaptureAction::Sleep),
            CaptureEvent::Woke => (Phase::Capturing, CaptureAction::Capture),
        };
        self.phase = phase;
        if action == CaptureAction::Sleep {
            self.photo_count = self.photo_count + 1;
        }
        action
    }
}

/// The loop after a run of events from `l`, each expected in turn; `None`
/// if one is not.
pub open spec fn run(l: CaptureLoop, events: Seq<CaptureEvent>) -> Option<CaptureLoop>
    decreases events.len(),
{
    if events.len() == 0 {
        Some(l)
    } else if !expects(l.phase, events[0]) {
        None
    } else {
        let (phase, action) = transition(events[0]);
        let count = if action == CaptureAction::Sleep {
            l.photo_count + 1
        } else {
            l.photo_count as int
        };
        run(CaptureLoop { phase, photo_count: count as u32 }, events.drop_first())
    }
}

/// Law: a table row is written only for a photo that was just saved.
pub proof fn law_row_follows_saved_image(phase: Phase, event: CaptureEvent)
    requires
        expects(phase, event),
        transition(event).1 == CaptureAction::WriteRow,
    ensures
        phase == Phase::Saving,
        event == CaptureEvent::ImageSaved,
{
}

/// Law: once stopped for want of weather data, the loop accepts nothing
/// more.
pub proof fn law_abort_is_final(l: CaptureLoop, events: Seq<CaptureEvent>)
    requires
        l.phase == Phase::Aborted,
        events.len() > 0,
    ensures
        run(l, events) is None,
{
}

/// Law: from the start of a cycle, the expected events lead back to the
/// start of the next cycle through one sleep, counted once, or stop the
/// loop; a cycle takes at most four events before its sleep.
pub proof fn law_cycle_counts_once(l: CaptureLoop, events: Seq<CaptureEvent>)
    requires
        l.phase == Phase::Capturing,
        l.photo_count < u32::MAX,
        run(l, events) matches Some(e) && e.phase == Phase::Resting,
        forall|i: int|
            0 <= i < events.len() - 1 ==> transition(#[trigger] events[i]).1 != CaptureAction::Sleep,
    ensures
        run(l, events).unwrap().photo_count == l.photo_count + 1,
        events.len() <= 4,
    decreases events.len(),
{
    lemma_cycle_from(l, events);
}

/// The cycle law, for a run that starts anywhere before the sleep.
proof fn lemma_cycle_from(l: CaptureLoop, events: Seq<CaptureEvent>)
    requires
        l.phase == Phase::Capturing || l.phase == Phase::Fetching || l.phase == Phase::Saving
            || l.phase == Phase::Writing,
        l.photo_count < u32::MAX,
        run(l, events) matches Some(e) && e.phase == Phase::Resting,
        forall|i: int|
            0 <= i < events.len() - 1 ==> transition(#[trigger] events[i]).1 != CaptureAction::Sleep,
    ensures
        run(l, events).unwrap().photo_count == l.photo_count + 1,
        events.len() <= match l.phase {
            Phase::Capturing => 4int,
            Phase::Fetching => 3int,
            Phase::Saving => 2int,
            _ => 1int,
        },
    decreases events.len(),
{
    let ev = events[0];
    let (phase, action) = transition(ev);
    let count = if action == CaptureAction::Sleep {
        l.photo_count + 1
    } else {
        l.photo_count as int
    };
    let next = CaptureLoop { phase, photo_count: count as u32 };
    if action == CaptureAction::Sleep {
        if events.len() > 1 {
            assert(transition(events[0]).1 != CaptureAction::Sleep);
        }
        assert(run(next, events.drop_first()) == run(l, events));
        if events.len() > 1 {
            assert(expects(Phase::Resting, events.drop_first()[0]));
            reveal_with_fuel(run, 2);
        }
    } else {
        assert forall|i: int| 0 <= i < events.drop_first().len() - 1 implies transition(
            #[trigger] events.drop_first()[i],
        ).1 != CaptureAction::Sleep by {
            assert(events.drop_first()[i] == events[i + 1]);
        }
        lemma_cycle_from(next, events.drop_first());
    }
}

/// The weather logger's loop: how many rounds have run, of how many.
#[derive(Clone, Copy, Debug, PartialEq, Eq, Structural)]
pub struct WeatherLog {
    pub rounds: u32,
    pub limit: u32,
}

/// What the weather logger does next.
#[derive(Clone, Copy, Debug, PartialEq, Eq, Structural)]
pub enum LogStep {
    /// Fetch a reading and record it, then sleep.
    Fetch,
    /// Stop: all rounds have run.
    Finish,
}

impl WeatherLog {
    /// A logger that will run `limit` rounds.
    pub fn new(limit: u32) -> (log: WeatherLog)
        ensures
            log.rounds == 0,
            log.limit == limit,
    {
        WeatherLog { rounds: 0, limit }
    }

    pub open spec fn wf(self) -> bool {
        self.rounds <= self.limit
    }

    /// Fetch while rounds remain; stop once `limit` have run.
    pub fn next_step(&self) -> (s: LogStep)
        requires
            self.wf(),
        ensures
            s == (if self.rounds == self.limit {
                LogStep::Finish
            } else {
                LogStep::Fetch
            }),
    {
        if self.rounds == self.limit {
            LogStep::Finish
        } else {
            LogStep::Fetch
        }
    }

    /// Counts a finished round, whatever its reading gave.
    pub fn finish_round(&mut self)
        requires
            old(self).wf(),
            old(self).rounds < old(self).limit,
        ensures
            final(self).wf(),
            final(self).limit == old(self).limit,
            final(self).rounds == old(self).rounds + 1,
    {
        self.rounds = self.rounds + 1;
    }
}

} // verus!
