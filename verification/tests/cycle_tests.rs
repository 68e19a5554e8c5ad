use sky_watch::cycle::{CaptureAction, CaptureEvent, CaptureLoop, LogStep, Phase, WeatherLog};

#[test]
fn successful_cycle() {
    let mut l = CaptureLoop::new();
    assert_eq!(l.step(CaptureEvent::Captured), CaptureAction::FetchWeather);
    assert_eq!(l.step(CaptureEvent::WeatherFetched), CaptureAction::SaveImage);
    assert_eq!(l.step(CaptureEvent::ImageSaved), CaptureAction::WriteRow);
    assert_eq!(l.step(CaptureEvent::RowFlushed), CaptureAction::Sleep);
    assert_eq!(l.photo_count, 1);
    assert_eq!(l.phase, Phase::Resting);
    assert_eq!(l.step(CaptureEvent::Woke), CaptureAction::Capture);
    assert_eq!(l.phase, Phase::Capturing);
}

#[test]
fn failed_capture_is_counted_and_slept_off() {
    let mut l = CaptureLoop::new();
    assert_eq!(l.step(CaptureEvent::CaptureFailed), CaptureAction::Sleep);
    assert_eq!(l.photo_count, 1);
}

#[test]
fn failed_save_writes_no_row() {
    let mut l = CaptureLoop::new();
    l.step(CaptureEvent::Captured);
    l.step(CaptureEvent::WeatherFetched);
    assert_eq!(l.step(CaptureEvent::SaveFailed), CaptureAction::Sleep);
    assert_eq!(l.photo_count, 1);
}

#[test]
fn failed_flush_ends_the_cycle() {
    let mut l = CaptureLoop::new();
    l.step(CaptureEvent::Captured);
    l.step(CaptureEvent::WeatherFetched);
    l.step(CaptureEvent::ImageSaved);
    assert_eq!(l.step(CaptureEvent::RowFlushFailed), CaptureAction::Sleep);
    assert_eq!(l.photo_count, 1);
}

#[test]
fn missing_weather_aborts() {
    let mut l = CaptureLoop::new();
    l.step(CaptureEvent::Captured);
    assert_eq!(l.step(CaptureEvent::WeatherMissing), CaptureAction::Abort);
    assert_eq!(l.phase, Phase::Aborted);
    assert_eq!(l.photo_count, 0);
}

#[test]
fn logger_runs_five_rounds() {
    let mut log = WeatherLog::new(5);
    let mut fetches = 0;
    while log.next_step() == LogStep::Fetch {
        fetches += 1;
        log.finish_round();
    }
    assert_eq!(fetches, 5);
    assert_eq!(log.rounds, 5);
    assert_eq!(log.next_step(), LogStep::Finish);
}
