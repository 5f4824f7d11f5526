use ascii_art::art::AsciiArtGenerator;
use ascii_art::raster::RgbImg;
use ascii_art::schedule::{ScheduledTask, Stage, StagedPipeline, TaskKind, TimingEventKeeper};

/// A fake host timer: it hands out ids and records registrations and
/// cancellations, like the timeout/interval primitives of an event loop.
struct FakeTimerHost {
    next_id: i64,
    registered: Vec<(i64, u64)>,
    cleared_timeouts: Vec<i64>,
    cleared_intervals: Vec<i64>,
}

impl FakeTimerHost {
    fn new() -> Self {
        FakeTimerHost { next_id: 1, registered: Vec::new(), cleared_timeouts: Vec::new(), cleared_intervals: Vec::new() }
    }

    fn set_timeout(&mut self, delay: u64) -> i64 {
        let id = self.next_id;
        self.next_id += 1;
        self.registered.push((id, delay));
        id
    }

    fn clear(&mut self, task: ScheduledTask) {
        match task.kind {
            TaskKind::OneShot => self.cleared_timeouts.push(task.id),
            TaskKind::Repeating => self.cleared_intervals.push(task.id),
        }
    }
}

fn black_generator(width: u32, height: u32) -> AsciiArtGenerator {
    AsciiArtGenerator {
        min_level: 78,
        max_level: 125,
        gamma_centi: 78,
        width,
        height,
        img: RgbImg::from_raw(width, height, vec![0; (3 * width * height) as usize]).expect("raw"),
    }
}

#[test]
fn keeper_records_and_releases_every_task() {
    let mut keeper = TimingEventKeeper::new();
    keeper.add(5);
    keeper.add_repetitive(7);
    keeper.add(9);
    let cancelled = keeper.release();
    assert_eq!(
        cancelled,
        vec![
            ScheduledTask { id: 5, kind: TaskKind::OneShot },
            ScheduledTask { id: 7, kind: TaskKind::Repeating },
            ScheduledTask { id: 9, kind: TaskKind::OneShot },
        ]
    );
    // The registry is empty afterwards: a second release cancels nothing.
    assert_eq!(keeper.release(), vec![]);
}

#[test]
fn releasing_mid_run_cancels_the_pending_stage() {
    // Drive one stage, then release: the still-pending deferred task is
    // actively cancelled, so no further observer runs.
    let mut host = FakeTimerHost::new();
    let mut keeper = TimingEventKeeper::new();
    let gen = black_generator(2, 2);
    let (mut run, first_delay) = StagedPipeline::start(gen, 50);
    let id = host.set_timeout(first_delay);
    keeper.add(id);

    // The first timer fires: run the stage, defer the next.
    let mut observed: usize = 0;
    let next = run.step().expect("next stage pending");
    observed += 1;
    let id = host.set_timeout(next);
    keeper.add(id);

    // Release before the second timer fires.
    for task in keeper.release() {
        host.clear(task);
    }
    let registered: Vec<i64> = host.registered.iter().map(|r| r.0).collect();
    assert_eq!(host.cleared_timeouts, registered);
    assert_eq!(host.cleared_intervals, vec![]);
    // With every id cleared, the host fires nothing further: the observer
    // count stays where it was.
    assert_eq!(observed, 1);
    assert_eq!(run.stage, Stage::Resized);
}

#[test]
fn scheduled_delays_are_multiples_of_the_step_delay() {
    let mut host = FakeTimerHost::new();
    let gen = black_generator(2, 2);
    let (mut run, first_delay) = StagedPipeline::start(gen, 50);
    host.set_timeout(first_delay);
    while let Some(delay) = run.step() {
        host.set_timeout(delay);
    }
    let delays: Vec<u64> = host.registered.iter().map(|r| r.1).collect();
    assert_eq!(delays, vec![50, 100, 150, 200]);
    assert_eq!(run.stage, Stage::Done);
}

#[test]
fn zero_step_delay_runs_synchronously() {
    let gen = black_generator(2, 2);
    let (mut run, first_delay) = StagedPipeline::start(gen, 0);
    assert_eq!(first_delay, 0);
    let mut count = 0;
    loop {
        let next = run.step();
        count += 1;
        match next {
            Some(d) => assert_eq!(d, 0),
            None => break,
        }
    }
    assert_eq!(count, 4);
}

#[test]
fn solid_black_run_emits_the_corrected_row_count_of_whitespace() {
    // A solid black 2x2 source with the default configuration: corrected
    // height is round(2 * 6 / 11) = 1, so one row of two glyphs. The blend
    // of black with its inverted blur is one half, above the default high
    // threshold, so every glyph is the whitespace (sparsest) entry.
    let gen = black_generator(2, 2);
    let (mut run, _) = StagedPipeline::start(gen, 0);
    while run.step().is_some() {}
    assert_eq!(run.rows.len(), 1);
    assert_eq!(run.rows, vec!["  ".to_string()]);
}

#[test]
fn solid_white_run_is_all_whitespace() {
    let img = RgbImg::from_raw(2, 2, vec![255; 12]).expect("raw");
    let gen = AsciiArtGenerator {
        min_level: 78,
        max_level: 125,
        gamma_centi: 78,
        width: 2,
        height: 2,
        img,
    };
    let (mut run, _) = StagedPipeline::start(gen, 0);
    while run.step().is_some() {}
    assert_eq!(run.rows, vec!["  ".to_string()]);
}

#[test]
fn stage_images_are_exposed_in_order() {
    let gen = black_generator(3, 3);
    let (mut run, _) = StagedPipeline::start(gen, 10);
    assert!(run.resized.is_none());
    run.step();
    let resized = run.resized.as_ref().expect("resized output");
    assert_eq!(resized.width, 3);
    assert_eq!(resized.height, 2); // round(3 * 6 / 11) = 2
    assert_eq!(run.stage, Stage::Resized);
    run.step();
    let blurred = run.blurred.as_ref().expect("blurred output");
    // Blurring solid black gives black; inversion gives white.
    assert!(blurred.data.iter().all(|&b| b == 255));
    run.step();
    let blended = run.blended.as_ref().expect("blended output");
    // avg(0, 255) = 1/2 lies above the default high threshold: white.
    assert!(blended.data.iter().all(|&b| b == 255));
    run.step();
    assert_eq!(run.stage, Stage::Done);
    assert_eq!(run.rows.len(), 2);
}
