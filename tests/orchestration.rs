use std::collections::HashMap;

use fimfic_tracker::args::Prompt;
use fimfic_tracker::download::{classify, DownloadRun, Event, Step};
use fimfic_tracker::track::TrackRun;
use fimfic_tracker::{SensibilityLevel, Story, StoryData, StoryStatus};

fn story(id: u32, chapters: u64, words: u64, status: StoryStatus) -> Story {
    Story {
        id,
        title: format!("Story {}", id),
        author: "Author".into(),
        chapter_count: chapters,
        words,
        update_datetime: 1600000000,
        status,
    }
}

fn describe(step: &Step) -> String {
    match step {
        Step::Confirm(s) => format!("confirm {}", s.id),
        Step::Lookup(id) => format!("lookup {}", id),
        Step::Pause => "pause".to_string(),
        Step::Deliver(s) => format!("deliver {}", s.id),
        Step::Done => "done".to_string(),
    }
}

/// Runs a download to the end against `remote`, answering every question with `answer`.
fn run_download(
    run: &mut DownloadRun,
    data: &mut StoryData,
    remote: &HashMap<u32, Story>,
    answer: bool,
) -> Vec<String> {
    let mut log = Vec::new();
    let mut event = Event::Start;
    loop {
        let step = run.step(data, event).expect("run should not fail");
        log.push(describe(&step));
        event = match step {
            Step::Confirm(_) => Event::Confirmed(answer),
            Step::Lookup(id) => Event::Fetched(remote[&id].clone()),
            Step::Pause => Event::Paused,
            Step::Deliver(_) => Event::Delivered,
            Step::Done => break,
        };
    }
    log
}

fn run_track(
    run: &mut TrackRun,
    data: &mut StoryData,
    remote: &HashMap<u32, Story>,
    answer: bool,
) -> Vec<String> {
    let mut log = Vec::new();
    let mut event = Event::Start;
    loop {
        let step = run.step(data, event).expect("run should not fail");
        log.push(describe(&step));
        event = match step {
            Step::Confirm(_) => Event::Confirmed(answer),
            Step::Lookup(id) => Event::Fetched(remote[&id].clone()),
            Step::Pause => Event::Paused,
            Step::Deliver(_) => Event::Delivered,
            Step::Done => break,
        };
    }
    log
}

#[test]
fn words_only_update_below_level_is_merged_not_delivered() {
    let mut data = StoryData::new("x");
    data.insert(1, story(1, 3, 1000, StoryStatus::Incomplete));
    let mut remote = HashMap::new();
    remote.insert(1, story(1, 3, 1500, StoryStatus::Incomplete));

    let mut run = DownloadRun::new(&data, &vec![], false, Prompt::Ask, SensibilityLevel::OnlyChapters);
    let log = run_download(&mut run, &mut data, &remote, true);
    assert_eq!(log, vec!["lookup 1", "done"]);
    assert!(run.plan.is_empty());
    assert_eq!(data.get(1).unwrap().words, 1500);
}

#[test]
fn words_only_update_at_include_words_is_delivered() {
    let mut data = StoryData::new("x");
    data.insert(1, story(1, 3, 1000, StoryStatus::Incomplete));
    let mut remote = HashMap::new();
    remote.insert(1, story(1, 3, 1500, StoryStatus::Incomplete));

    let mut run = DownloadRun::new(&data, &vec![], false, Prompt::Ask, SensibilityLevel::IncludeWords);
    let log = run_download(&mut run, &mut data, &remote, true);
    assert_eq!(log, vec!["lookup 1", "deliver 1", "done"]);
    assert_eq!(data.get(1).unwrap().words, 1500);
}

#[test]
fn forced_run_delivers_everything_in_ledger_order_with_pauses() {
    let mut data = StoryData::new("x");
    let mut remote = HashMap::new();
    for id in [30, 10, 20] {
        data.insert(id, story(id, 2, 500, StoryStatus::Incomplete));
        remote.insert(id, story(id, 2, 500, StoryStatus::Incomplete));
    }
    let mut run = DownloadRun::new(&data, &vec![], true, Prompt::Ask, SensibilityLevel::Anything);
    let log = run_download(&mut run, &mut data, &remote, true);
    assert_eq!(
        log,
        vec![
            "lookup 30", "lookup 10", "lookup 20", "deliver 30", "pause", "deliver 10", "pause",
            "deliver 20", "done",
        ]
    );
}

#[test]
fn nothing_to_download_without_force() {
    let mut data = StoryData::new("x");
    let mut remote = HashMap::new();
    for id in [1, 2] {
        data.insert(id, story(id, 2, 500, StoryStatus::Incomplete));
        remote.insert(id, story(id, 2, 500, StoryStatus::Incomplete));
    }
    let mut run = DownloadRun::new(&data, &vec![], false, Prompt::Ask, SensibilityLevel::Anything);
    let log = run_download(&mut run, &mut data, &remote, true);
    assert_eq!(log, vec!["lookup 1", "lookup 2", "done"]);
}

#[test]
fn complete_story_with_assume_no_is_ignored_and_not_looked_up() {
    let mut data = StoryData::new("x");
    data.insert(1, story(1, 4, 900, StoryStatus::Complete));
    data.insert(2, story(2, 4, 900, StoryStatus::Incomplete));
    let mut remote = HashMap::new();
    remote.insert(2, story(2, 5, 900, StoryStatus::Incomplete));

    let mut run = DownloadRun::new(&data, &vec![], true, Prompt::AssumeNo, SensibilityLevel::OnlyChapters);
    assert_eq!(run.ignored, vec![1]);
    let log = run_download(&mut run, &mut data, &remote, true);
    assert_eq!(log, vec!["lookup 2", "deliver 2", "done"]);
    assert_eq!(data.get(2).unwrap().chapter_count, 5);
    assert_eq!(data.get(1).unwrap().chapter_count, 4);
}

#[test]
fn asking_about_a_finished_story_and_declining_skips_it() {
    let mut data = StoryData::new("x");
    data.insert(1, story(1, 4, 900, StoryStatus::Hiatus));
    data.insert(2, story(2, 4, 900, StoryStatus::Incomplete));
    let mut remote = HashMap::new();
    remote.insert(1, story(1, 5, 900, StoryStatus::Hiatus));
    remote.insert(2, story(2, 4, 900, StoryStatus::Incomplete));

    let mut run = DownloadRun::new(&data, &vec![], false, Prompt::Ask, SensibilityLevel::OnlyChapters);
    let log = run_download(&mut run, &mut data, &remote, false);
    assert_eq!(log, vec!["confirm 1", "lookup 2", "done"]);

    let mut run = DownloadRun::new(&data, &vec![], false, Prompt::AssumeYes, SensibilityLevel::OnlyChapters);
    let log = run_download(&mut run, &mut data, &remote, false);
    assert_eq!(log, vec!["lookup 1", "lookup 2", "deliver 1", "done"]);
}

#[test]
fn requested_ids_outside_the_ledger_are_dropped() {
    let mut data = StoryData::new("x");
    data.insert(1, story(1, 1, 1, StoryStatus::Incomplete));
    data.insert(2, story(2, 1, 1, StoryStatus::Incomplete));
    let run = DownloadRun::new(&data, &vec![2, 99], false, Prompt::Ask, SensibilityLevel::Anything);
    assert_eq!(run.selected, vec![2]);
}

#[test]
fn status_change_is_merged_on_delivery() {
    let mut data = StoryData::new("x");
    data.insert(1, story(1, 1, 1, StoryStatus::Incomplete));
    let mut remote = HashMap::new();
    remote.insert(1, story(1, 2, 1, StoryStatus::Complete));
    let mut run = DownloadRun::new(&data, &vec![], false, Prompt::Ask, SensibilityLevel::OnlyChapters);
    let mut event = Event::Start;
    let mut delivered_before_merge = None;
    loop {
        let step = run.step(&mut data, event).unwrap();
        event = match step {
            Step::Lookup(id) => Event::Fetched(remote[&id].clone()),
            Step::Deliver(s) => {
                delivered_before_merge = Some(data.get(s.id).unwrap().chapter_count);
                Event::Delivered
            }
            Step::Done => break,
            _ => unreachable!(),
        };
    }
    assert_eq!(delivered_before_merge, Some(1));
    assert_eq!(data.get(1).unwrap().chapter_count, 2);
    assert_eq!(data.get(1).unwrap().status, StoryStatus::Complete);
}

#[test]
fn mismatched_snapshot_fails_the_run_and_keeps_state() {
    let mut data = StoryData::new("x");
    data.insert(1, story(1, 1, 1, StoryStatus::Incomplete));
    let mut run = DownloadRun::new(&data, &vec![], false, Prompt::Ask, SensibilityLevel::Anything);
    assert!(matches!(run.step(&mut data, Event::Start), Ok(Step::Lookup(1))));
    let err = run.step(&mut data, Event::Fetched(story(2, 1, 1, StoryStatus::Incomplete)));
    assert!(err.is_err());
    assert!(run.step(&mut data, Event::Delivered).is_err());
}

#[test]
fn classification_reports_changes_below_level() {
    let stored = story(1, 3, 100, StoryStatus::Incomplete);
    let mut fetched = story(1, 3, 200, StoryStatus::Complete);
    fetched.title = "New title".into();
    let c = classify(&stored, &fetched, SensibilityLevel::OnlyChapters).unwrap();
    assert!(c.update.is_some());
    assert!(c.title_changed);
    assert!(!c.author_changed);
    assert!(c.status_changed);
    assert!(!c.queued);
    assert!(c.staged());
}

#[test]
fn track_declined_overwrite_leaves_entry_and_skips_lookup() {
    let mut data = StoryData::new("x");
    data.insert(1, story(1, 1, 1, StoryStatus::Incomplete));
    let mut remote = HashMap::new();
    remote.insert(2, story(2, 7, 7, StoryStatus::Incomplete));
    let mut run = TrackRun::new(vec![1, 2], false, false);
    let log = run_track(&mut run, &mut data, &remote, false);
    assert_eq!(log, vec!["confirm 1", "lookup 2", "deliver 2", "done"]);
    assert_eq!(data.get(1).unwrap().chapter_count, 1);
    assert_eq!(data.keys(), vec![1, 2]);
}

#[test]
fn track_overwrite_and_repeats() {
    let mut data = StoryData::new("x");
    data.insert(1, story(1, 1, 1, StoryStatus::Incomplete));
    let mut remote = HashMap::new();
    remote.insert(1, story(1, 9, 9, StoryStatus::Incomplete));
    remote.insert(3, story(3, 3, 3, StoryStatus::Incomplete));
    let mut run = TrackRun::new(vec![1, 3, 3], true, false);
    let log = run_track(&mut run, &mut data, &remote, false);
    assert_eq!(
        log,
        vec!["lookup 1", "lookup 3", "lookup 3", "deliver 1", "pause", "deliver 3", "pause", "deliver 3", "done"]
    );
    assert_eq!(data.get(1).unwrap().chapter_count, 9);
    assert_eq!(data.keys(), vec![1, 3]);

    let mut run = TrackRun::new(vec![5, 5], false, true);
    remote.insert(5, story(5, 1, 1, StoryStatus::Incomplete));
    let log = run_track(&mut run, &mut data, &remote, false);
    assert_eq!(log, vec!["lookup 5", "confirm 5", "done"]);
}

#[test]
fn track_rejects_a_snapshot_of_another_story() {
    let mut data = StoryData::new("x");
    let mut run = TrackRun::new(vec![4], false, false);
    assert!(matches!(run.step(&mut data, Event::Start), Ok(Step::Lookup(4))));
    let err = run.step(&mut data, Event::Fetched(story(5, 1, 1, StoryStatus::Incomplete)));
    assert!(err.is_err());
    assert!(data.is_empty());
    assert!(matches!(
        run.step(&mut data, Event::Fetched(story(4, 1, 1, StoryStatus::Incomplete))),
        Ok(Step::Deliver(_))
    ));
    assert_eq!(data.keys(), vec![4]);
}
