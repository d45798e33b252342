use deck_images::codec::{decode_png, encode_png};
use deck_images::compose::{card_back, compose_border, border_color, BORDER_WIDTH};
use deck_images::deck::{parse_deck_list, DeckEntry};
use deck_images::error::{IoStage, PipelineError};
use deck_images::layout::{back_file, image_file, saved_line, total_line, unique_line};
use deck_images::pipeline::{border_card, encode_back, Action, Event, Phase, Run};

fn card_png(seed: u8) -> Vec<u8> {
    let img = image::RgbaImage::from_fn(745, 1040, |x, y| {
        image::Rgba([seed, (x % 251) as u8, (y % 241) as u8, ((x + y) % 256) as u8])
    });
    let mut out = std::io::Cursor::new(Vec::new());
    img.write_to(&mut out, image::ImageFormat::Png).unwrap();
    out.into_inner()
}

fn small_png() -> Vec<u8> {
    let img = image::RgbaImage::from_pixel(10, 10, image::Rgba([1, 2, 3, 4]));
    let mut out = std::io::Cursor::new(Vec::new());
    img.write_to(&mut out, image::ImageFormat::Png).unwrap();
    out.into_inner()
}

fn entries(list: &[&str]) -> Vec<DeckEntry> {
    let lines: Vec<String> = list.iter().map(|l| String::from(*l)).collect();
    parse_deck_list(&lines).unwrap()
}

fn found(name: &str) -> Event {
    Event::Found { name: String::from(name) }
}

/// Drives a run with cards that are all found under their own names, and
/// gives every file that it was asked to write, with the last action.
fn drive(list: &[&str]) -> (Vec<(String, Vec<u8>)>, Action) {
    let mut run = Run::start(entries(list)).unwrap();
    let mut action = run.pending();
    let mut files = Vec::new();
    loop {
        let event = match action {
            Action::ClearOutput => Event::Cleared,
            Action::LookUpCard { entry } => found(run.entries()[entry].name()),
            Action::DownloadImage { entry } => Event::Downloaded { png: card_png(entry as u8) },
            Action::WriteCopy { page, slot } => {
                files.push((image_file(page, slot), run.image().clone()));
                Event::Written
            }
            Action::WriteBack => {
                files.push((back_file(), run.image().clone()));
                Event::Written
            }
            Action::Finish { .. } | Action::Abort { .. } => return (files, action),
        };
        let next = run.step(event);
        run = next.0;
        action = next.1;
    }
}

#[test]
fn border_card_is_decode_compose_encode() {
    let png = card_png(9);
    let source = decode_png(&png).unwrap();
    let bordered = compose_border(&source, BORDER_WIDTH, border_color()).unwrap();
    assert_eq!(border_card(&png).unwrap(), encode_png(&bordered).unwrap());
}

#[test]
fn border_card_gives_an_opaque_picture_of_817_by_1112() {
    let out = border_card(&card_png(1)).unwrap();
    let back = image::load_from_memory_with_format(&out, image::ImageFormat::Png).unwrap();
    assert_eq!(back.color(), image::ColorType::Rgb8);
    assert_eq!((back.width(), back.height()), (817, 1112));
}

#[test]
fn border_card_refuses_bad_bytes() {
    assert_eq!(
        border_card(b"garbage").err(),
        Some(PipelineError::Io { stage: IoStage::Decode })
    );
}

#[test]
fn border_card_refuses_another_size() {
    assert_eq!(
        border_card(&small_png()).err(),
        Some(PipelineError::DimensionMismatch { width: 10, height: 10 })
    );
}

#[test]
fn encode_back_is_the_encoded_card_back() {
    assert_eq!(encode_back().unwrap(), encode_png(&card_back()).unwrap());
}

#[test]
fn a_run_begins_by_clearing_the_output() {
    let run = Run::start(entries(&["2 Lightning Bolt (lea) 1"])).unwrap();
    assert_eq!(run.phase(), Phase::Clearing);
    assert_eq!(run.pending(), Action::ClearOutput);
    assert_eq!(run.global_index(), 0);
    let run = Run::start(Vec::new()).unwrap();
    assert_eq!(run.pending(), Action::ClearOutput);
}

#[test]
fn a_run_needs_a_total_that_fits() {
    let big = DeckEntry::new(String::from("A"), String::from("a"), 1, usize::MAX).unwrap();
    assert!(Run::start(vec![big]).is_none());
    let most = DeckEntry::new(String::from("A"), String::from("a"), 1, usize::MAX - 1).unwrap();
    assert!(Run::start(vec![most]).is_some());
}

#[test]
fn a_missing_output_root_is_no_failure() {
    let run = Run::start(entries(&["1 Counterspell (leb) 2"])).unwrap();
    let (run, action) = run.step(Event::Absent);
    assert_eq!(action, Action::LookUpCard { entry: 0 });
    assert_eq!(run.phase(), Phase::Lookup);
    let run = Run::start(entries(&["1 Counterspell (leb) 2"])).unwrap();
    let (_, action) = run.step(Event::Cleared);
    assert_eq!(action, Action::LookUpCard { entry: 0 });
}

#[test]
fn a_failed_cleanup_aborts() {
    let run = Run::start(entries(&["1 Counterspell (leb) 2"])).unwrap();
    let (run, action) = run.step(Event::Failed);
    assert_eq!(action, Action::Abort { error: PipelineError::Io { stage: IoStage::Cleanup } });
    assert_eq!(run.phase(), Phase::Aborted);
}

#[test]
fn end_to_end_two_entries() {
    let list = ["2 Lightning Bolt (lea) 1", "1 Counterspell (leb) 2"];
    let parsed = entries(&list);
    assert_eq!(unique_line(parsed.len()), "parsed 2 unique cards");
    assert_eq!(
        total_line(deck_images::deck::total_copies(&parsed).unwrap()),
        "parsed 3 total cards"
    );
    let (files, last) = drive(&list);
    let bolt = border_card(&card_png(0)).unwrap();
    let counterspell = border_card(&card_png(1)).unwrap();
    assert_ne!(bolt, counterspell);
    assert_eq!(files.len(), 4);
    assert_eq!(files[0], (String::from("output/deck0/image0.png"), bolt.clone()));
    assert_eq!(files[1], (String::from("output/deck0/image1.png"), bolt));
    assert_eq!(files[2], (String::from("output/deck0/image2.png"), counterspell));
    assert_eq!(files[3], (String::from("output/back.png"), encode_back().unwrap()));
    assert_eq!(last, Action::Finish { saved: 4, unique: 2 });
    assert_eq!(saved_line(4), "saved 4 images");
}

#[test]
fn page_rollover_with_613_copies() {
    let (files, last) = drive(&["613 Lightning Bolt (lea) 1"]);
    assert_eq!(files.len(), 614);
    for slot in 0..612 {
        assert_eq!(files[slot].0, format!("output/deck0/image{}.png", slot));
    }
    assert_eq!(files[611].0, "output/deck0/image611.png");
    assert_eq!(files[612].0, "output/deck1/image0.png");
    assert_eq!(files[613].0, "output/back.png");
    assert_eq!(last, Action::Finish { saved: 614, unique: 1 });
}

#[test]
fn the_copies_of_an_entry_are_written_at_consecutive_indices_with_the_same_bytes() {
    let run = Run::start(entries(&["3 A (a) 1", "5 B (b) 2"])).unwrap();
    let (run, _) = run.step(Event::Cleared);
    let (run, _) = run.step(found("A"));
    let (mut run, mut action) = run.step(Event::Downloaded { png: card_png(3) });
    for _ in 0..3 {
        let next = run.step(Event::Written);
        run = next.0;
        action = next.1;
    }
    assert_eq!(action, Action::LookUpCard { entry: 1 });
    assert_eq!(run.global_index(), 3);
    let (run, action) = run.step(found("B"));
    assert_eq!(action, Action::DownloadImage { entry: 1 });
    let (mut run, mut action) = run.step(Event::Downloaded { png: card_png(4) });
    let bytes = run.image().clone();
    assert_eq!(bytes, border_card(&card_png(4)).unwrap());
    for k in 0..5 {
        assert_eq!(run.phase(), Phase::Writing);
        assert_eq!(run.global_index(), 3 + k);
        assert_eq!(action, Action::WriteCopy { page: 0, slot: 3 + k });
        assert_eq!(run.image(), &bytes);
        let next = run.step(Event::Written);
        run = next.0;
        action = next.1;
    }
    assert_eq!(action, Action::WriteBack);
    assert_eq!(run.global_index(), 8);
    assert_eq!(run.image(), &encode_back().unwrap());
}

#[test]
fn an_empty_list_writes_the_card_back_alone() {
    let (files, last) = drive(&[]);
    assert_eq!(files.len(), 1);
    assert_eq!(files[0].0, "output/back.png");
    assert_eq!(last, Action::Finish { saved: 1, unique: 0 });
}

#[test]
fn another_name_aborts_before_the_download() {
    let run = Run::start(entries(&["1 A (a) 1", "2 Lightning Bolt (lea) 1"])).unwrap();
    let (run, _) = run.step(Event::Cleared);
    let (run, _) = run.step(found("A"));
    let (run, _) = run.step(Event::Downloaded { png: card_png(0) });
    let (run, action) = run.step(Event::Written);
    assert_eq!(action, Action::LookUpCard { entry: 1 });
    let (run, action) = run.step(found("Lightning Bolt "));
    assert_eq!(action, Action::Abort { error: PipelineError::LookupMismatch { entry: 1 } });
    assert_eq!(run.phase(), Phase::Aborted);
    assert_eq!(run.global_index(), 1);
}

#[test]
fn a_card_of_another_size_aborts() {
    let run = Run::start(entries(&["1 A (a) 1"])).unwrap();
    let (run, _) = run.step(Event::Cleared);
    let (run, _) = run.step(found("A"));
    let (_, action) = run.step(Event::Downloaded { png: small_png() });
    assert_eq!(
        action,
        Action::Abort { error: PipelineError::DimensionMismatch { width: 10, height: 10 } }
    );
}

#[test]
fn bad_image_bytes_abort() {
    let run = Run::start(entries(&["1 A (a) 1"])).unwrap();
    let (run, _) = run.step(Event::Cleared);
    let (run, _) = run.step(found("A"));
    let (_, action) = run.step(Event::Downloaded { png: vec![1, 2, 3] });
    assert_eq!(action, Action::Abort { error: PipelineError::Io { stage: IoStage::Decode } });
}

#[test]
fn a_failed_lookup_or_download_aborts() {
    let run = Run::start(entries(&["1 A (a) 1"])).unwrap();
    let (run, _) = run.step(Event::Cleared);
    let (_, action) = run.step(Event::Failed);
    assert_eq!(action, Action::Abort { error: PipelineError::Io { stage: IoStage::Fetch } });
    let run = Run::start(entries(&["1 A (a) 1"])).unwrap();
    let (run, _) = run.step(Event::Cleared);
    let (run, _) = run.step(found("A"));
    let (_, action) = run.step(Event::Failed);
    assert_eq!(action, Action::Abort { error: PipelineError::Io { stage: IoStage::Fetch } });
}

#[test]
fn a_failed_write_aborts_and_nothing_follows() {
    let run = Run::start(entries(&["2 A (a) 1", "1 B (b) 2"])).unwrap();
    let (run, _) = run.step(Event::Cleared);
    let (run, _) = run.step(found("A"));
    let (run, _) = run.step(Event::Downloaded { png: card_png(0) });
    let (run, action) = run.step(Event::Written);
    assert_eq!(action, Action::WriteCopy { page: 0, slot: 1 });
    let (run, action) = run.step(Event::Failed);
    let abort = Action::Abort { error: PipelineError::Io { stage: IoStage::Write } };
    assert_eq!(action, abort);
    assert_eq!(run.global_index(), 1);
    let (run, action) = run.step(Event::Written);
    assert_eq!(action, abort);
    let (run, action) = run.step(found("B"));
    assert_eq!(action, abort);
    let (run, action) = run.step(Event::Cleared);
    assert_eq!(action, abort);
    assert_eq!(run.phase(), Phase::Aborted);
    assert_eq!(run.global_index(), 1);
}

#[test]
fn a_failed_card_back_aborts() {
    let run = Run::start(Vec::new()).unwrap();
    let (run, action) = run.step(Event::Cleared);
    assert_eq!(action, Action::WriteBack);
    assert_eq!(run.phase(), Phase::Backing);
    let (_, action) = run.step(Event::Failed);
    assert_eq!(action, Action::Abort { error: PipelineError::Io { stage: IoStage::Write } });
}

#[test]
fn an_event_that_answers_no_pending_step_counts_as_its_failure() {
    let run = Run::start(entries(&["1 A (a) 1"])).unwrap();
    let (_, action) = run.step(Event::Written);
    assert_eq!(action, Action::Abort { error: PipelineError::Io { stage: IoStage::Cleanup } });
    let run = Run::start(entries(&["1 A (a) 1"])).unwrap();
    let (run, _) = run.step(Event::Cleared);
    let (_, action) = run.step(Event::Downloaded { png: card_png(0) });
    assert_eq!(action, Action::Abort { error: PipelineError::Io { stage: IoStage::Fetch } });
}

#[test]
fn a_finished_run_stays_finished() {
    let run = Run::start(Vec::new()).unwrap();
    let (run, _) = run.step(Event::Cleared);
    let (run, action) = run.step(Event::Written);
    assert_eq!(action, Action::Finish { saved: 1, unique: 0 });
    let (run, action) = run.step(Event::Failed);
    assert_eq!(action, Action::Finish { saved: 1, unique: 0 });
    assert_eq!(run.phase(), Phase::Finished);
    assert_eq!(run.pending(), Action::Finish { saved: 1, unique: 0 });
}

#[test]
fn two_runs_on_the_same_list_ask_for_the_same_files() {
    let list = ["2 Lightning Bolt (lea) 1", "1 Counterspell (leb) 2"];
    let first = drive(&list);
    let second = drive(&list);
    assert_eq!(first.0, second.0);
    assert_eq!(first.1, second.1);
}
