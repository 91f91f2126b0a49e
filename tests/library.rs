use optimized_hd2sd::batch::{batch_bounds, batch_count};
use optimized_hd2sd::collect::{candidate, candidate_indices, Entry};
use optimized_hd2sd::naming::{contains_marker, derived_file_name, strip_marker_from};
use optimized_hd2sd::process::{next_stage, Event, FileJob, Finish, Stage};

fn entry(path: &str, is_file: bool) -> Entry {
    Entry { path: path.to_string(), is_file }
}

#[test]
fn marker_found_anywhere_in_text() {
    assert!(contains_marker("icon@2x.png"));
    assert!(contains_marker("skins/a@2x/b.png"));
    assert!(contains_marker("@2x"));
    assert!(!contains_marker("note.txt"));
    assert!(!contains_marker("icon@2.png"));
    assert!(!contains_marker("@x2"));
    assert!(!contains_marker(""));
}

#[test]
fn strip_marker_matches_str_replace() {
    let names = [
        "icon@2x.png", "a@2xb@2x.png", "@@2x2x", "@2x@2x", "plain.png", "", "@2", "x@2x",
        "héllo@2x.png", "@2x2x",
    ];
    for name in names {
        assert_eq!(strip_marker_from(name), name.replace("@2x", ""));
    }
}

#[test]
fn derived_name_removes_marker() {
    assert_eq!(derived_file_name("icon@2x.png"), Some("icon.png".to_string()));
    assert_eq!(derived_file_name("a@2xb@2x.png"), Some("ab.png".to_string()));
    assert_eq!(derived_file_name("@@2x2x.png"), Some("@2x.png".to_string()));
    assert_eq!(derived_file_name("button-left@2x.jpg"), Some("button-left.jpg".to_string()));
}

#[test]
fn derived_name_differs_from_original() {
    for name in ["icon@2x.png", "@2x", "@2x@2x.png", "x@2x@2x@2x"] {
        let d = derived_file_name(name).unwrap();
        assert_ne!(d, name);
        assert!(d.len() < name.len());
    }
}

#[test]
fn no_derived_name_without_marker() {
    assert_eq!(derived_file_name("note.txt"), None);
    assert_eq!(derived_file_name("icon.png"), None);
    assert_eq!(derived_file_name(""), None);
}

#[test]
fn batch_count_is_ceiling() {
    assert_eq!(batch_count(0, 20), 0);
    assert_eq!(batch_count(1, 20), 1);
    assert_eq!(batch_count(20, 20), 1);
    assert_eq!(batch_count(21, 20), 2);
    assert_eq!(batch_count(45, 20), 3);
    assert_eq!(batch_count(40, 20), 2);
    assert_eq!(batch_count(7, 1), 7);
    assert_eq!(batch_count(usize::MAX, 2), usize::MAX / 2 + 1);
    assert_eq!(batch_count(usize::MAX, usize::MAX), 1);
}

#[test]
fn batch_bounds_cover_items_in_order() {
    assert_eq!(batch_bounds(45, 20), vec![(0, 20), (20, 40), (40, 45)]);
    assert_eq!(batch_bounds(40, 20), vec![(0, 20), (20, 40)]);
    assert_eq!(batch_bounds(3, 5), vec![(0, 3)]);
    assert_eq!(batch_bounds(0, 20), vec![]);
    assert_eq!(batch_bounds(3, 1), vec![(0, 1), (1, 2), (2, 3)]);
}

#[test]
fn last_batch_holds_remainder() {
    for n in 1..60usize {
        for b in 1..25usize {
            let bounds = batch_bounds(n, b);
            assert_eq!(bounds.len(), (n + b - 1) / b);
            let (s, e) = *bounds.last().unwrap();
            let expected = if n % b == 0 { b } else { n % b };
            assert_eq!(e - s, expected);
            assert_eq!(e, n);
        }
    }
}

#[test]
fn candidates_are_marked_files_only() {
    let entries = vec![
        entry("dir/icon@2x.png", true),
        entry("dir/note.txt", true),
        entry("dir/folder@2x", false),
        entry("dir/folder@2x/inner.png", true),
        entry("dir/icon.png", true),
    ];
    assert_eq!(candidate_indices(&entries), vec![0, 3]);
    assert!(candidate(&entries[0]));
    assert!(!candidate(&entries[1]));
    assert!(!candidate(&entries[2]));
    assert_eq!(candidate_indices(&vec![]), Vec::<usize>::new());
}

#[test]
fn decoded_size_is_halved() {
    let d = |w, h| next_stage(Stage::Decode, Event::Decoded { width: w, height: h }, false, true);
    assert_eq!(d(64, 64), Stage::Downscale { width: 32, height: 32 });
    assert_eq!(d(3, 5), Stage::Downscale { width: 1, height: 2 });
    assert_eq!(d(101, 3), Stage::Downscale { width: 50, height: 1 });
    assert_eq!(d(u32::MAX, u32::MAX), Stage::Downscale { width: u32::MAX / 2, height: u32::MAX / 2 });
}

#[test]
fn one_pixel_side_is_too_small() {
    let d = |w, h| next_stage(Stage::Decode, Event::Decoded { width: w, height: h }, false, true);
    assert_eq!(d(1, 1), Stage::Done(Finish::TooSmall));
    assert_eq!(d(1, 64), Stage::Done(Finish::TooSmall));
    assert_eq!(d(64, 1), Stage::Done(Finish::TooSmall));
    assert_eq!(d(0, 0), Stage::Done(Finish::TooSmall));
}

#[test]
fn failures_end_only_at_their_stage() {
    assert_eq!(next_stage(Stage::OptimizeOriginal, Event::Failed, false, true), Stage::Decode);
    assert_eq!(next_stage(Stage::Decode, Event::Failed, false, true), Stage::Done(Finish::DecodeFailed));
    assert_eq!(next_stage(Stage::Save, Event::Failed, false, true), Stage::Done(Finish::SaveFailed));
    assert_eq!(
        next_stage(Stage::OptimizeDerivative, Event::Failed, false, true),
        Stage::Done(Finish::SavedUnoptimized)
    );
    assert_eq!(
        next_stage(Stage::Downscale { width: 2, height: 2 }, Event::Succeeded, false, false),
        Stage::Done(Finish::NoDerivedName)
    );
    assert_eq!(
        next_stage(Stage::Done(Finish::Optimized), Event::Failed, true, true),
        Stage::Done(Finish::Optimized)
    );
}

#[test]
fn preserve_keeps_existing_derivative() {
    let mut kept = FileJob::new("icon@2x.png", true);
    kept.stage = Stage::CheckExisting;
    kept.advance(Event::Exists(true));
    assert_eq!(kept.stage, Stage::Done(Finish::Preserved));

    let mut absent = FileJob::new("icon@2x.png", true);
    absent.stage = Stage::CheckExisting;
    absent.advance(Event::Exists(false));
    assert_eq!(absent.stage, Stage::Save);

    let mut overwrite = FileJob::new("icon@2x.png", false);
    overwrite.stage = Stage::CheckExisting;
    overwrite.advance(Event::Exists(true));
    assert_eq!(overwrite.stage, Stage::Save);
}

#[test]
fn original_recompressed_whether_or_not_preserving() {
    assert_eq!(FileJob::new("icon@2x.png", true).stage, Stage::OptimizeOriginal);
    assert_eq!(FileJob::new("icon@2x.png", false).stage, Stage::OptimizeOriginal);
}

#[test]
fn icon_scenario_runs_to_optimized_half_size() {
    let mut job = FileJob::new("icon@2x.png", false);
    assert_eq!(job.derived_name, Some("icon.png".to_string()));
    job.advance(Event::Succeeded);
    assert_eq!(job.stage, Stage::Decode);
    job.advance(Event::Decoded { width: 64, height: 64 });
    assert_eq!(job.stage, Stage::Downscale { width: 32, height: 32 });
    let img = image::DynamicImage::new_rgba8(64, 64);
    let scaled = job.downscale(&img).unwrap();
    assert_eq!((scaled.width, scaled.height), (32, 32));
    assert_eq!((scaled.image.width(), scaled.image.height()), (32, 32));
    assert_eq!(job.stage, Stage::CheckExisting);
    job.advance(Event::Exists(false));
    assert_eq!(job.stage, Stage::Save);
    job.advance(Event::Succeeded);
    assert_eq!(job.stage, Stage::OptimizeDerivative);
    job.advance(Event::Succeeded);
    assert_eq!(job.stage, Stage::Done(Finish::Optimized));
}

#[test]
fn downscale_resamples_to_odd_halves() {
    let mut job = FileJob::new("tall@2x.png", false);
    job.advance(Event::Succeeded);
    job.advance(Event::Decoded { width: 101, height: 7 });
    let img = image::DynamicImage::new_rgb8(101, 7);
    let scaled = job.downscale(&img).unwrap();
    assert_eq!((scaled.width, scaled.height), (50, 3));
    assert_eq!((scaled.image.width(), scaled.image.height()), (50, 3));
}

#[test]
fn downscale_outside_its_stage_does_nothing() {
    let mut job = FileJob::new("icon@2x.png", false);
    let img = image::DynamicImage::new_rgba8(4, 4);
    assert!(job.downscale(&img).is_none());
    assert_eq!(job.stage, Stage::OptimizeOriginal);
}

#[test]
fn note_file_is_never_a_candidate() {
    let entries = vec![entry("root/icon@2x.png", true), entry("root/note.txt", true)];
    assert_eq!(candidate_indices(&entries), vec![0]);
}

#[test]
fn decode_failure_isolated_to_its_file() {
    let mut bad = FileJob::new("broken@2x.png", false);
    let mut good = FileJob::new("icon@2x.png", false);
    bad.advance(Event::Succeeded);
    good.advance(Event::Succeeded);
    bad.advance(Event::Failed);
    good.advance(Event::Decoded { width: 8, height: 8 });
    assert_eq!(bad.stage, Stage::Done(Finish::DecodeFailed));
    assert_eq!(good.stage, Stage::Downscale { width: 4, height: 4 });
}

#[test]
fn downscale_keeps_orientation() {
    let mut job = FileJob::new("wide@2x.png", false);
    job.advance(Event::Succeeded);
    job.advance(Event::Decoded { width: 40, height: 10 });
    let img = image::DynamicImage::new_luma8(40, 10);
    let scaled = job.downscale(&img).unwrap();
    assert_eq!((scaled.image.width(), scaled.image.height()), (20, 5));
    assert_eq!(job.stage, Stage::CheckExisting);
}
