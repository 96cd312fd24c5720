use podcast_dl::episode::{extract_metadata, Episode};
use podcast_dl::filename::{compose_filename, compose_from_parts, date_prefix, pub_date_prefix_of, PubDate};
use podcast_dl::paths::{join_path, metadata_filename};
use podcast_dl::pool::{DownloadPool, Outcome, Slot};
use podcast_dl::progress::progress_message;
use podcast_dl::sanitize::{clean_character, is_white_space, sanitize_filename};
use podcast_dl::schedule::{episodes_without_enclosure, plan_downloads};
use podcast_dl::task::{Action, DownloadTask, Event, Phase};

const RESERVED: [char; 9] = ['<', '>', ':', '"', '/', '\\', '|', '?', '*'];

fn episode(title: Option<&str>, url: Option<&str>, date: Option<&str>) -> Episode {
    Episode {
        title: title.map(|s| s.to_string()),
        link: None,
        description: None,
        author: None,
        categories: Vec::new(),
        enclosure_url: url.map(|s| s.to_string()),
        guid: None,
        pub_date: date.map(|s| s.to_string()),
        duration: None,
    }
}

#[test]
fn sanitize_replaces_reserved_characters() {
    assert_eq!(sanitize_filename("Hello/World"), "Hello_World");
    assert_eq!(sanitize_filename("a<b>c:d\"e/f\\g|h?i*j"), "a_b_c_d_e_f_g_h_i_j");
}

#[test]
fn sanitize_collapses_and_trims_whitespace() {
    assert_eq!(sanitize_filename("  Episode\t1 \n\r  part   two  "), "Episode 1 part two");
    assert_eq!(sanitize_filename("a\u{A0}\u{3000}b"), "a b");
}

#[test]
fn sanitize_of_empty_and_blank() {
    assert_eq!(sanitize_filename(""), "");
    assert_eq!(sanitize_filename(" \t\n "), "");
}

#[test]
fn sanitize_is_idempotent_on_samples() {
    for s in ["  x / y ?? z  ", "\t<>\t", "plain", "a  b\u{2003}c", ""] {
        let once = sanitize_filename(s);
        assert_eq!(sanitize_filename(&once), once);
        assert!(!once.chars().any(|c| RESERVED.contains(&c)));
    }
}

#[test]
fn character_helpers() {
    assert_eq!(clean_character('?'), '_');
    assert_eq!(clean_character('\n'), ' ');
    assert_eq!(clean_character('x'), 'x');
    assert!(is_white_space('\u{85}'));
    assert!(!is_white_space('_'));
}

#[test]
fn compose_with_rfc2822_date() {
    let name = compose_filename(
        Some("Mon, 02 Jan 2006 15:04:05 +0000"),
        Some("Hello/World"),
        "https://x.com/ep.mp3",
    );
    assert_eq!(name, "2006-01-02 - Hello_World.mp3");
}

#[test]
fn compose_with_unparsable_date() {
    let name = compose_filename(Some("not-a-date"), Some("Hello/World"), "https://x.com/ep.mp3");
    assert_eq!(name, "Hello_World.mp3");
}

#[test]
fn compose_extension_and_title_from_url() {
    let name = compose_filename(None, Some("Hello/World"), "https://x.com/ep.mp3");
    assert_eq!(name, "Hello_World.mp3");
    assert!(name.ends_with(".mp3"));
}

#[test]
fn compose_takes_extension_of_last_segment() {
    assert_eq!(compose_filename(None, Some("t"), "https://x.com/a/show.m4a"), "t.m4a");
    assert_eq!(compose_filename(None, Some("t"), "https://x.com/a/show"), "t.mp3");
}

#[test]
fn compose_with_nothing_given() {
    assert_eq!(compose_filename(None, None, ""), "Unknown Episode.mp3");
}

#[test]
fn compose_keeps_date_offset_local() {
    let name = compose_filename(Some("Tue, 03 Jan 2006 23:30:00 -0700"), Some("Late"), "u/x.wav");
    assert_eq!(name, "2006-01-03 - Late.wav");
}

#[test]
fn date_prefix_formats() {
    let d = PubDate { year: 2006, month: 1, day: 2 };
    assert_eq!(date_prefix(Some(d), None), "2006-01-02 - ");
    assert_eq!(date_prefix(None, Some(PubDate { year: 5, month: 11, day: 30 })), "0005-11-30 - ");
    assert_eq!(date_prefix(Some(PubDate { year: 12345, month: 1, day: 2 }), None), "+12345-01-02 - ");
    assert_eq!(date_prefix(Some(PubDate { year: -5, month: 1, day: 2 }), None), "-0005-01-02 - ");
    assert_eq!(date_prefix(None, None), "");
    assert_eq!(
        date_prefix(Some(d), Some(PubDate { year: 1999, month: 12, day: 31 })),
        "2006-01-02 - "
    );
}

#[test]
fn pub_date_prefix_values() {
    assert_eq!(pub_date_prefix_of(None), "");
    assert_eq!(pub_date_prefix_of(Some("")), "");
    assert_eq!(pub_date_prefix_of(Some("Sat, 31 Dec 2022 08:00:00 GMT")), "2022-12-31 - ");
}

#[test]
fn compose_from_parts_values() {
    assert_eq!(compose_from_parts("P", Some(" a:b "), Some("ogg")), "Pa_b.ogg");
    assert_eq!(compose_from_parts("", None, None), "Unknown Episode.mp3");
}

#[test]
fn metadata_file_names() {
    assert_eq!(metadata_filename("ep1.mp3"), "ep1.json");
    assert_eq!(metadata_filename("ep1.wav"), "ep1.json");
    assert_eq!(metadata_filename("ep1.m4a"), "ep1.json");
    assert_eq!(metadata_filename("ep1.ogg"), "ep1.ogg.json");
    assert_eq!(metadata_filename("a.mp3 b.mp3"), "a.mp3 b.json");
    assert_eq!(metadata_filename("a.mp3.b.mp3"), "a.mp3.b.json");
    assert_eq!(metadata_filename("mp3"), "mp3.json");
    assert_eq!(metadata_filename(".wav"), ".json");
    assert_eq!(metadata_filename(""), ".json");
}

#[test]
fn join_paths() {
    assert_eq!(join_path("out/Show", "ep.mp3"), "out/Show/ep.mp3");
}

#[test]
fn metadata_record_fields() {
    let mut e = episode(Some("T"), Some("https://x/a.mp3"), Some("d"));
    e.categories = vec!["news".to_string(), "tech".to_string()];
    e.guid = Some("g".to_string());
    let m = extract_metadata(&e);
    assert_eq!(m.title, "T");
    assert_eq!(m.file_url, "https://x/a.mp3");
    assert_eq!(m.pub_date.as_deref(), Some("d"));
    assert_eq!(m.guid.as_deref(), Some("g"));
    assert_eq!(m.categories, vec!["news".to_string(), "tech".to_string()]);
    let bare = extract_metadata(&episode(None, None, None));
    assert_eq!(bare.title, "Unknown Title");
    assert_eq!(bare.file_url, "");
    assert!(bare.description.is_none());
}

#[test]
fn plan_caps_at_count_in_feed_order() {
    let eps: Vec<Episode> = (0..5)
        .map(|i| episode(Some(&format!("E{}", i)), Some(&format!("https://x/{}.mp3", i)), None))
        .collect();
    let plan = plan_downloads(&eps, Some(2));
    assert_eq!(plan.len(), 2);
    assert_eq!(plan[0].index, 0);
    assert_eq!(plan[1].index, 1);
    assert_eq!(plan[0].filename, "E0.mp3");
    assert_eq!(plan[1].url, "https://x/1.mp3");
}

#[test]
fn plan_skips_episodes_without_enclosure() {
    let eps = vec![
        episode(Some("A"), None, None),
        episode(Some("B"), Some("https://x/b.m4a"), None),
        episode(Some("C"), None, None),
        episode(Some("D"), Some("https://x/d"), None),
        episode(Some("E"), Some("https://x/e.mp3"), None),
    ];
    let plan = plan_downloads(&eps, Some(2));
    assert_eq!(plan.iter().map(|p| p.index).collect::<Vec<_>>(), vec![1, 3]);
    assert_eq!(plan[0].filename, "B.m4a");
    assert_eq!(plan[1].filename, "D.mp3");
    let all = plan_downloads(&eps, None);
    assert_eq!(all.len(), 3);
    assert_eq!(plan_downloads(&eps, Some(0)).len(), 0);
    assert_eq!(plan_downloads(&Vec::new(), None).len(), 0);
}

#[test]
fn task_skips_existing_destination() {
    let mut t = DownloadTask::new(true);
    assert_eq!(t.first_action(), Action::AcquireSlot);
    assert_eq!(t.advance(Event::SlotAcquired), Action::CheckDestination);
    assert_eq!(t.advance(Event::DestinationChecked { exists: true }), Action::Stop);
    assert_eq!(t.phase, Phase::Skipped);
    assert_eq!(t.advance(Event::ResponseReceived { content_length: Some(3) }), Action::Stop);
    assert_eq!(t.phase, Phase::Skipped);
}

#[test]
fn task_completes_download() {
    let mut t = DownloadTask::new(true);
    t.advance(Event::SlotAcquired);
    assert_eq!(t.advance(Event::DestinationChecked { exists: false }), Action::SaveMetadata);
    assert_eq!(t.advance(Event::MetadataHandled), Action::Fetch);
    assert_eq!(t.advance(Event::ResponseReceived { content_length: Some(10) }), Action::ReadChunk);
    assert_eq!(t.total, Some(10));
    assert_eq!(t.advance(Event::ChunkWritten { len: 4 }), Action::ReadChunk);
    assert_eq!(t.advance(Event::ChunkWritten { len: 6 }), Action::ReadChunk);
    assert_eq!(t.downloaded, 10);
    assert_eq!(t.advance(Event::StreamEnded), Action::Stop);
    assert_eq!(t.phase, Phase::Completed);
    assert!(t.is_finished());
}

#[test]
fn task_without_metadata_and_unknown_size() {
    let mut t = DownloadTask::new(false);
    t.advance(Event::SlotAcquired);
    assert_eq!(t.advance(Event::DestinationChecked { exists: false }), Action::Fetch);
    t.advance(Event::ResponseReceived { content_length: Some(0) });
    assert_eq!(t.total, None);
    t.advance(Event::ChunkWritten { len: u64::MAX });
    t.advance(Event::ChunkWritten { len: 5 });
    assert_eq!(t.downloaded, u64::MAX);
}

#[test]
fn task_fails_on_error_and_ignores_unexpected_events() {
    let mut t = DownloadTask::new(false);
    assert_eq!(t.advance(Event::StreamEnded), Action::AcquireSlot);
    assert_eq!(t.phase, Phase::Pending);
    t.advance(Event::SlotAcquired);
    t.advance(Event::DestinationChecked { exists: false });
    assert_eq!(t.advance(Event::Error), Action::Stop);
    assert_eq!(t.phase, Phase::Failed);
}

#[test]
fn pool_never_exceeds_capacity() {
    let mut p = DownloadPool::new(5, 2);
    let mut peak = 0;
    let mut started = Vec::new();
    while let Some(i) = p.start_next() {
        started.push(i);
        peak = peak.max(p.running_count());
    }
    assert_eq!(started, vec![0, 1]);
    assert_eq!(peak, 2);
    p.finish(0, Outcome::Completed);
    assert_eq!(p.start_next(), Some(2));
    assert_eq!(p.start_next(), None);
    assert!(p.running_count() <= 2);
}

#[test]
fn pool_failure_does_not_block_others() {
    let mut p = DownloadPool::new(3, 2);
    let a = p.start_next().unwrap();
    let b = p.start_next().unwrap();
    p.finish(a, Outcome::Failed);
    let c = p.start_next().unwrap();
    p.finish(b, Outcome::Completed);
    p.finish(c, Outcome::Completed);
    assert!(p.is_drained());
    assert_eq!(p.slot(a), Slot::Done(Outcome::Failed));
    assert_eq!(p.slot(b), Slot::Done(Outcome::Completed));
    assert_eq!(p.slot(c), Slot::Done(Outcome::Completed));
    assert_eq!(p.len(), 3);
}

#[test]
fn pool_with_zero_capacity_starts_nothing() {
    let mut p = DownloadPool::new(2, 0);
    assert_eq!(p.start_next(), None);
    assert!(!p.is_drained());
    assert!(DownloadPool::new(0, 1).is_drained());
}

#[test]
fn progress_lines() {
    assert_eq!(progress_message(0, 5, "Downloading", "a.mp3"), "[1/5] Downloading: a.mp3");
    assert_eq!(progress_message(11, 120, "Skipped", "b"), "[12/120] Skipped: b");
}

#[test]
fn notices_for_missing_enclosures_stop_at_cap() {
    let eps = vec![
        episode(Some("A"), None, None),
        episode(Some("B"), Some("https://x/b.mp3"), None),
        episode(Some("C"), None, None),
        episode(Some("D"), Some("https://x/d.mp3"), None),
        episode(Some("E"), None, None),
    ];
    assert_eq!(episodes_without_enclosure(&eps, Some(1)), vec![0]);
    assert_eq!(episodes_without_enclosure(&eps, Some(2)), vec![0, 2]);
    assert_eq!(episodes_without_enclosure(&eps, Some(3)), vec![0, 2, 4]);
    assert_eq!(episodes_without_enclosure(&eps, None), vec![0, 2, 4]);
    assert_eq!(episodes_without_enclosure(&eps, Some(0)), Vec::<usize>::new());
}
