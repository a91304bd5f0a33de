use std::collections::HashMap;

use comick::api::chapter::{Chapter as ChapterDetail, ChapterResponse, Image};
use comick::api::comic::{ChaptersResponse, Chapter, Comic, ComicResponse, FirstChapter, Status};
use comick::archive::{
    chapter_address, chapters_address, comic_address, filter_by_language, folder_to_create, image_address,
    plan_chapter, prepare_filename, render, Action, Archive, ArchiveRun, Event, Phase,
};
use comick::text::{decimal_string, is_numeric, pad, replace};
use comick::{log_level_for, version_text, LogLevel};

const DEFAULT_OUTPUT: &str =
    "{series_name}/Vol-{volume_number}/Ch-{chapter_number}/{series_name}-{volume_number}-{chapter_number}-{image_seq}.jpg";

fn config() -> Archive {
    Archive {
        output: DEFAULT_OUTPUT.to_string(),
        slug: "example-series".to_string(),
        language: "en".to_string(),
        api_url: "https://api.comick.fun".to_string(),
        image_url: "https://meo3.comick.pictures".to_string(),
    }
}

fn listed(hid: &str, chap: &str, lang: &str) -> Chapter {
    Chapter { id: 0, chap: chap.to_string(), lang: lang.to_string(), hid: hid.to_string() }
}

fn detail(hid: &str, chap: &str, vol: Option<&str>, keys: &[&str]) -> ChapterDetail {
    ChapterDetail {
        id: 1,
        chap: chap.to_string(),
        vol: vol.map(|v| v.to_string()),
        title: None,
        hid: hid.to_string(),
        chapter_id: None,
        created_at: String::new(),
        updated_at: String::new(),
        crawled_at: String::new(),
        mdid: None,
        comment_count: 0,
        up_count: 0,
        down_count: 0,
        status: "ok".to_string(),
        adsense: false,
        lang: "en".to_string(),
        md_images: keys.iter().map(|k| Image { b2key: k.to_string() }).collect(),
    }
}

fn comic_response(hid: &str, title: &str) -> ComicResponse {
    ComicResponse {
        first_chap: FirstChapter {},
        comic: Comic {
            hid: hid.to_string(),
            title: title.to_string(),
            country: "jp".to_string(),
            status: Status::Ongoing,
            links: HashMap::new(),
            chapter_count: 2,
            demographic: None,
            hentai: false,
            user_follow_count: 0,
            follow_rank: 0,
            comment_count: 0,
            follow_count: 0,
            desc: String::new(),
            parsed: String::new(),
            slug: "example-series".to_string(),
            year: 2020,
            bayesian_rating: String::new(),
            rating_count: 0,
            content_rating: "safe".to_string(),
            translation_completed: false,
            chapter_numbers_reset_on_new_volume_manual: false,
            final_chapter: String::new(),
            final_volume: String::new(),
            noindex: false,
        },
        artists: vec![],
        authors: vec![],
        lang_list: vec!["en".to_string()],
        demographic: None,
        english_link: None,
        mature_content: false,
    }
}

#[test]
fn create_blub() {
    let volumen_number = "1";
    let with_leading_zero = pad(volumen_number);

    assert_eq!("001", &with_leading_zero);
}

#[test]
fn render_pads_chapter_not_series() {
    assert_eq!(render("{series_name}-{chapter_number}.jpg", "My Manga", None, "1", 0), "My Manga-001.jpg");
}

#[test]
fn render_image_index_width() {
    assert_eq!(render("{image_seq}", "X", None, "1", 12), "012");
    assert_eq!(render("{image_seq}", "X", None, "1", 1234), "1234");
    assert_eq!(render("{image_seq}", "X", None, "1", 0), "000");
}

#[test]
fn render_missing_volume_is_none() {
    assert_eq!(render("{volume_number}", "X", None, "1", 0), "none");
    assert_eq!(render("{volume_number}", "X", Some("2"), "1", 0), "002");
    assert_eq!(render("{volume_number}", "X", Some("abcd"), "1", 0), "abcd");
    assert_eq!(render("{volume_number}", "X", Some("ab"), "1", 0), "ab");
    assert_eq!(render("{volume_number}-{chapter_number}", "X", Some("7"), "v2", 0), "007-v2");
}

#[test]
fn render_default_template() {
    assert_eq!(
        render(DEFAULT_OUTPUT, "My Manga", Some("3"), "10.5", 7),
        "My Manga/Vol-003/Ch-10.5/My Manga-003-10.5-007.jpg"
    );
}

#[test]
fn render_leaves_unknown_tokens() {
    assert_eq!(render("{unknown}/{series_name}{series_name}", "S", None, "1", 0), "{unknown}/SS");
    assert_eq!(render("plain.jpg", "S", None, "1", 0), "plain.jpg");
}

#[test]
fn prepare_filename_uses_chapter_fields() {
    let c = detail("h1", "2", None, &["k0"]);
    assert_eq!(prepare_filename("{volume_number}-{chapter_number}-{image_seq}", "T", &c, 3), "none-002-003");
}

#[test]
fn replace_scans_left_to_right() {
    assert_eq!(replace("aaa", "aa", "X"), "Xa");
    assert_eq!(replace("", "a", "X"), "");
    assert_eq!(replace("abcabc", "bc", ""), "aa");
}

#[test]
fn decimal_text() {
    assert_eq!(decimal_string(0), "0");
    assert_eq!(decimal_string(907), "907");
    assert_eq!(pad("1234"), "1234");
    assert_eq!(pad(""), "000");
    assert_eq!(pad("1a"), "1a");
    assert!(is_numeric("012"));
    assert!(!is_numeric("1.5"));
}

#[test]
fn folders_to_create() {
    assert_eq!(folder_to_create("a/b/c.jpg"), Some("a/b".to_string()));
    assert_eq!(folder_to_create("c.jpg"), None);
    assert_eq!(folder_to_create("/c.jpg"), None);
    assert_eq!(folder_to_create("a/"), Some("a".to_string()));
}

#[test]
fn addresses() {
    assert_eq!(comic_address("https://api", "s"), "https://api/comic/s");
    assert_eq!(chapters_address("https://api", "h"), "https://api/comic/h/chapters");
    assert_eq!(chapter_address("https://api", "h"), "https://api/chapter/h");
    assert_eq!(image_address("https://img", "k.jpg"), "https://img/k.jpg");
}

#[test]
fn filter_keeps_language_in_order() {
    let chapters = vec![listed("a", "1", "en"), listed("b", "2", "en"), listed("c", "3", "fr")];
    let kept = filter_by_language(chapters, "en");
    assert_eq!(kept.len(), 2);
    assert_eq!(kept[0].hid, "a");
    assert_eq!(kept[1].hid, "b");
    let none = filter_by_language(vec![listed("a", "1", "EN")], "en");
    assert!(none.is_empty());
}

#[test]
fn plan_one_job_per_image() {
    let c = detail("h1", "1", Some("2"), &["x.jpg", "y.jpg", "z.jpg"]);
    let jobs = plan_chapter(&config(), "S", &c);
    assert_eq!(jobs.len(), 3);
    assert_eq!(jobs[0].path, "S/Vol-002/Ch-001/S-002-001-000.jpg");
    assert_eq!(jobs[2].path, "S/Vol-002/Ch-001/S-002-001-002.jpg");
    assert_eq!(jobs[1].folder, Some("S/Vol-002/Ch-001".to_string()));
    assert_eq!(jobs[1].url, "https://meo3.comick.pictures/y.jpg");
    assert!(plan_chapter(&config(), "S", &detail("h", "1", None, &[])).is_empty());
}

fn saved_path(action: Action) -> String {
    match action {
        Action::SaveImage(job) => job.path,
        _ => panic!("expected an image to save"),
    }
}

#[test]
fn end_to_end_run() {
    let mut run = ArchiveRun::new(config());
    match run.step(Event::Begin) {
        Action::FetchComic(u) => assert_eq!(u, "https://api.comick.fun/comic/example-series"),
        _ => panic!("expected the comic request"),
    }
    match run.step(Event::ComicLoaded(comic_response("c1", "Example"))) {
        Action::FetchChapters(u) => assert_eq!(u, "https://api.comick.fun/comic/c1/chapters"),
        _ => panic!("expected the chapter list request"),
    }
    let listing = ChaptersResponse { chapters: vec![listed("h1", "1", "en"), listed("h2", "1", "fr")], total: 2, limit: 60 };
    match run.step(Event::ChaptersLoaded(listing)) {
        Action::FetchChapter(u) => assert_eq!(u, "https://api.comick.fun/chapter/h1"),
        _ => panic!("expected the chapter request"),
    }
    let response = ChapterResponse { chapter: detail("h1", "1", None, &["p0", "p1"]), mature_content: false };
    let first = saved_path(run.step(Event::ChapterLoaded(response)));
    assert_eq!(first, "Example/Vol-none/Ch-001/Example-none-001-000.jpg");
    let second = saved_path(run.step(Event::ImageSaved));
    assert_eq!(second, "Example/Vol-none/Ch-001/Example-none-001-001.jpg");
    assert!(matches!(run.step(Event::ImageSaved), Action::Finish));
    assert_eq!(run.phase, Phase::Finished);
}

#[test]
fn failed_comic_fetch_stops_run() {
    let mut run = ArchiveRun::new(config());
    assert!(matches!(run.step(Event::Begin), Action::FetchComic(_)));
    assert!(matches!(run.step(Event::Failed), Action::Abort));
    assert_eq!(run.phase, Phase::Aborted);
    assert!(matches!(run.step(Event::ComicLoaded(comic_response("c1", "T"))), Action::Abort));
    assert!(matches!(run.step(Event::ImageSaved), Action::Abort));
    assert_eq!(run.phase, Phase::Aborted);
}

#[test]
fn unexpected_event_aborts() {
    let mut run = ArchiveRun::new(config());
    assert!(matches!(run.step(Event::ImageSaved), Action::Abort));
}

#[test]
fn no_chapter_in_language_finishes() {
    let mut run = ArchiveRun::new(config());
    run.step(Event::Begin);
    run.step(Event::ComicLoaded(comic_response("c1", "T")));
    let listing = ChaptersResponse { chapters: vec![listed("h2", "1", "fr")], total: 1, limit: 60 };
    assert!(matches!(run.step(Event::ChaptersLoaded(listing)), Action::Finish));
}

#[test]
fn chapter_without_images_moves_on() {
    let mut run = ArchiveRun::new(config());
    run.step(Event::Begin);
    run.step(Event::ComicLoaded(comic_response("c1", "T")));
    let listing = ChaptersResponse { chapters: vec![listed("h1", "1", "en"), listed("h3", "2", "en")], total: 2, limit: 60 };
    run.step(Event::ChaptersLoaded(listing));
    let empty = ChapterResponse { chapter: detail("h1", "1", None, &[]), mature_content: false };
    match run.step(Event::ChapterLoaded(empty)) {
        Action::FetchChapter(u) => assert_eq!(u, "https://api.comick.fun/chapter/h3"),
        _ => panic!("expected the next chapter request"),
    }
}

#[test]
fn version_and_log_level() {
    assert_eq!(version_text("1.0.0", "", "2024-01-01"), "1.0.0");
    assert_eq!(version_text("1.0.0", "abc", "2024-01-01"), "1.0.0 (abc 2024-01-01)");
    assert_eq!(log_level_for("DEBUG"), LogLevel::Debug);
    assert_eq!(log_level_for("debug"), LogLevel::Info);
    assert_eq!(log_level_for(""), LogLevel::Info);
}

#[test]
fn status_codes() {
    assert_eq!(Status::from_code(1), Some(Status::Ongoing));
    assert_eq!(Status::from_code(4), Some(Status::Hiatus));
    assert_eq!(Status::from_code(0), None);
}
