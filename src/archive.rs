//! The archive run: configuration, output paths, chapter selection, the
//! download plan of a chapter, and the sequencing of the whole run.
use vstd::prelude::*;

use crate::api::chapter;
use crate::api::comic;
use crate::text::{chars_of, decimal, decimal_string, pad, replace, replace_all, zero_pad};

verus! {

/// What an archive run is asked to do.
pub struct Archive {
    /// Template of each image's output path.
    pub output: String,
    /// Slug of the series to archive.
    pub slug: String,
    /// Language code that chapters must carry exactly.
    pub language: String,
    /// Base address of the catalog service.
    pub api_url: String,
    /// Base address that image keys are resolved against.
    pub image_url: String,
}

pub open spec fn series_token() -> Seq<char> {
    "{series_name}"@
}

pub open spec fn volume_token() -> Seq<char> {
    "{volume_number}"@
}

pub open spec fn chapter_token() -> Seq<char> {
    "{chapter_number}"@
}

pub open spec fn seq_token() -> Seq<char> {
    "{image_seq}"@
}

/// The label written for a chapter that belongs to no volume.
pub open spec fn no_volume() -> Seq<char> {
    "none"@
}

/// The volume label used in paths: the given one, or `no_volume()`.
pub open spec fn volume_label(volume: Option<Seq<char>>) -> Seq<char> {
    match volume {
        Some(v) => v,
        None => no_volume(),
    }
}

pub open spec fn str_opt(o: Option<&str>) -> Option<Seq<char>> {
    match o {
        Some(s) => Some(s@),
        None => None,
    }
}

pub open spec fn string_opt(o: Option<String>) -> Option<Seq<char>> {
    match o {
        Some(s) => Some(s@),
        None => None,
    }
}

/// The path rendered from `template`: the four tokens are replaced, in this
/// order, by the series name, the padded volume label, the padded chapter
/// number and the padded image index.
pub open spec fn render_path(
    template: Seq<char>,
    series: Seq<char>,
    volume: Option<Seq<char>>,
    chapter: Seq<char>,
    seq: nat,
) -> Seq<char> {
    let s1 = replace_all(template, series_token(), series);
    let s2 = replace_all(s1, volume_token(), zero_pad(volume_label(volume)));
    let s3 = replace_all(s2, chapter_token(), zero_pad(chapter));
    replace_all(s3, seq_token(), zero_pad(decimal(seq)))
}

/// Renders an output path for the image at index `seq`.
pub fn render(template: &str, series_name: &str, volume: Option<&str>, chapter: &str, seq: usize) -> (r: String)
    ensures
        r@ == render_path(template@, series_name@, str_opt(volume), chapter@, seq as nat),
{
    proof {
        reveal_strlit("{series_name}");
        reveal_strlit("{volume_number}");
        reveal_strlit("{chapter_number}");
        reveal_strlit("{image_seq}");
    }
    let vol = match volume {
        Some(v) => pad(v),
        None => pad("none"),
    };
    let chap = pad(chapter);
    let index = decimal_string(seq);
    let index = pad(index.as_str());
    let s1 = replace(template, "{series_name}", series_name);
    let s2 = replace(s1.as_str(), "{volume_number}", vol.as_str());
    let s3 = replace(s2.as_str(), "{chapter_number}", chap.as_str());
    replace(s3.as_str(), "{image_seq}", index.as_str())
}

/// The output path of the image at index `seq` of `chapter`, for a series
/// titled `title`.
pub fn prepare_filename(format: &str, title: &str, chapter: &chapter::Chapter, seq: usize) -> (r: String)
    ensures
        r@ == render_path(format@, title@, string_opt(chapter.vol), chapter.chap@, seq as nat),
{
    let volume = match &chapter.vol {
        Some(v) => Some(v.as_str()),
        None => None,
    };
    render(format, title, volume, chapter.chap.as_str(), seq)
}

/// Position of the last `'/'` in `p`, if any.
pub open spec fn last_slash(p: Seq<char>) -> Option<int>
    decreases p.len(),
{
    if p.len() == 0 {
        None
    } else if p.last() == '/' {
        Some(p.len() - 1)
    } else {
        last_slash(p.drop_last())
    }
}

/// The folder part of `p`: what precedes its last `'/'`, when that is not empty.
pub open spec fn folder_of(p: Seq<char>) -> Option<Seq<char>> {
    match last_slash(p) {
        Some(i) => if i > 0 {
            Some(p.subrange(0, i))
        } else {
            None
        },
        None => None,
    }
}

/// The folder that must exist before a file can be written at `path`.
pub fn folder_to_create(path: &str) -> (r: Option<String>)
    ensures
        string_opt(r) == folder_of(path@),
{
    let pv = chars_of(path);
    let n = pv.len();
    let mut j: usize = n;
    assert(path@.subrange(0, n as int) =~= path@);
    while j > 0
        invariant
            pv@ == path@,
            n == path@.len(),
            j <= n,
            last_slash(path@.subrange(0, j as int)) == last_slash(path@),
        decreases j,
    {
        if pv[j - 1] == '/' {
            if j - 1 > 0 {
                let folder = path.substring_char(0, j - 1);
                return Some(String::from_str(folder));
            } else {
                return None;
            }
        }
        assert(path@.subrange(0, j as int).drop_last() =~= path@.subrange(0, j - 1));
        j = j - 1;
    }
    None
}

/// Address of the comic record for `slug`.
pub open spec fn comic_url(api: Seq<char>, slug: Seq<char>) -> Seq<char> {
    api + "/comic/"@ + slug
}

/// Address of the chapter listing of the comic `hid`.
pub open spec fn chapters_url(api: Seq<char>, hid: Seq<char>) -> Seq<char> {
    api + "/comic/"@ + hid + "/chapters"@
}

/// Address of the detail record of the chapter `hid`.
pub open spec fn chapter_url(api: Seq<char>, hid: Seq<char>) -> Seq<char> {
    api + "/chapter/"@ + hid
}

/// Address of the image stored under `key`.
pub open spec fn image_url(base: Seq<char>, key: Seq<char>) -> Seq<char> {
    base + "/"@ + key
}

pub fn comic_address(api: &str, slug: &str) -> (r: String)
    ensures
        r@ == comic_url(api@, slug@),
{
    let mut r = String::from_str(api);
    r.append("/comic/");
    r.append(slug);
    r
}

pub fn chapters_address(api: &str, hid: &str) -> (r: String)
    ensures
        r@ == chapters_url(api@, hid@),
{
    let mut r = String::from_str(api);
    r.append("/comic/");
    r.append(hid);
    r.append("/chapters");
    r
}

pub fn chapter_address(api: &str, hid: &str) -> (r: String)
    ensures
        r@ == chapter_url(api@, hid@),
{
    let mut r = String::from_str(api);
    r.append("/chapter/");
    r.append(hid);
    r
}

pub fn image_address(base: &str, key: &str) -> (r: String)
    ensures
        r@ == image_url(base@, key@),
{
    let mut r = String::from_str(base);
    r.append("/");
    r.append(key);
    r
}

/// Whether a listed chapter is in `language`.
pub open spec fn in_language(language: Seq<char>) -> spec_fn(comic::Chapter) -> bool {
    |c: comic::Chapter| c.lang@ == language
}

/// The chapters whose language is exactly `language`, in listing order.
pub fn filter_by_language(chapters: Vec<comic::Chapter>, language: &str) -> (r: Vec<comic::Chapter>)
    ensures
        r@ == chapters@.filter(in_language(language@)),
{
    let ghost all = chapters@;
    let mut rest = chapters;
    let mut r: Vec<comic::Chapter> = Vec::new();
    let mut k: usize = 0;
    let n = rest.len();
    let wanted = String::from_str(language);
    assert(all.subrange(0, 0) =~= Seq::<comic::Chapter>::empty());
    assert(all.subrange(0, n as int) =~= all);
    while rest.len() > 0
        invariant
            n == all.len(),
            wanted@ == language@,
            k <= n,
            rest@ == all.subrange(k as int, n as int),
            r@ == all.subrange(0, k as int).filter(in_language(language@)),
        decreases rest@.len(),
    {
        let c = rest.remove(0);
        let ghost prefix = all.subrange(0, k as int);
        assert(all.subrange(0, k + 1).drop_last() =~= prefix);
        assert(all.subrange(0, k + 1).last() == c);
        let keep = c.lang == wanted;
        let ghost next = all.subrange(0, k + 1);
        proof {
            reveal(Seq::filter);
        }
        assert(next.filter(in_language(language@)) == if in_language(language@)(next.last()) {
            next.drop_last().filter(in_language(language@)).push(next.last())
        } else {
            next.drop_last().filter(in_language(language@))
        });
        assert(keep == in_language(language@)(c));
        if keep {
            r.push(c);
        }
        k = k + 1;
        assert(rest@ =~= all.subrange(k as int, n as int));
    }
    r
}


/// One image to save: where, in which folder to create first, and from where.
pub struct DownloadJob {
    pub path: String,
    pub folder: Option<String>,
    pub url: String,
}

/// A download job as values.
pub struct JobView {
    pub path: Seq<char>,
    pub folder: Option<Seq<char>>,
    pub url: Seq<char>,
}

impl View for DownloadJob {
    type V = JobView;

    open spec fn view(&self) -> JobView {
        JobView { path: self.path@, folder: string_opt(self.folder), url: self.url@ }
    }
}

pub open spec fn job_views(jobs: Seq<DownloadJob>) -> Seq<JobView> {
    jobs.map_values(|j: DownloadJob| j@)
}

/// The job for the image at index `n` of `chapter`.
pub open spec fn job_for(config: Archive, title: Seq<char>, chapter: chapter::Chapter, n: int) -> JobView {
    let path = render_path(config.output@, title, string_opt(chapter.vol), chapter.chap@, n as nat);
    JobView {
        path,
        folder: folder_of(path),
        url: image_url(config.image_url@, chapter.md_images@[n].b2key@),
    }
}

/// One job per image of `chapter`, in page order, the `n`-th rendered with
/// index `n`.
pub open spec fn chapter_plan(config: Archive, title: Seq<char>, chapter: chapter::Chapter) -> Seq<JobView> {
    Seq::new(chapter.md_images@.len(), |n: int| job_for(config, title, chapter, n))
}

/// The jobs that save every image of `chapter`.
pub fn plan_chapter(config: &Archive, title: &str, chapter: &chapter::Chapter) -> (r: Vec<DownloadJob>)
    ensures
        job_views(r@) == chapter_plan(*config, title@, *chapter),
{
    let n = chapter.md_images.len();
    let mut r: Vec<DownloadJob> = Vec::new();
    let mut i: usize = 0;
    while i < n
        invariant
            n == chapter.md_images@.len(),
            i <= n,
            job_views(r@) == chapter_plan(*config, title@, *chapter).subrange(0, i as int),
        decreases n - i,
    {
        let path = prepare_filename(config.output.as_str(), title, chapter, i);
        let folder = folder_to_create(path.as_str());
        let url = image_address(config.image_url.as_str(), chapter.md_images[i].b2key.as_str());
        let job = DownloadJob { path, folder, url };
        let ghost before = r@;
        r.push(job);
        i = i + 1;
        assert(job_views(r@) =~= job_views(before).push(job@));
        assert(job_views(r@) =~= chapter_plan(*config, title@, *chapter).subrange(0, i as int));
    }
    assert(chapter_plan(*config, title@, *chapter).subrange(0, n as int) =~= chapter_plan(*config, title@, *chapter));
    r
}

/// Where an archive run stands.
#[derive(Debug, Clone, Copy, PartialEq, Eq, Structural)]
pub enum Phase {
    Start,
    AwaitingComic,
    AwaitingChapters,
    AwaitingChapter,
    Saving,
    Finished,
    Aborted,
}

/// What the outside world reports back to a run.
pub enum Event {
    Begin,
    ComicLoaded(comic::ComicResponse),
    ChaptersLoaded(comic::ChaptersResponse),
    ChapterLoaded(chapter::ChapterResponse),
    ImageSaved,
    /// A request, a decode or a write failed.
    Failed,
}

/// What a run asks the outside world to do next.
pub enum Action {
    FetchComic(String),
    FetchChapters(String),
    FetchChapter(String),
    SaveImage(DownloadJob),
    Finish,
    Abort,
}

/// The event that a run waits for in `phase`, if any.
pub open spec fn awaits(phase: Phase, event: Event) -> bool {
    match phase {
        Phase::Start => event is Begin,
        Phase::AwaitingComic => event is ComicLoaded,
        Phase::AwaitingChapters => event is ChaptersLoaded,
        Phase::AwaitingChapter => event is ChapterLoaded,
        Phase::Saving => event is ImageSaved,
        _ => false,
    }
}

/// A sequential, fail-fast archive run: it hands out one request or one
/// image to save at a time, and stops at the first failure.
pub struct ArchiveRun {
    pub config: Archive,
    pub phase: Phase,
    /// Title of the series, once known.
    pub title: String,
    /// Chapters in the wanted language whose detail is still to be fetched.
    pub chapters: Vec<comic::Chapter>,
    /// Images of the current chapter still to be saved.
    pub jobs: Vec<DownloadJob>,
}

/// `new` and `r` are what follows a state with `chapters` and `jobs` still to
/// do: the next job, else the next chapter's detail, else the end.
pub open spec fn advanced(
    config: Archive,
    title: Seq<char>,
    chapters: Seq<comic::Chapter>,
    jobs: Seq<JobView>,
    new: ArchiveRun,
    r: Action,
) -> bool {
    &&& new.config == config
    &&& new.title@ == title
    &&& if jobs.len() > 0 {
        &&& r matches Action::SaveImage(j) && j@ == jobs[0]
        &&& job_views(new.jobs@) == jobs.drop_first()
        &&& new.chapters@ == chapters
        &&& new.phase == Phase::Saving
    } else if chapters.len() > 0 {
        &&& r matches Action::FetchChapter(u) && u@ == chapter_url(config.api_url@, chapters[0].hid@)
        &&& new.jobs@.len() == 0
        &&& new.chapters@ == chapters.drop_first()
        &&& new.phase == Phase::AwaitingChapter
    } else {
        &&& r is Finish
        &&& new.jobs@.len() == 0
        &&& new.chapters@.len() == 0
        &&& new.phase == Phase::Finished
    }
}

impl ArchiveRun {
    /// A run that has not started.
    pub fn new(config: Archive) -> (r: ArchiveRun)
        ensures
            r.config == config,
            r.phase == Phase::Start,
            r.title@.len() == 0,
            r.chapters@.len() == 0,
            r.jobs@.len() == 0,
    {
        ArchiveRun { config, phase: Phase::Start, title: String::new(), chapters: Vec::new(), jobs: Vec::new() }
    }

    /// Hands out the next job, else the next chapter, else the end.
    fn advance(&mut self) -> (r: Action)
        ensures
            advanced(old(self).config, old(self).title@, old(self).chapters@, job_views(old(self).jobs@), *final(self), r),
    {
        if self.jobs.len() > 0 {
            let job = self.jobs.remove(0);
            self.phase = Phase::Saving;
            assert(job_views(self.jobs@) =~= job_views(old(self).jobs@).drop_first());
            Action::SaveImage(job)
        } else if self.chapters.len() > 0 {
            let next = self.chapters.remove(0);
            let url = chapter_address(self.config.api_url.as_str(), next.hid.as_str());
            self.phase = Phase::AwaitingChapter;
            Action::FetchChapter(url)
        } else {
            self.phase = Phase::Finished;
            Action::Finish
        }
    }

    fn abort(&mut self) -> (r: Action)
        ensures
            r is Abort,
            final(self).phase == Phase::Aborted,
            final(self).config == old(self).config,
            final(self).title == old(self).title,
    {
        self.phase = Phase::Aborted;
        Action::Abort
    }

    /// Takes in what happened and says what to do next. An event that the
    /// run does not wait for, a failure among them, aborts it for good.
    pub fn step(&mut self, event: Event) -> (r: Action)
        ensures
            !awaits(old(self).phase, event) ==> r is Abort && final(self).phase == Phase::Aborted,
            final(self).config == old(self).config,
            old(self).phase == Phase::Start && event is Begin ==> {
                &&& r matches Action::FetchComic(u) && u@ == comic_url(old(self).config.api_url@, old(self).config.slug@)
                &&& final(self).phase == Phase::AwaitingComic
            },
            old(self).phase == Phase::AwaitingComic && event is ComicLoaded ==> {
                let comic = event->ComicLoaded_0.comic;
                &&& r matches Action::FetchChapters(u) && u@ == chapters_url(old(self).config.api_url@, comic.hid@)
                &&& final(self).title@ == comic.title@
                &&& final(self).phase == Phase::AwaitingChapters
            },
            old(self).phase == Phase::AwaitingChapters && event is ChaptersLoaded ==> advanced(
                old(self).config,
                old(self).title@,
                event->ChaptersLoaded_0.chapters@.filter(in_language(old(self).config.language@)),
                Seq::empty(),
                *final(self),
                r,
            ),
            old(self).phase == Phase::AwaitingChapter && event is ChapterLoaded ==> advanced(
                old(self).config,
                old(self).title@,
                old(self).chapters@,
                chapter_plan(old(self).config, old(self).title@, event->ChapterLoaded_0.chapter),
                *final(self),
                r,
            ),
            old(self).phase == Phase::Saving && event is ImageSaved ==> advanced(
                old(self).config,
                old(self).title@,
                old(self).chapters@,
                job_views(old(self).jobs@),
                *final(self),
                r,
            ),
    {
        match event {
            Event::Begin => match self.phase {
                Phase::Start => {
                    let url = comic_address(self.config.api_url.as_str(), self.config.slug.as_str());
                    self.phase = Phase::AwaitingComic;
                    Action::FetchComic(url)
                },
                _ => self.abort(),
            },
            Event::ComicLoaded(resp) => match self.phase {
                Phase::AwaitingComic => {
                    let url = chapters_address(self.config.api_url.as_str(), resp.comic.hid.as_str());
                    self.title = resp.comic.title;
                    self.phase = Phase::AwaitingChapters;
                    Action::FetchChapters(url)
                },
                _ => self.abort(),
            },
            Event::ChaptersLoaded(resp) => match self.phase {
                Phase::AwaitingChapters => {
                    self.chapters = filter_by_language(resp.chapters, self.config.language.as_str());
                    self.jobs = Vec::new();
                    assert(job_views(self.jobs@) =~= Seq::empty());
                    self.advance()
                },
                _ => self.abort(),
            },
            Event::ChapterLoaded(resp) => match self.phase {
                Phase::AwaitingChapter => {
                    self.jobs = plan_chapter(&self.config, self.title.as_str(), &resp.chapter);
                    self.advance()
                },
                _ => self.abort(),
            },
            Event::ImageSaved => match self.phase {
                Phase::Saving => self.advance(),
                _ => self.abort(),
            },
            Event::Failed => self.abort(),
        }
    }
}


/// Language filtering keeps exactly the entries in the wanted language: each
/// kept entry is in that language, each entry in that language is kept, and
/// the kept entries keep their listing order.
pub proof fn lemma_language_filter(chapters: Seq<comic::Chapter>, language: Seq<char>)
    ensures
        forall|i: int|
            0 <= i < chapters.filter(in_language(language)).len()
                ==> (#[trigger] chapters.filter(in_language(language))[i]).lang@ == language,
        forall|c: comic::Chapter|
            chapters.contains(c) && c.lang@ == language ==> #[trigger] chapters.filter(in_language(language)).contains(c),
        chapters.filter(in_language(language)).len() <= chapters.len(),
        forall|more: Seq<comic::Chapter>|
            (#[trigger] (chapters + more)).filter(in_language(language)) == chapters.filter(in_language(language))
                + more.filter(in_language(language)),
{
    let p = in_language(language);
    chapters.lemma_filter_len(p);
    assert forall|i: int| 0 <= i < chapters.filter(p).len() implies (#[trigger] chapters.filter(p)[i]).lang@ == language by {
        chapters.lemma_filter_pred(p, i);
    }
    assert forall|c: comic::Chapter| chapters.contains(c) && c.lang@ == language implies #[trigger] chapters.filter(p).contains(c) by {
        chapters.lemma_filter_contains_rev(p, c);
    }
    assert forall|more: Seq<comic::Chapter>| (#[trigger] (chapters + more)).filter(p) == chapters.filter(p) + more.filter(p) by {
        Seq::filter_distributes_over_add(chapters, more, p);
    }
}

/// A chapter gives one job per image, and the job at position `n` is
/// rendered with image index `n`; the paths do not depend on the images'
/// keys.
pub proof fn lemma_one_job_per_image(
    config: Archive,
    title: Seq<char>,
    a: chapter::Chapter,
    b: chapter::Chapter,
)
    requires
        a.chap@ == b.chap@,
        string_opt(a.vol) == string_opt(b.vol),
        a.md_images@.len() == b.md_images@.len(),
    ensures
        chapter_plan(config, title, a).len() == a.md_images@.len(),
        forall|n: int|
            0 <= n < a.md_images@.len() ==> (#[trigger] chapter_plan(config, title, a)[n]).path == render_path(
                config.output@,
                title,
                string_opt(a.vol),
                a.chap@,
                n as nat,
            ),
        forall|n: int|
            0 <= n < a.md_images@.len() ==> (#[trigger] chapter_plan(config, title, a)[n]).path
                == chapter_plan(config, title, b)[n].path,
{
}

/// A run waits for no event once it has finished or aborted, and never for
/// a failure: with the contract of `ArchiveRun::step`, a failure aborts the
/// run, and an aborted run asks for nothing more.
pub proof fn lemma_failure_is_final(phase: Phase, event: Event)
    ensures
        !awaits(phase, Event::Failed),
        !awaits(Phase::Aborted, event),
        !awaits(Phase::Finished, event),
{
}


/// The states `runs` and actions `actions` follow one another as
/// `ArchiveRun::step` makes them when each saved image is reported: each
/// state hands out what the one before still had to do.
pub open spec fn saves_follow(config: Archive, title: Seq<char>, runs: Seq<ArchiveRun>, actions: Seq<Action>) -> bool {
    &&& runs.len() == actions.len()
    &&& forall|i: int|
        1 <= i < runs.len() ==> advanced(
            config,
            title,
            runs[i - 1].chapters@,
            job_views(runs[i - 1].jobs@),
            #[trigger] runs[i],
            actions[i],
        )
}

proof fn lemma_saves_prefix(
    config: Archive,
    title: Seq<char>,
    chapters: Seq<comic::Chapter>,
    plan: Seq<JobView>,
    runs: Seq<ArchiveRun>,
    actions: Seq<Action>,
    i: int,
)
    requires
        runs.len() > 0,
        advanced(config, title, chapters, plan, runs[0], actions[0]),
        saves_follow(config, title, runs, actions),
        0 <= i < plan.len(),
        i < runs.len(),
    ensures
        actions[i] matches Action::SaveImage(j) && j@ == plan[i],
        job_views(runs[i].jobs@) == plan.subrange(i + 1, plan.len() as int),
        runs[i].chapters@ == chapters,
    decreases i,
{
    if i == 0 {
        assert(plan.drop_first() =~= plan.subrange(1, plan.len() as int));
    } else {
        lemma_saves_prefix(config, title, chapters, plan, runs, actions, i - 1);
        let rest = plan.subrange(i, plan.len() as int);
        assert(advanced(config, title, runs[i - 1].chapters@, job_views(runs[i - 1].jobs@), runs[i], actions[i]));
        assert(rest[0] == plan[i]);
        assert(rest.drop_first() =~= plan.subrange(i + 1, plan.len() as int));
    }
}

/// Once a chapter's detail has come in, a run whose saves all succeed makes
/// exactly one save per image of that chapter, in page order, the `n`-th
/// with the path rendered for image index `n`, and then asks for the next
/// chapter in the wanted language, or finishes when none is left.
///
/// `runs[0]` and `actions[0]` are what `ArchiveRun::step` makes of the
/// loaded detail, with `chapters` the chapters still to fetch; each later
/// pair is what it makes of a reported save.
pub proof fn lemma_chapter_saves(
    config: Archive,
    title: Seq<char>,
    chapters: Seq<comic::Chapter>,
    detail: chapter::Chapter,
    runs: Seq<ArchiveRun>,
    actions: Seq<Action>,
)
    requires
        runs.len() == detail.md_images@.len() + 1,
        advanced(config, title, chapters, chapter_plan(config, title, detail), runs[0], actions[0]),
        saves_follow(config, title, runs, actions),
    ensures
        forall|n: int|
            0 <= n < detail.md_images@.len() ==> (#[trigger] actions[n] matches Action::SaveImage(j) && j@.path
                == render_path(config.output@, title, string_opt(detail.vol), detail.chap@, n as nat) && j@.url
                == image_url(config.image_url@, detail.md_images@[n].b2key@)),
        chapters.len() > 0 ==> (actions[detail.md_images@.len() as int] matches Action::FetchChapter(u) && u@
            == chapter_url(config.api_url@, chapters[0].hid@)),
        chapters.len() > 0 ==> runs[detail.md_images@.len() as int].chapters@ == chapters.drop_first(),
        chapters.len() == 0 ==> actions[detail.md_images@.len() as int] is Finish,
{
    let plan = chapter_plan(config, title, detail);
    let k = detail.md_images@.len() as int;
    assert forall|n: int| 0 <= n < k implies (#[trigger] actions[n] matches Action::SaveImage(j) && j@.path
        == render_path(config.output@, title, string_opt(detail.vol), detail.chap@, n as nat) && j@.url
        == image_url(config.image_url@, detail.md_images@[n].b2key@)) by {
        lemma_saves_prefix(config, title, chapters, plan, runs, actions, n);
    }
    if k > 0 {
        lemma_saves_prefix(config, title, chapters, plan, runs, actions, k - 1);
        assert(plan.subrange(k, k) =~= Seq::<JobView>::empty());
        assert(advanced(config, title, runs[k - 1].chapters@, job_views(runs[k - 1].jobs@), runs[k], actions[k]));
    }
}


/// The `m`-th detail request asks for the first chapter left after the one
/// before, and leaves the rest.
pub open spec fn next_request(
    config: Archive,
    requests: Seq<Seq<char>>,
    queues: Seq<Seq<comic::Chapter>>,
    m: int,
) -> bool {
    &&& queues[m - 1].len() > 0
    &&& requests[m] == chapter_url(config.api_url@, queues[m - 1][0].hid@)
    &&& queues[m] == queues[m - 1].drop_first()
}

/// The chapter-detail requests of a run are the chapters in the wanted
/// language, in listing order, one each.
///
/// `requests[m]` is the `m`-th detail request and `queues[m]` the chapters
/// left to fetch after it. The first pair is what `ArchiveRun::step` makes
/// of the chapter listing `listed`; each later pair is what follows once a
/// chapter's images are saved (`lemma_chapter_saves`).
pub proof fn lemma_detail_requests(
    config: Archive,
    listed: Seq<comic::Chapter>,
    requests: Seq<Seq<char>>,
    queues: Seq<Seq<comic::Chapter>>,
)
    requires
        requests.len() == queues.len(),
        requests.len() > 0 ==> {
            let wanted = listed.filter(in_language(config.language@));
            &&& wanted.len() > 0
            &&& requests[0] == chapter_url(config.api_url@, wanted[0].hid@)
            &&& queues[0] == wanted.drop_first()
        },
        forall|m: int| 1 <= m < requests.len() ==> #[trigger] next_request(config, requests, queues, m),
    ensures
        requests.len() <= listed.filter(in_language(config.language@)).len(),
        forall|m: int|
            0 <= m < requests.len() ==> #[trigger] requests[m] == chapter_url(
                config.api_url@,
                listed.filter(in_language(config.language@))[m].hid@,
            ),
{
    let wanted = listed.filter(in_language(config.language@));
    if requests.len() > 0 {
        assert forall|m: int| 0 <= m < requests.len() implies #[trigger] requests[m] == chapter_url(
            config.api_url@,
            wanted[m].hid@,
        ) by {
            lemma_queue_suffix(config, wanted, requests, queues, m);
        }
        lemma_queue_suffix(config, wanted, requests, queues, requests.len() - 1);
    }
}

proof fn lemma_queue_suffix(
    config: Archive,
    wanted: Seq<comic::Chapter>,
    requests: Seq<Seq<char>>,
    queues: Seq<Seq<comic::Chapter>>,
    i: int,
)
    requires
        requests.len() == queues.len(),
        0 <= i < requests.len(),
        wanted.len() > 0,
        requests[0] == chapter_url(config.api_url@, wanted[0].hid@),
        queues[0] == wanted.drop_first(),
        forall|m: int| 1 <= m < requests.len() ==> #[trigger] next_request(config, requests, queues, m),
    ensures
        i < wanted.len(),
        queues[i] == wanted.subrange(i + 1, wanted.len() as int),
        requests[i] == chapter_url(config.api_url@, wanted[i].hid@),
    decreases i,
{
    if i == 0 {
        assert(wanted.drop_first() =~= wanted.subrange(1, wanted.len() as int));
    } else {
        lemma_queue_suffix(config, wanted, requests, queues, i - 1);
        assert(next_request(config, requests, queues, i));
        assert(queues[i - 1][0] == wanted[i]);
        assert(queues[i - 1].drop_first() =~= wanted.subrange(i + 1, wanted.len() as int));
    }
}

} // verus!
