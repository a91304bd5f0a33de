//! The comic record and the chapter listing.
use std::collections::HashMap;
use vstd::prelude::*;

verus! {

/// Answer of the comic request.
pub struct ComicResponse {
    pub first_chap: FirstChapter,
    pub comic: Comic,
    pub artists: Vec<Person>,
    pub authors: Vec<Person>,
    pub lang_list: Vec<String>,
    pub demographic: Option<Demographic>,
    pub english_link: Option<String>,
    pub mature_content: bool,
}

/// Placeholder for the first chapter entry, whose content is not read.
pub struct FirstChapter {}

/// A series. The catalog's fractional `last_chapter` count is not kept here.
pub struct Comic {
    pub hid: String,
    pub title: String,
    pub country: String,
    pub status: Status,
    pub links: HashMap<String, String>,
    pub chapter_count: u32,
    pub demographic: Option<Demographic>,
    pub hentai: bool,
    pub user_follow_count: u32,
    pub follow_rank: u32,
    pub comment_count: u32,
    pub follow_count: u32,
    pub desc: String,
    pub parsed: String,
    pub slug: String,
    pub year: u32,
    pub bayesian_rating: String,
    pub rating_count: u32,
    pub content_rating: String,
    pub translation_completed: bool,
    pub chapter_numbers_reset_on_new_volume_manual: bool,
    pub final_chapter: String,
    pub final_volume: String,
    pub noindex: bool,
}

pub struct Person {
    pub name: String,
    pub slug: String,
}

/// Publication state of a series.
#[derive(Debug, Clone, Copy, PartialEq, Eq, Structural)]
pub enum Status {
    Ongoing,
    Completed,
    Cancelled,
    Hiatus,
}

#[derive(Debug, Clone, Copy, PartialEq, Eq, Structural)]
pub enum Demographic {
    Shounen,
    Shoujo,
    Seinen,
    Josei,
}

pub struct RelateFrom {
    pub relate_to: Name,
    pub md_relates: Relation,
}

pub struct Name {
    pub slug: String,
    pub title: String,
}

pub struct Relation {
    pub name: String,
}

#[derive(Debug, Clone, Copy, PartialEq, Eq, Structural)]
pub enum RelationType {
    Coloured,
    Sequel,
    Prequel,
    SpinOff,
}

/// Answer of the chapter-list request: every chapter, in every language.
pub struct ChaptersResponse {
    pub chapters: Vec<Chapter>,
    pub total: u32,
    pub limit: u32,
}

/// One entry of a chapter listing.
pub struct Chapter {
    pub id: u32,
    pub chap: String,
    pub lang: String,
    pub hid: String,
}

impl Status {
    /// The status with the catalog's numeric code, if there is one.
    pub fn from_code(code: u8) -> (r: Option<Status>)
        ensures
            r == (if code == 1 {
                Some(Status::Ongoing)
            } else if code == 2 {
                Some(Status::Completed)
            } else if code == 3 {
                Some(Status::Cancelled)
            } else if code == 4 {
                Some(Status::Hiatus)
            } else {
                None
            }),
    {
        match code {
            1 => Some(Status::Ongoing),
            2 => Some(Status::Completed),
            3 => Some(Status::Cancelled),
            4 => Some(Status::Hiatus),
            _ => None,
        }
    }
}

} // verus!
