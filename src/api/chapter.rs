//! The detail record of one chapter.
use vstd::prelude::*;

verus! {

/// Answer of the chapter-detail request.
pub struct ChapterResponse {
    pub chapter: Chapter,
    pub mature_content: bool,
}

/// A chapter with its pages, in page order.
pub struct Chapter {
    pub id: u32,
    pub chap: String,
    /// Volume label; absent for chapters outside any volume.
    pub vol: Option<String>,
    pub title: Option<String>,
    pub hid: String,
    pub chapter_id: Option<u32>,
    pub created_at: String,
    pub updated_at: String,
    pub crawled_at: String,
    pub mdid: Option<String>,
    pub comment_count: u32,
    pub up_count: u32,
    pub down_count: u32,
    pub status: String,
    pub adsense: bool,
    pub lang: String,
    pub md_images: Vec<Image>,
}

/// One page image, named by its storage key.
pub struct Image {
    pub b2key: String,
}

} // verus!
