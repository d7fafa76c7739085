//! A browser tile: the page it shows and the text in its URL bar.

use vstd::prelude::*;

use crate::html::{html_to_text, page_lines};

verus! {

/// Identifies a tile on the canvas.
pub type TileId = u64;

/// What a tile shows.
pub enum TileContent {
    /// Nothing has been loaded yet.
    Empty,
    /// A page is being fetched.
    Loading,
    /// The text lines of a fetched page.
    Loaded(Vec<String>),
    /// Fetching failed, with the reason.
    Error(String),
}

/// What a tile shows, as plain character sequences.
pub enum ContentModel {
    Empty,
    Loading,
    Loaded(Seq<Seq<char>>),
    Error(Seq<char>),
}

impl View for TileContent {
    type V = ContentModel;

    open spec fn view(&self) -> ContentModel {
        match self {
            TileContent::Empty => ContentModel::Empty,
            TileContent::Loading => ContentModel::Loading,
            TileContent::Loaded(lines) => ContentModel::Loaded(lines.deep_view()),
            TileContent::Error(e) => ContentModel::Error(e@),
        }
    }
}

impl Clone for TileContent {
    fn clone(&self) -> (res: Self)
        ensures
            res@ == self@,
    {
        match self {
            TileContent::Empty => TileContent::Empty,
            TileContent::Loading => TileContent::Loading,
            TileContent::Loaded(lines) => {
                let copy = lines.clone();
                assert(copy.deep_view() =~= lines.deep_view());
                TileContent::Loaded(copy)
            },
            TileContent::Error(e) => TileContent::Error(e.clone()),
        }
    }
}

/// The content that a fetch ends in: the text lines of the page that came
/// back, or the error that came instead.
pub open spec fn fetched_content(result: Result<Seq<char>, Seq<char>>) -> ContentModel {
    match result {
        Ok(html) => ContentModel::Loaded(page_lines(html)),
        Err(e) => ContentModel::Error(e),
    }
}

/// The title of a page whose content is `content` and whose address is
/// `url`: its first line when it has lines, else the address.
pub open spec fn page_title(content: ContentModel, url: Seq<char>) -> Seq<char> {
    match content {
        ContentModel::Loaded(lines) => if lines.len() > 0 {
            lines[0]
        } else {
            url
        },
        _ => url,
    }
}

/// The title shown while a page loads.
pub open spec fn loading_title() -> Seq<char> {
    "Loading\u{2026}"@
}

/// The content that a fetch ends in.
pub fn content_from_fetch(result: Result<String, String>) -> (res: TileContent)
    ensures
        res@ == fetched_content(
            match result {
                Ok(h) => Ok(h@),
                Err(e) => Err(e@),
            },
        ),
{
    match result {
        Ok(html) => TileContent::Loaded(html_to_text(html.as_str())),
        Err(e) => TileContent::Error(e),
    }
}

/// The title for a page: its first line, or its address.
pub fn title_for(content: &TileContent, url: &String) -> (res: String)
    ensures
        res@ == page_title(content@, url@),
{
    match content {
        TileContent::Loaded(lines) => {
            if lines.len() > 0 {
                lines[0].clone()
            } else {
                url.clone()
            }
        },
        _ => url.clone(),
    }
}

/// The title shown while a page loads.
pub fn loading_title_text() -> (res: String)
    ensures
        res@ == loading_title(),
{
    String::from_str("Loading\u{2026}")
}

/// A tile as plain values.
pub struct TileModel {
    pub id: TileId,
    pub url: Seq<char>,
    pub url_input: Seq<char>,
    pub title: Seq<char>,
    pub content: ContentModel,
}

/// A browser tile on the canvas. Where it stands and how large it is drawn
/// are kept by the view that draws it.
pub struct BrowserTile {
    pub id: TileId,
    /// The address of the page shown.
    pub url: String,
    /// The text typed in the URL bar.
    pub url_input: String,
    pub title: String,
    pub content: TileContent,
}

impl View for BrowserTile {
    type V = TileModel;

    open spec fn view(&self) -> TileModel {
        TileModel {
            id: self.id,
            url: self.url@,
            url_input: self.url_input@,
            title: self.title@,
            content: self.content@,
        }
    }
}

impl Clone for BrowserTile {
    fn clone(&self) -> (res: Self)
        ensures
            res@ == self@,
    {
        BrowserTile {
            id: self.id,
            url: self.url.clone(),
            url_input: self.url_input.clone(),
            title: self.title.clone(),
            content: self.content.clone(),
        }
    }
}

/// The tile that `BrowserTile::new(id)` makes.
pub open spec fn new_tile(id: TileId) -> TileModel {
    TileModel {
        id,
        url: Seq::empty(),
        url_input: Seq::empty(),
        title: "New Tab"@,
        content: ContentModel::Empty,
    }
}

impl BrowserTile {
    /// A fresh tile: no page, an empty URL bar, titled "New Tab".
    pub fn new(id: TileId) -> (res: Self)
        ensures
            res@ == new_tile(id),
    {
        BrowserTile {
            id,
            url: String::new(),
            url_input: String::new(),
            title: String::from_str("New Tab"),
            content: TileContent::Empty,
        }
    }
}

} // verus!
