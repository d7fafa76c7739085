//! A tile shown in a window of its own, and the rows that show a tile's
//! content.

use vstd::prelude::*;

use crate::canvas_view::{loaded, loading, result_view};
use crate::tile::{
    content_from_fetch, loading_title_text, title_for, BrowserTile, ContentModel, TileContent,
    TileId, TileModel,
};

verus! {

/// The state of a tile's window: a copy of the tile, handed back to the
/// canvas when the user returns to it.
pub struct TileWindowView {
    pub tile_id: TileId,
    pub url: String,
    pub url_input: String,
    pub title: String,
    pub content: TileContent,
}

impl View for TileWindowView {
    type V = TileModel;

    open spec fn view(&self) -> TileModel {
        TileModel {
            id: self.tile_id,
            url: self.url@,
            url_input: self.url_input@,
            title: self.title@,
            content: self.content@,
        }
    }
}

impl TileWindowView {
    /// A window for the tile `tile_id` in the given state.
    pub fn new(
        tile_id: TileId,
        url: String,
        url_input: String,
        title: String,
        content: TileContent,
    ) -> (res: Self)
        ensures
            res@ == (TileModel {
                id: tile_id,
                url: url@,
                url_input: url_input@,
                title: title@,
                content: content@,
            }),
    {
        TileWindowView { tile_id, url, url_input, title, content }
    }

    /// Starts loading `url`: the window shows that it is loading, and the
    /// page is then fetched by the caller.
    pub fn navigate(&mut self, url: String)
        ensures
            final(self)@ == loading(old(self)@, url@),
    {
        self.content = TileContent::Loading;
        self.url = url;
        self.title = loading_title_text();
    }

    /// Ends a load: the window shows the page's lines, or the error, and
    /// is titled by the page's first line, or else by its address.
    pub fn finish_navigation(&mut self, result: Result<String, String>)
        ensures
            final(self)@ == loaded(old(self)@, result_view(result)),
    {
        let content = content_from_fetch(result);
        self.title = title_for(&content, &self.url);
        self.content = content;
    }

    /// The state that the canvas takes back for this tile when the user
    /// returns to the canvas.
    pub fn back_to_canvas(&self) -> (res: BrowserTile)
        ensures
            res@ == self@,
    {
        BrowserTile {
            id: self.tile_id,
            url: self.url.clone(),
            url_input: self.url_input.clone(),
            title: self.title.clone(),
            content: self.content.clone(),
        }
    }
}

/// At most this many lines of a page are shown.
pub const MAX_SHOWN_LINES: usize = 300;

/// One row of a tile's content area.
pub enum ContentRow {
    /// A hint on what to do.
    Hint(String),
    /// A note that a page is loading.
    Progress(String),
    /// Why a page could not be loaded.
    Failure(String),
    /// A small gap, for an empty line of the page.
    Gap,
    /// A line of the page.
    Text(String),
}

/// A row as plain values.
pub enum RowModel {
    Hint(Seq<char>),
    Progress(Seq<char>),
    Failure(Seq<char>),
    Gap,
    Text(Seq<char>),
}

impl View for ContentRow {
    type V = RowModel;

    open spec fn view(&self) -> RowModel {
        match self {
            ContentRow::Hint(s) => RowModel::Hint(s@),
            ContentRow::Progress(s) => RowModel::Progress(s@),
            ContentRow::Failure(s) => RowModel::Failure(s@),
            ContentRow::Gap => RowModel::Gap,
            ContentRow::Text(s) => RowModel::Text(s@),
        }
    }
}

/// The row that shows a page line: a gap for an empty line, else its text.
pub open spec fn line_row(line: Seq<char>) -> RowModel {
    if line.len() == 0 {
        RowModel::Gap
    } else {
        RowModel::Text(line)
    }
}

/// The rows that show `content`: a hint when nothing is loaded, a note
/// while loading, the error, or the page's first lines.
pub open spec fn content_rows(content: ContentModel) -> Seq<RowModel> {
    match content {
        ContentModel::Empty => seq![
            RowModel::Hint("Click the URL bar above and type a URL, then press Enter"@),
        ],
        ContentModel::Loading => seq![RowModel::Progress("\u{27F3} Loading\u{2026}"@)],
        ContentModel::Error(e) => seq![RowModel::Failure("\u{26A0} Error: "@ + e)],
        ContentModel::Loaded(lines) => Seq::new(
            if lines.len() < MAX_SHOWN_LINES {
                lines.len()
            } else {
                MAX_SHOWN_LINES as nat
            },
            |k: int| line_row(lines[k]),
        ),
    }
}

/// The rows that show a tile's content.
pub fn render_tile_content(content: &TileContent) -> (res: Vec<ContentRow>)
    ensures
        res@.map_values(|r: ContentRow| r@) == content_rows(content@),
{
    let mut rows: Vec<ContentRow> = Vec::new();
    match content {
        TileContent::Empty => {
            rows.push(
                ContentRow::Hint(
                    String::from_str("Click the URL bar above and type a URL, then press Enter"),
                ),
            );
        },
        TileContent::Loading => {
            rows.push(ContentRow::Progress(String::from_str("\u{27F3} Loading\u{2026}")));
        },
        TileContent::Error(e) => {
            let mut text = String::from_str("\u{26A0} Error: ");
            text.append(e.as_str());
            rows.push(ContentRow::Failure(text));
        },
        TileContent::Loaded(lines) => {
            let n = if lines.len() < MAX_SHOWN_LINES {
                lines.len()
            } else {
                MAX_SHOWN_LINES
            };
            let mut k: usize = 0;
            while k < n
                invariant
                    k <= n <= lines.len(),
                    rows.len() == k,
                    forall|j: int| 0 <= j < k ==> (#[trigger] rows@[j])@ == line_row(lines@[j]@),
                decreases n - k,
            {
                if lines[k].as_str().is_empty() {
                    rows.push(ContentRow::Gap);
                } else {
                    rows.push(ContentRow::Text(lines[k].clone()));
                }
                k = k + 1;
            }
        },
    }
    assert(rows@.map_values(|r: ContentRow| r@) =~= content_rows(content@));
    rows
}

/// A loaded page is shown as one row per line, at most 300 of them, in
/// order: a gap for an empty line, the line's text otherwise; a page with no
/// lines shows no row at all.
pub proof fn law_loaded_rows_follow_the_lines(lines: Seq<Seq<char>>)
    ensures
        content_rows(ContentModel::Loaded(lines)).len() == if lines.len() < 300 {
            lines.len()
        } else {
            300
        },
        forall|k: int|
            0 <= k < content_rows(ContentModel::Loaded(lines)).len() ==> (lines[k].len() == 0
                ==> #[trigger] content_rows(ContentModel::Loaded(lines))[k] == RowModel::Gap),
        forall|k: int|
            0 <= k < content_rows(ContentModel::Loaded(lines)).len() ==> (lines[k].len() > 0
                ==> #[trigger] content_rows(ContentModel::Loaded(lines))[k] == RowModel::Text(
                lines[k],
            )),
{
}

} // verus!
