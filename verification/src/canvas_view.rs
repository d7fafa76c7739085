//! The canvas of tiles: which tiles there are, how they are added, closed,
//! updated and loaded, and whether they are shown on the canvas or each in
//! a window of its own.

use vstd::prelude::*;

use crate::url_bar::{edited_input, key_action, url_bar_key, KeyAction, KeyActionModel};
use crate::html::page_lines;
use crate::tile::{
    content_from_fetch, fetched_content, loading_title, loading_title_text, new_tile, page_title,
    title_for, BrowserTile, ContentModel, TileContent, TileId, TileModel,
};

verus! {

/// How the tiles are shown.
#[derive(Clone, Copy, PartialEq, Eq, Structural, Debug)]
pub enum ViewMode {
    /// All tiles on the zoomable canvas.
    Canvas,
    /// Every tile in a window of its own.
    Windows,
}

/// The tiles `tiles` have pairwise distinct ids, all below `next`.
pub open spec fn ids_fresh(tiles: Seq<TileModel>, next: TileId) -> bool {
    &&& forall|i: int, j: int|
        0 <= i < j < tiles.len() ==> (#[trigger] tiles[i]).id != (#[trigger] tiles[j]).id
    &&& forall|i: int| 0 <= i < tiles.len() ==> (#[trigger] tiles[i]).id < next
}

/// `tiles` with `f` applied to the tile whose id is `id`.
pub open spec fn map_tile(tiles: Seq<TileModel>, id: TileId, f: spec_fn(TileModel) -> TileModel) -> Seq<
    TileModel,
> {
    Seq::new(tiles.len(), |k: int| if tiles[k].id == id { f(tiles[k]) } else { tiles[k] })
}

/// A tile after its window handed back the window's state.
pub open spec fn synced(
    t: TileModel,
    url: Seq<char>,
    url_input: Seq<char>,
    title: Seq<char>,
    content: ContentModel,
) -> TileModel {
    TileModel { id: t.id, url, url_input, title, content }
}

/// A tile that has started loading `url`.
pub open spec fn loading(t: TileModel, url: Seq<char>) -> TileModel {
    TileModel { url, title: loading_title(), content: ContentModel::Loading, ..t }
}

/// A tile whose fetch ended in `result`.
pub open spec fn loaded(t: TileModel, result: Result<Seq<char>, Seq<char>>) -> TileModel {
    TileModel {
        content: fetched_content(result),
        title: page_title(fetched_content(result), t.url),
        ..t
    }
}

/// The plain-value form of the text that a key produces.
pub open spec fn typed_view(key_char: Option<&str>) -> Option<Seq<char>> {
    match key_char {
        Some(t) => Some(t@),
        None => None,
    }
}

/// The plain-value form of a fetch result.
pub open spec fn result_view(result: Result<String, String>) -> Result<Seq<char>, Seq<char>> {
    match result {
        Ok(h) => Ok(h@),
        Err(e) => Err(e@),
    }
}

/// The tiles of the canvas and how they are shown. Where each tile stands,
/// the pan offset and the zoom are kept by the view that draws them.
pub struct CanvasView {
    pub tiles: Vec<BrowserTile>,
    /// The id that the next new tile gets.
    pub next_tile_id: TileId,
    pub view_mode: ViewMode,
}

impl CanvasView {
    /// The tiles as plain values.
    pub open spec fn tile_models(&self) -> Seq<TileModel> {
        self.tiles@.map_values(|t: BrowserTile| t@)
    }

    /// Tile ids are distinct and below the next id to hand out.
    pub open spec fn wf(&self) -> bool {
        ids_fresh(self.tile_models(), self.next_tile_id)
    }

    /// A canvas in canvas mode with two fresh tiles, ids 0 and 1.
    pub fn new() -> (res: Self)
        ensures
            res.wf(),
            res.tile_models() == seq![new_tile(0), new_tile(1)],
            res.next_tile_id == 2,
            res.view_mode == ViewMode::Canvas,
    {
        let mut view = CanvasView { tiles: Vec::new(), next_tile_id: 0, view_mode: ViewMode::Canvas };
        assert(view.tile_models() =~= Seq::<TileModel>::empty());
        view.add_tile();
        view.add_tile();
        assert(view.tile_models() =~= seq![new_tile(0), new_tile(1)]);
        view
    }

    /// Adds a fresh tile at the end and returns its id.
    pub fn add_tile(&mut self) -> (id: TileId)
        requires
            old(self).wf(),
            old(self).next_tile_id < u64::MAX,
        ensures
            final(self).wf(),
            id == old(self).next_tile_id,
            final(self).next_tile_id == old(self).next_tile_id + 1,
            final(self).tile_models() == old(self).tile_models().push(new_tile(id)),
            final(self).view_mode == old(self).view_mode,
    {
        let id = self.next_tile_id;
        self.next_tile_id = self.next_tile_id + 1;
        self.tiles.push(BrowserTile::new(id));
        assert(self.tile_models() =~= old(self).tile_models().push(new_tile(id)));
        id
    }

    /// The index of the tile with id `id`, if there is one.
    fn position_of(&self, id: TileId) -> (res: Option<usize>)
        ensures
            res matches Some(k) ==> k < self.tiles.len() && self.tile_models()[k as int].id == id,
            res is None ==> forall|k: int|
                0 <= k < self.tiles.len() ==> (#[trigger] self.tile_models()[k]).id != id,
    {
        let n = self.tiles.len();
        let mut k: usize = 0;
        while k < n
            invariant
                k <= n == self.tiles.len(),
                forall|j: int| 0 <= j < k ==> (#[trigger] self.tile_models()[j]).id != id,
            decreases n - k,
        {
            if self.tiles[k].id == id {
                return Some(k);
            }
            k = k + 1;
        }
        None
    }

    /// Closes the tile with id `id`; the other tiles keep their order.
    pub fn remove_tile(&mut self, id: TileId)
        requires
            old(self).wf(),
        ensures
            final(self).wf(),
            final(self).tile_models() == old(self).tile_models().filter(|t: TileModel| t.id != id),
            final(self).next_tile_id == old(self).next_tile_id,
            final(self).view_mode == old(self).view_mode,
    {
        let ghost pred = |t: TileModel| t.id != id;
        let ghost olds = self.tile_models();
        let mut kept: Vec<BrowserTile> = Vec::new();
        let ghost mut idx: Seq<int> = Seq::empty();
        let n = self.tiles.len();
        let mut k: usize = 0;
        assert(olds.take(0) =~= Seq::<TileModel>::empty());
        assert(olds.take(0).filter(pred) =~= Seq::<TileModel>::empty()) by {
            reveal(Seq::filter);
        }
        while k < n
            invariant
                k <= n == self.tiles.len(),
                olds == self.tile_models(),
                ids_fresh(olds, self.next_tile_id),
                kept@.map_values(|t: BrowserTile| t@) == olds.take(k as int).filter(pred),
                pred == (|t: TileModel| t.id != id),
                idx.len() == kept.len(),
                forall|i: int| 0 <= i < idx.len() ==> 0 <= #[trigger] idx[i] < k,
                forall|i: int, j: int| 0 <= i < j < idx.len() ==> #[trigger] idx[i] < #[trigger] idx[j],
                forall|i: int| 0 <= i < idx.len() ==> kept@[i]@ == olds[#[trigger] idx[i]],
            decreases n - k,
        {
            let ghost before = kept@.map_values(|t: BrowserTile| t@);
            proof {
                reveal(Seq::filter);
            }
            assert(olds.take(k + 1).drop_last() =~= olds.take(k as int));
            assert(olds.take(k + 1).last() == olds[k as int]);
            if self.tiles[k].id != id {
                let t = self.tiles[k].clone();
                kept.push(t);
                proof {
                    idx = idx.push(k as int);
                }
                assert(kept@.map_values(|t: BrowserTile| t@) =~= before.push(olds[k as int]));
            }
            k = k + 1;
        }
        assert(olds.take(n as int) =~= olds);
        self.tiles = kept;
        proof {
            let m = self.tile_models();
            assert forall|i: int, j: int| 0 <= i < j < m.len() implies (#[trigger] m[i]).id != (
            #[trigger] m[j]).id by {
                assert(m[i] == olds[idx[i]]);
                assert(m[j] == olds[idx[j]]);
            }
            assert forall|i: int| 0 <= i < m.len() implies (#[trigger] m[i]).id < self.next_tile_id by {
                assert(m[i] == olds[idx[i]]);
            }
        }
    }

    /// Puts `tile` in place of the tile at index `k`.
    fn replace_tile(&mut self, k: usize, tile: BrowserTile)
        requires
            k < old(self).tiles.len(),
        ensures
            final(self).tile_models() == old(self).tile_models().update(k as int, tile@),
            final(self).next_tile_id == old(self).next_tile_id,
            final(self).view_mode == old(self).view_mode,
    {
        self.tiles.set(k, tile);
        assert(self.tile_models() =~= old(self).tile_models().update(k as int, tile@));
    }

    /// Takes back the state of a tile's window: the tile with id `tile_id`
    /// gets the window's address, URL bar text, title and content.
    pub fn sync_tile_from_window(
        &mut self,
        tile_id: TileId,
        url: String,
        url_input: String,
        title: String,
        content: TileContent,
    )
        requires
            old(self).wf(),
        ensures
            final(self).wf(),
            final(self).tile_models() == map_tile(
                old(self).tile_models(),
                tile_id,
                |t: TileModel| synced(t, url@, url_input@, title@, content@),
            ),
            final(self).next_tile_id == old(self).next_tile_id,
            final(self).view_mode == old(self).view_mode,
    {
        let ghost f = |t: TileModel| synced(t, url@, url_input@, title@, content@);
        match self.position_of(tile_id) {
            Some(k) => {
                let tile = BrowserTile { id: tile_id, url, url_input, title, content };
                self.replace_tile(k, tile);
                assert(self.tile_models() =~= map_tile(old(self).tile_models(), tile_id, f));
            },
            None => {
                assert(self.tile_models() =~= map_tile(old(self).tile_models(), tile_id, f));
            },
        }
    }

    /// Shows every tile in a window of its own, and returns the state that
    /// each window starts with, in tile order.
    pub fn switch_to_windows_mode(&mut self) -> (res: Vec<BrowserTile>)
        ensures
            res@.map_values(|t: BrowserTile| t@) == old(self).tile_models(),
            final(self).tile_models() == old(self).tile_models(),
            final(self).next_tile_id == old(self).next_tile_id,
            final(self).view_mode == ViewMode::Windows,
    {
        let mut res: Vec<BrowserTile> = Vec::new();
        let n = self.tiles.len();
        let mut k: usize = 0;
        while k < n
            invariant
                k <= n == self.tiles.len(),
                res.len() == k,
                forall|j: int| 0 <= j < k ==> (#[trigger] res@[j])@ == self.tile_models()[j],
            decreases n - k,
        {
            let t = self.tiles[k].clone();
            res.push(t);
            k = k + 1;
        }
        assert(res@.map_values(|t: BrowserTile| t@) =~= self.tile_models());
        self.view_mode = ViewMode::Windows;
        res
    }

    /// Shows the tiles on the canvas again.
    pub fn switch_to_canvas_mode(&mut self)
        ensures
            final(self).tile_models() == old(self).tile_models(),
            final(self).next_tile_id == old(self).next_tile_id,
            final(self).view_mode == ViewMode::Canvas,
    {
        self.view_mode = ViewMode::Canvas;
    }

    /// Starts loading `url` in the tile with id `tile_id`: the tile shows
    /// that it is loading, and the page is then fetched by the caller.
    pub fn navigate_tile(&mut self, tile_id: TileId, url: String)
        requires
            old(self).wf(),
        ensures
            final(self).wf(),
            final(self).tile_models() == map_tile(
                old(self).tile_models(),
                tile_id,
                |t: TileModel| loading(t, url@),
            ),
            final(self).next_tile_id == old(self).next_tile_id,
            final(self).view_mode == old(self).view_mode,
    {
        let ghost f = |t: TileModel| loading(t, url@);
        match self.position_of(tile_id) {
            Some(k) => {
                let tile = BrowserTile {
                    id: tile_id,
                    url,
                    url_input: self.tiles[k].url_input.clone(),
                    title: loading_title_text(),
                    content: TileContent::Loading,
                };
                self.replace_tile(k, tile);
                assert(self.tile_models() =~= map_tile(old(self).tile_models(), tile_id, f));
            },
            None => {
                assert(self.tile_models() =~= map_tile(old(self).tile_models(), tile_id, f));
            },
        }
    }

    /// Handles a key pressed in the URL bar of the tile with id `tile_id`;
    /// nothing happens when there is no such tile.
    pub fn url_bar_key_for_tile(
        &mut self,
        tile_id: TileId,
        key: &str,
        key_char: Option<&str>,
    ) -> (res: KeyAction)
        requires
            old(self).wf(),
        ensures
            final(self).wf(),
            final(self).tile_models() == map_tile(
                old(self).tile_models(),
                tile_id,
                |t: TileModel|
                    TileModel { url_input: edited_input(t.url_input, key@, typed_view(key_char)), ..t },
            ),
            forall|k: int|
                0 <= k < old(self).tiles.len() && (#[trigger] old(self).tile_models()[k]).id
                    == tile_id ==> res@ == key_action(
                    old(self).tile_models()[k].url_input,
                    key@,
                    typed_view(key_char),
                ),
            (forall|k: int|
                0 <= k < old(self).tiles.len() ==> (#[trigger] old(self).tile_models()[k]).id
                    != tile_id) ==> res@ == KeyActionModel::Ignore,
            final(self).next_tile_id == old(self).next_tile_id,
            final(self).view_mode == old(self).view_mode,
    {
        let ghost f = |t: TileModel|
            TileModel { url_input: edited_input(t.url_input, key@, typed_view(key_char)), ..t };
        match self.position_of(tile_id) {
            Some(k) => {
                let mut input = self.tiles[k].url_input.clone();
                let action = url_bar_key(&mut input, key, key_char);
                let tile = BrowserTile {
                    id: tile_id,
                    url: self.tiles[k].url.clone(),
                    url_input: input,
                    title: self.tiles[k].title.clone(),
                    content: self.tiles[k].content.clone(),
                };
                self.replace_tile(k, tile);
                assert(self.tile_models() =~= map_tile(old(self).tile_models(), tile_id, f));
                action
            },
            None => {
                assert(self.tile_models() =~= map_tile(old(self).tile_models(), tile_id, f));
                KeyAction::Ignore
            },
        }
    }

    /// Ends a load in the tile with id `tile_id`, if the tile is still
    /// there: it shows the page's lines, or the error, and is titled by the
    /// page's first line, or else by its address.
    pub fn finish_tile_navigation(&mut self, tile_id: TileId, result: Result<String, String>)
        requires
            old(self).wf(),
        ensures
            final(self).wf(),
            final(self).tile_models() == map_tile(
                old(self).tile_models(),
                tile_id,
                |t: TileModel| loaded(t, result_view(result)),
            ),
            final(self).next_tile_id == old(self).next_tile_id,
            final(self).view_mode == old(self).view_mode,
    {
        let ghost f = |t: TileModel| loaded(t, result_view(result));
        let ghost rv = result_view(result);
        match self.position_of(tile_id) {
            Some(k) => {
                let content = content_from_fetch(result);
                let title = title_for(&content, &self.tiles[k].url);
                let tile = BrowserTile {
                    id: tile_id,
                    url: self.tiles[k].url.clone(),
                    url_input: self.tiles[k].url_input.clone(),
                    title,
                    content,
                };
                self.replace_tile(k, tile);
                assert(self.tile_models() =~= map_tile(old(self).tile_models(), tile_id, f));
            },
            None => {
                assert(self.tile_models() =~= map_tile(old(self).tile_models(), tile_id, f));
            },
        }
    }
}

/// What the pointer pressed on one tile: tested in the order close button,
/// URL bar, title bar, by the view that knows where the tile is drawn.
#[derive(Clone, Copy, PartialEq, Eq, Structural, Debug)]
pub enum TileHit {
    Miss,
    CloseButton,
    UrlBar,
    Header,
}

/// What a press of the left mouse button on the canvas does.
#[derive(Clone, Copy, PartialEq, Eq, Structural, Debug)]
pub enum MouseDownAction {
    /// Close the tile.
    CloseTile(TileId),
    /// Give the tile's URL bar the keyboard focus.
    FocusUrlBar(TileId),
    /// Start dragging the tile by its title bar.
    MoveTile(TileId),
    /// Start panning the canvas.
    PanCanvas,
}

/// The action for a press that hit `hit` on the tile `id`.
pub open spec fn hit_action(id: TileId, hit: TileHit) -> MouseDownAction {
    match hit {
        TileHit::CloseButton => MouseDownAction::CloseTile(id),
        TileHit::UrlBar => MouseDownAction::FocusUrlBar(id),
        TileHit::Header => MouseDownAction::MoveTile(id),
        TileHit::Miss => MouseDownAction::PanCanvas,
    }
}

/// The action for a press, given what it hit on each tile in drawing
/// order: the topmost tile that was hit decides; a press that hit no tile
/// pans the canvas.
pub open spec fn press_action(hits: Seq<(TileId, TileHit)>) -> MouseDownAction
    decreases hits.len(),
{
    if hits.len() == 0 {
        MouseDownAction::PanCanvas
    } else if hits.last().1 != TileHit::Miss {
        hit_action(hits.last().0, hits.last().1)
    } else {
        press_action(hits.drop_last())
    }
}

/// Decides what a press of the left mouse button does, from what it hit
/// on each tile, the tiles listed in drawing order.
pub fn mouse_down_action(hits: &Vec<(TileId, TileHit)>) -> (res: MouseDownAction)
    ensures
        res == press_action(hits@),
{
    let mut k: usize = hits.len();
    assert(hits@.take(k as int) =~= hits@);
    while k > 0
        invariant
            k <= hits.len(),
            press_action(hits@) == press_action(hits@.take(k as int)),
        decreases k,
    {
        let (id, hit) = hits[k - 1];
        assert(hits@.take(k as int).last() == hits@[k - 1]);
        assert(hits@.take(k as int).drop_last() =~= hits@.take(k - 1));
        match hit {
            TileHit::CloseButton => {
                return MouseDownAction::CloseTile(id);
            },
            TileHit::UrlBar => {
                return MouseDownAction::FocusUrlBar(id);
            },
            TileHit::Header => {
                return MouseDownAction::MoveTile(id);
            },
            TileHit::Miss => {},
        }
        k = k - 1;
    }
    proof {
        assert(hits@.take(0) =~= Seq::<(TileId, TileHit)>::empty());
    }
    MouseDownAction::PanCanvas
}

proof fn lemma_filter_keeps_all(s: Seq<TileModel>, p: spec_fn(TileModel) -> bool)
    requires
        forall|i: int| 0 <= i < s.len() ==> p(#[trigger] s[i]),
    ensures
        s.filter(p) == s,
    decreases s.len(),
{
    reveal(Seq::filter);
    if s.len() > 0 {
        lemma_filter_keeps_all(s.drop_last(), p);
        assert(s.drop_last().push(s.last()) =~= s);
    }
}

/// A new tile's id is held by no other tile, and the ids stay distinct.
pub proof fn law_new_tile_id_is_fresh(tiles: Seq<TileModel>, next: TileId)
    requires
        ids_fresh(tiles, next),
        next < u64::MAX,
    ensures
        forall|k: int| 0 <= k < tiles.len() ==> (#[trigger] tiles[k]).id != next,
        ids_fresh(tiles.push(new_tile(next)), (next + 1) as TileId),
{
    let t2 = tiles.push(new_tile(next));
    assert forall|i: int, j: int| 0 <= i < j < t2.len() implies (#[trigger] t2[i]).id != (
    #[trigger] t2[j]).id by {
        if j == tiles.len() {
            assert(t2[i] == tiles[i]);
        } else {
            assert(t2[i] == tiles[i] && t2[j] == tiles[j]);
        }
    }
    assert forall|i: int| 0 <= i < t2.len() implies (#[trigger] t2[i]).id < next + 1 by {
        if i < tiles.len() {
            assert(t2[i] == tiles[i]);
        }
    }
}

/// Closing the tile just added gives back the tiles there were before.
pub proof fn law_close_undoes_add(tiles: Seq<TileModel>, next: TileId)
    requires
        ids_fresh(tiles, next),
    ensures
        tiles.push(new_tile(next)).filter(|t: TileModel| t.id != next) == tiles,
{
    let p = |t: TileModel| t.id != next;
    let t2 = tiles.push(new_tile(next));
    lemma_filter_keeps_all(tiles, p);
    reveal(Seq::filter);
    assert(t2.drop_last() =~= tiles);
}

/// A load that ends shows what was fetched from the address that it was
/// started with, and is titled by it.
pub proof fn law_load_shows_what_was_fetched(
    tiles: Seq<TileModel>,
    id: TileId,
    url: Seq<char>,
    result: Result<Seq<char>, Seq<char>>,
)
    ensures
        map_tile(
            map_tile(tiles, id, |t: TileModel| loading(t, url)),
            id,
            |t: TileModel| loaded(t, result),
        ) == map_tile(
            tiles,
            id,
            |t: TileModel|
                TileModel {
                    url,
                    content: fetched_content(result),
                    title: page_title(fetched_content(result), url),
                    ..t
                },
        ),
{
    let a = map_tile(
        map_tile(tiles, id, |t: TileModel| loading(t, url)),
        id,
        |t: TileModel| loaded(t, result),
    );
    let b = map_tile(
        tiles,
        id,
        |t: TileModel|
            TileModel {
                url,
                content: fetched_content(result),
                title: page_title(fetched_content(result), url),
                ..t
            },
    );
    assert(a =~= b);
}

/// A tile's window that changed nothing hands back the tile as it was.
pub proof fn law_unchanged_window_syncs_back(tiles: Seq<TileModel>, next: TileId, k: int)
    requires
        ids_fresh(tiles, next),
        0 <= k < tiles.len(),
    ensures
        map_tile(
            tiles,
            tiles[k].id,
            |t: TileModel|
                synced(t, tiles[k].url, tiles[k].url_input, tiles[k].title, tiles[k].content),
        ) == tiles,
{
    let m = map_tile(
        tiles,
        tiles[k].id,
        |t: TileModel|
            synced(t, tiles[k].url, tiles[k].url_input, tiles[k].title, tiles[k].content),
    );
    assert forall|j: int| 0 <= j < tiles.len() implies #[trigger] m[j] == tiles[j] by {
        if j != k && tiles[j].id == tiles[k].id {
            if j < k {
                assert(tiles[j].id != tiles[k].id);
            } else {
                assert(tiles[k].id != tiles[j].id);
            }
        }
    }
    assert(m =~= tiles);
}

/// The topmost tile that a press hits decides it, whatever the press hits
/// on the tiles below: its close button closes it, its URL bar takes the
/// focus, its title bar starts moving it.
pub proof fn law_topmost_hit_tile_decides(hits: Seq<(TileId, TileHit)>, k: int)
    requires
        0 <= k < hits.len(),
        hits[k].1 != TileHit::Miss,
        forall|j: int| k < j < hits.len() ==> (#[trigger] hits[j]).1 == TileHit::Miss,
    ensures
        hits[k].1 == TileHit::CloseButton ==> press_action(hits) == MouseDownAction::CloseTile(
            hits[k].0,
        ),
        hits[k].1 == TileHit::UrlBar ==> press_action(hits) == MouseDownAction::FocusUrlBar(
            hits[k].0,
        ),
        hits[k].1 == TileHit::Header ==> press_action(hits) == MouseDownAction::MoveTile(
            hits[k].0,
        ),
    decreases hits.len(),
{
    if k < hits.len() - 1 {
        let h = hits.drop_last();
        assert(hits.last() == hits[hits.len() - 1]);
        assert(hits.last().1 == TileHit::Miss);
        assert forall|j: int| k < j < h.len() implies (#[trigger] h[j]).1 == TileHit::Miss by {
            assert(h[j] == hits[j]);
        }
        law_topmost_hit_tile_decides(h, k);
    }
}

/// A press that hits no tile pans the canvas.
pub proof fn law_press_on_no_tile_pans(hits: Seq<(TileId, TileHit)>)
    requires
        forall|j: int| 0 <= j < hits.len() ==> (#[trigger] hits[j]).1 == TileHit::Miss,
    ensures
        press_action(hits) == MouseDownAction::PanCanvas,
    decreases hits.len(),
{
    if hits.len() > 0 {
        let h = hits.drop_last();
        assert(hits.last() == hits[hits.len() - 1]);
        assert forall|j: int| 0 <= j < h.len() implies (#[trigger] h[j]).1 == TileHit::Miss by {
            assert(h[j] == hits[j]);
        }
        law_press_on_no_tile_pans(h);
    }
}

/// A window's state handed back to the canvas replaces its tile's address,
/// URL bar text, title and content, whatever they were; every other tile
/// stays as it was.
pub proof fn law_sync_takes_the_window_state(
    tiles: Seq<TileModel>,
    id: TileId,
    url: Seq<char>,
    url_input: Seq<char>,
    title: Seq<char>,
    content: ContentModel,
)
    ensures
        map_tile(tiles, id, |t: TileModel| synced(t, url, url_input, title, content)).len()
            == tiles.len(),
        forall|k: int|
            0 <= k < tiles.len() && (#[trigger] tiles[k]).id == id ==> map_tile(
                tiles,
                id,
                |t: TileModel| synced(t, url, url_input, title, content),
            )[k] == (TileModel { id, url, url_input, title, content }),
        forall|k: int|
            0 <= k < tiles.len() && (#[trigger] tiles[k]).id != id ==> map_tile(
                tiles,
                id,
                |t: TileModel| synced(t, url, url_input, title, content),
            )[k] == tiles[k],
{
}

/// A finished load shows the page's lines, or the error, and titles the
/// tile by the page's first line; a page without lines, or a failed fetch,
/// titles it by its address. The tile keeps its id, address and URL bar.
pub proof fn law_load_titles_by_first_line(t: TileModel, result: Result<Seq<char>, Seq<char>>)
    ensures
        loaded(t, result).id == t.id,
        loaded(t, result).url == t.url,
        loaded(t, result).url_input == t.url_input,
        result matches Ok(html) ==> loaded(t, result).content == ContentModel::Loaded(
            page_lines(html),
        ),
        result matches Ok(html) ==> (page_lines(html).len() > 0 ==> loaded(t, result).title
            == page_lines(html)[0]),
        result matches Ok(html) ==> (page_lines(html).len() == 0 ==> loaded(t, result).title
            == t.url),
        result matches Err(e) ==> loaded(t, result).content == ContentModel::Error(e)
            && loaded(t, result).title == t.url,
{
}

} // verus!
