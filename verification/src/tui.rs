//! The player/search user interface: focus state machine, key handling,
//! and pane drawing.

use vstd::prelude::*;

use crate::ansi::{
    push_bold_escape, push_repeat_char, push_reset_escape, push_str_chars, spec_bold_escape,
    spec_repeat_char, spec_reset_escape, str_chars, string_from_chars,
};
use crate::raster::Raster;
use crate::renderers::{
    spec_last_mode, spec_mode_name, spec_next_mode, spec_render_player, Aspect, Renderer,
};

verus! {

/// A normalized terminal input event, the same for either backend.
#[derive(Clone, Copy, Debug, PartialEq, Eq, Structural)]
pub enum TermEvent {
    Char(char),
    Backspace,
    Tab,
    Enter,
    Up,
    Down,
    Left,
    Right,
}

impl TermEvent {
    /// Whether this key is the quit key.
    pub fn detect_quit(&self) -> (r: bool)
        ensures
            r == (*self == TermEvent::Char('q')),
    {
        matches!(self, TermEvent::Char('q'))
    }
}

/// Which pane owns keyboard input.
#[derive(Clone, Copy, Debug, PartialEq, Eq, Structural)]
pub enum TuiFocus {
    Player,
    Search,
}

impl TuiFocus {
    /// The other pane: the focus-switch key toggles between the two.
    pub fn next_focus(&self) -> (r: Self)
        ensures
            r == (match *self {
                TuiFocus::Player => TuiFocus::Search,
                TuiFocus::Search => TuiFocus::Player,
            }),
    {
        match self {
            Self::Player => Self::Search,
            Self::Search => Self::Player,
        }
    }

    /// Whether a quit key is honored: only while the player has focus.
    pub fn should_exit(&self) -> (r: bool)
        ensures
            r == (*self == TuiFocus::Player),
    {
        match self {
            TuiFocus::Player => true,
            TuiFocus::Search => false,
        }
    }
}

/// What the control loop should do with an input event.
#[derive(Clone, Debug)]
pub enum EventResponse {
    Handled,
    Quit,
    Restart,
    ChangeSource(String),
    PlayPause,
    RunSearch(String),
}

/// One search result: a title, an uploader label, and the locator used to
/// reopen the frame source against it.
#[derive(Clone, Debug)]
pub struct SearchResult {
    pub title: String,
    pub uploader: String,
    pub path: String,
}

/// The name of what unicode_width's `width_cjk` returns for a string: its
/// display width in columns, a function of the characters alone.
pub uninterp spec fn width_cjk_of(s: Seq<char>) -> nat;

/// The name of what unicode_segmentation's extended grapheme clustering
/// returns: the clusters of the string, in order.
pub uninterp spec fn graphemes_of(s: Seq<char>) -> Seq<Seq<char>>;

/// The concatenation of a sequence of character sequences.
pub open spec fn spec_concat(gs: Seq<Seq<char>>) -> Seq<char>
    decreases gs.len(),
{
    if gs.len() == 0 {
        Seq::empty()
    } else {
        gs[0] + spec_concat(gs.drop_first())
    }
}

/// Relies on unicode_width's `UnicodeWidthStr::width_cjk`: the width
/// depends on the characters alone.
#[verifier::external_body]
fn width_cjk(s: &str) -> (r: usize)
    ensures
        r == width_cjk_of(s@),
{
    unicode_width::UnicodeWidthStr::width_cjk(s)
}

/// Relies on unicode_segmentation's `graphemes(true)`: the extended
/// grapheme clusters depend on the characters alone and partition the
/// string.
#[verifier::external_body]
fn graphemes(s: &str) -> (r: Vec<String>)
    ensures
        r@.map_values(|t: String| t@) == graphemes_of(s@),
        spec_concat(r@.map_values(|t: String| t@)) == s@,
{
    unicode_segmentation::UnicodeSegmentation::graphemes(s, true).map(|g| g.to_string()).collect()
}

/// The longest prefix of the clusters `gs` whose total display width stays
/// within `max`.
pub open spec fn spec_take_width(gs: Seq<Seq<char>>, max: int) -> Seq<Seq<char>>
    decreases gs.len(),
{
    if gs.len() == 0 {
        Seq::empty()
    } else if width_cjk_of(gs[0]) <= max {
        seq![gs[0]] + spec_take_width(gs.drop_first(), max - width_cjk_of(gs[0]))
    } else {
        Seq::empty()
    }
}

/// The display-width-aware truncation of `s` to at most `max` columns:
/// whole grapheme clusters are kept while they fit.
pub open spec fn spec_truncate_width(s: Seq<char>, max: int) -> Seq<char> {
    spec_concat(spec_take_width(graphemes_of(s), max))
}

/// Truncates `s` to clusters totalling at most `max` display columns.
fn truncate_width(s: &str, max: usize) -> (r: Vec<char>)
    ensures
        r@ == spec_truncate_width(s@, max as int),
{
    let gs = graphemes(s);
    let ghost gsv = gs@.map_values(|t: String| t@);
    let mut out: Vec<char> = Vec::new();
    let mut budget: usize = max;
    let mut i: usize = 0;
    proof {
        assert(gsv.skip(0) =~= gsv);
        assert(taken_clusters(gsv, 0) =~= Seq::<Seq<char>>::empty());
    }
    loop
        invariant
            i <= gsv.len(),
            gsv == gs@.map_values(|t: String| t@),
            gsv.len() == gs@.len(),
            budget <= max,
            spec_take_width(gsv, max as int) =~= taken_clusters(gsv, i as int)
                + spec_take_width(gsv.skip(i as int), budget as int),
            out@ == spec_concat(taken_clusters(gsv, i as int)),
        ensures
            out@ == spec_concat(spec_take_width(gsv, max as int)),
        decreases gsv.len() - i,
    {
        if i >= gs.len() {
            proof {
                assert(gsv.skip(i as int) =~= Seq::<Seq<char>>::empty());
                lemma_concat_append(taken_clusters(gsv, i as int), Seq::empty());
            }
            break ;
        }
        let w = width_cjk(gs[i].as_str());
        proof {
            assert(gsv.skip(i as int)[0] == gsv[i as int]);
        }
        if w > budget {
            proof {
                assert(spec_take_width(gsv.skip(i as int), budget as int)
                    =~= Seq::<Seq<char>>::empty());
                lemma_concat_append(taken_clusters(gsv, i as int), Seq::empty());
            }
            break ;
        }
        let cs = str_chars(gs[i].as_str());
        let mut k: usize = 0;
        while k < cs.len()
            invariant
                k <= cs@.len(),
                out@ == spec_concat(taken_clusters(gsv, i as int)) + cs@.take(k as int),
            decreases cs@.len() - k,
        {
            out.push(cs[k]);
            k = k + 1;
            assert(out@ =~= spec_concat(taken_clusters(gsv, i as int)) + cs@.take(
                k as int,
            ));
        }
        budget = budget - w;
        i = i + 1;
        proof {
            assert(cs@.take(cs@.len() as int) =~= cs@);
            assert(taken_clusters(gsv, i as int) =~= taken_clusters(
                gsv,
                i - 1,
            ).push(gsv[i - 1]));
            lemma_concat_push(taken_clusters(gsv, i - 1), gsv[i - 1]);
            assert(gsv.skip(i - 1).drop_first() =~= gsv.skip(i as int));
            assert(taken_clusters(gsv, i as int) + spec_take_width(
                gsv.skip(i as int),
                budget as int,
            ) =~= spec_take_width(gsv, max as int));
        }
    }
    proof {
        assert(spec_concat(spec_take_width(gsv, max as int)) == spec_truncate_width(
            s@,
            max as int,
        ));
    }
    out
}

/// The first `n` clusters of `gs`.
pub open spec fn taken_clusters(gs: Seq<Seq<char>>, n: int) -> Seq<Seq<char>> {
    gs.take(n)
}

proof fn lemma_concat_push(gs: Seq<Seq<char>>, g: Seq<char>)
    ensures
        spec_concat(gs.push(g)) == spec_concat(gs) + g,
    decreases gs.len(),
{
    if gs.len() == 0 {
        assert(gs.push(g)[0] == g);
        assert(gs.push(g).drop_first() =~= Seq::<Seq<char>>::empty());
        assert(spec_concat(Seq::<Seq<char>>::empty()) =~= Seq::<char>::empty());
        assert(g + Seq::<char>::empty() =~= g);
        assert(spec_concat(gs.push(g)) =~= g);
        assert(spec_concat(gs) + g =~= g);
    } else {
        assert(gs.push(g).drop_first() =~= gs.drop_first().push(g));
        lemma_concat_push(gs.drop_first(), g);
        assert(spec_concat(gs.push(g)) =~= spec_concat(gs) + g);
    }
}

proof fn lemma_concat_append(gs: Seq<Seq<char>>, hs: Seq<Seq<char>>)
    ensures
        spec_concat(gs + hs) == spec_concat(gs) + spec_concat(hs),
    decreases hs.len(),
{
    if hs.len() == 0 {
        assert(gs + hs =~= gs);
        assert(spec_concat(gs) + spec_concat(hs) =~= spec_concat(gs));
    } else {
        let hs1 = hs.drop_last();
        assert(gs + hs =~= (gs + hs1).push(hs.last()));
        lemma_concat_push(gs + hs1, hs.last());
        lemma_concat_append(gs, hs1);
        assert(hs1.push(hs.last()) =~= hs);
        lemma_concat_push(hs1, hs.last());
        assert(spec_concat(gs + hs) =~= spec_concat(gs) + spec_concat(hs));
    }
}

/// A rectangle of terminal character cells.
#[derive(Clone, Copy, Debug, PartialEq, Eq, Structural)]
pub struct Area {
    pub width: u32,
    pub height: u32,
}

impl Area {
    /// The same area shrunk by a one-cell border on every side.
    pub fn without_border(&self) -> (r: Self)
        requires
            self.width >= 2,
            self.height >= 2,
        ensures
            r.width == self.width - 2,
            r.height == self.height - 2,
    {
        Self { width: self.width - 2, height: self.height - 2 }
    }
}


/// The player pane: its area and the active render mode.
pub struct Player {
    pub bounds: Area,
    pub renderer: Renderer,
}

impl Player {
    pub fn new(width: u32, height: u32, renderer: Renderer) -> (r: Self)
        ensures
            r.bounds.width == width,
            r.bounds.height == height,
            r.renderer == renderer,
    {
        Self { bounds: Area { width, height }, renderer }
    }

    pub fn update_size(&mut self, width: u32, height: u32)
        ensures
            final(self).bounds.width == width,
            final(self).bounds.height == height,
            final(self).renderer == old(self).renderer,
    {
        self.bounds.width = width;
        self.bounds.height = height;
    }

    /// Cycles the render mode forward.
    pub fn next_renderer(&mut self)
        ensures
            final(self).renderer == spec_next_mode(old(self).renderer),
            final(self).bounds == old(self).bounds,
    {
        self.renderer = self.renderer.next_mode();
    }

    /// Cycles the render mode backward.
    pub fn last_renderer(&mut self)
        ensures
            final(self).renderer == spec_last_mode(old(self).renderer),
            final(self).bounds == old(self).bounds,
    {
        self.renderer = self.renderer.last_mode();
    }

    /// The bordered player pane: the rendered frame inside a rounded box.
    pub open spec fn spec_render(self, img: Raster, aspect: Aspect) -> Seq<Seq<char>> {
        let iw = self.bounds.width - 2;
        let ih = self.bounds.height - 2;
        let inner = Area { width: iw as u32, height: ih as u32 };
        let body = spec_render_player(self.renderer, img, inner, aspect);
        seq![seq!['\u{256d}'] + spec_repeat_char('\u{2500}', iw) + seq!['\u{256e}']]
            + body.map_values(|l: Seq<char>| seq!['\u{2502}'] + l + seq!['\u{2502}']) + seq![
            seq!['\u{2570}'] + spec_repeat_char('\u{2500}', iw) + seq!['\u{256f}'],
        ]
    }

    /// Renders the bordered pane, one string per row of the pane's area.
    #[verifier::loop_isolation(false)]
    pub fn render(&self, img: &Raster, char_height: Aspect) -> (r: Vec<String>)
        requires
            img.wf(),
            3 <= self.bounds.width <= 0xFFFF,
            3 <= self.bounds.height <= 0xFFFF,
            char_height.wf(),
    ensures
            r@.len() == self.bounds.height as int,
            r@.map_values(|s: String| s@) == self.spec_render(*img, char_height),
    {
        let ghost spec_lines = self.spec_render(*img, char_height);
        let inner = self.bounds.without_border();
        let frame = self.renderer.render_player(img, inner, char_height);
        let mut out: Vec<String> = Vec::new();
        let mut top: Vec<char> = Vec::new();
        top.push('\u{256d}');
        push_repeat_char(&mut top, '\u{2500}', inner.width as usize);
        top.push('\u{256e}');
        out.push(string_from_chars(&top));
        proof {
            assert(out@[0]@ =~= spec_lines[0]);
        }
        let mut i: usize = 0;
        while i < frame.len()
            invariant
                i <= frame@.len(),
                out@.len() == 1 + i,
                forall|j: int| 0 <= j < out@.len() ==> out@[j]@ == spec_lines[j],
            decreases frame@.len() - i,
        {
            let mut line: Vec<char> = Vec::new();
            line.push('\u{2502}');
            push_str_chars(&mut line, frame[i].as_str());
            line.push('\u{2502}');
            out.push(string_from_chars(&line));
            i = i + 1;
            proof {
                assert(frame@.map_values(|s: String| s@)[i - 1] == frame@[i - 1]@);
                assert(spec_lines[out@.len() - 1] == seq!['\u{2502}'] + frame@[i - 1]@ + seq![
                    '\u{2502}',
                ]);
                assert(out@[out@.len() - 1]@ =~= spec_lines[out@.len() - 1]);
            }
        }
        let mut bottom: Vec<char> = Vec::new();
        bottom.push('\u{2570}');
        push_repeat_char(&mut bottom, '\u{2500}', inner.width as usize);
        bottom.push('\u{256f}');
        out.push(string_from_chars(&bottom));
        proof {
            assert(out@[out@.len() - 1]@ =~= spec_lines[out@.len() - 1]);
            assert(out@.map_values(|s: String| s@) =~= spec_lines);
        }
        out
    }
}


impl SearchResult {
    /// This result's pane rows: a separator above all but the first
    /// result, then a bold title row and a plain uploader row, each
    /// truncated by display width and padded to the pane.
    pub open spec fn spec_draw(self, width: int, is_first: bool) -> Seq<Seq<char>> {
        let area = width - 4;
        let t = spec_truncate_width(self.title@, area);
        let u = spec_truncate_width(self.uploader@, area);
        let tpad = if width_cjk_of(t) <= area {
            area - width_cjk_of(t)
        } else {
            0
        };
        let upad = if width_cjk_of(u) <= area {
            area - width_cjk_of(u)
        } else {
            0
        };
        let title_line = seq!['\u{2551}', ' '] + spec_bold_escape() + t + spec_reset_escape()
            + spec_repeat_char(' ', tpad) + seq![' ', '\u{2551}'];
        let up_line = seq!['\u{2551}', ' '] + u + spec_repeat_char(' ', upad) + seq![
            ' ',
            '\u{2551}',
        ];
        if is_first {
            seq![title_line, up_line]
        } else {
            seq![
                seq!['\u{255f}'] + spec_repeat_char('\u{2500}', width - 2) + seq!['\u{2562}'],
                title_line,
                up_line,
            ]
        }
    }

    /// Draws this result's rows for a pane `width` columns wide.
    pub fn draw(&self, width: u32, is_first: bool) -> (r: Vec<String>)
        requires
            14 <= width <= 0xFFFF,
        ensures
            r@.len() == (if is_first { 2int } else { 3int }),
            r@.map_values(|s: String| s@) == self.spec_draw(width as int, is_first),
    {
        let area = (width - 4) as usize;
        let mut out: Vec<String> = Vec::new();
        if !is_first {
            let mut sep: Vec<char> = Vec::new();
            sep.push('\u{255f}');
            push_repeat_char(&mut sep, '\u{2500}', (width - 2) as usize);
            sep.push('\u{2562}');
            out.push(string_from_chars(&sep));
            assert(out@[0]@ =~= self.spec_draw(width as int, is_first)[0]);
        }
        let t = truncate_width(self.title.as_str(), area);
        let ts = string_from_chars(&t);
        let tw = width_cjk(ts.as_str());
        let tpad: usize = if tw <= area {
            area - tw
        } else {
            0
        };
        let mut title_line: Vec<char> = Vec::new();
        title_line.push('\u{2551}');
        title_line.push(' ');
        push_bold_escape(&mut title_line);
        push_str_chars(&mut title_line, ts.as_str());
        push_reset_escape(&mut title_line);
        push_repeat_char(&mut title_line, ' ', tpad);
        title_line.push(' ');
        title_line.push('\u{2551}');
        out.push(string_from_chars(&title_line));
        let u = truncate_width(self.uploader.as_str(), area);
        let us = string_from_chars(&u);
        let uw = width_cjk(us.as_str());
        let upad: usize = if uw <= area {
            area - uw
        } else {
            0
        };
        let mut up_line: Vec<char> = Vec::new();
        up_line.push('\u{2551}');
        up_line.push(' ');
        push_str_chars(&mut up_line, us.as_str());
        push_repeat_char(&mut up_line, ' ', upad);
        up_line.push(' ');
        up_line.push('\u{2551}');
        out.push(string_from_chars(&up_line));
        proof {
            let sd = self.spec_draw(width as int, is_first);
            let base: int = if is_first {
                0
            } else {
                1
            };
            assert(out@[base]@ =~= sd[base]);
            assert(out@[base + 1]@ =~= sd[base + 1]);
            assert(out@.map_values(|s: String| s@) =~= sd);
        }
        out
    }
}

/// The rows of results `0 .. n` of `rs`, stacked.
pub open spec fn spec_results_lines(rs: Seq<SearchResult>, width: int, n: int) -> Seq<Seq<char>>
    decreases n,
{
    if n <= 0 {
        Seq::empty()
    } else {
        spec_results_lines(rs, width, n - 1) + rs[n - 1].spec_draw(width, n == 1)
    }
}

/// Stacked result rows count one row per pane row: two for the first
/// result and three for each further one.
pub proof fn lemma_results_lines_len(rs: Seq<SearchResult>, width: int, n: int)
    ensures
        spec_results_lines(rs, width, n).len() == if n <= 0 {
            0int
        } else {
            3 * n - 1
        },
    decreases n,
{
    if n > 0 {
        lemma_results_lines_len(rs, width, n - 1);
    }
}


/// A repeated pane row.
pub open spec fn spec_repeat_line(l: Seq<char>, n: int) -> Seq<Seq<char>>
    decreases n,
{
    if n <= 0 {
        Seq::empty()
    } else {
        spec_repeat_line(l, n - 1).push(l)
    }
}

/// What pressing enter in the search pane asks for.
pub enum EnterAction {
    /// Open the selected result's locator as the new source.
    OpenResult(String),
    /// Run this query against the search collaborator.
    RunQuery(String),
}

/// The search pane: the query being edited, the current results, and the
/// optional selection cursor into them.
pub struct Search {
    pub bounds: Area,
    pub selected: Option<usize>,
    pub query: Vec<char>,
    pub results: Vec<SearchResult>,
}

impl Search {
    /// The pane invariant: a selection, when present, is a valid index
    /// into the results and small enough for the cursor row arithmetic.
    pub open spec fn wf(&self) -> bool {
        &&& 14 <= self.bounds.width <= 0xFFFF
        &&& 7 <= self.bounds.height <= 0xFFFF
        &&& match self.selected {
            Option::Some(i) => i < self.results@.len() && i <= 21843,
            Option::None => true,
        }
    }

    pub fn new(width: u32, height: u32) -> (r: Self)
        requires
            14 <= width <= 0xFFFF,
            7 <= height <= 0xFFFF,
        ensures
            r.wf(),
            r.bounds.width == width,
            r.bounds.height == height,
            r.selected is None,
            r.query@ == Seq::<char>::empty(),
            r.results@ == Seq::<SearchResult>::empty(),
    {
        Self { bounds: Area { width, height }, selected: None, query: Vec::new(), results: Vec::new() }
    }

    pub fn update_size(&mut self, width: u32, height: u32)
        requires
            old(self).wf(),
            14 <= width <= 0xFFFF,
            7 <= height <= 0xFFFF,
        ensures
            final(self).wf(),
            final(self).bounds.width == width,
            final(self).bounds.height == height,
            final(self).selected == old(self).selected,
            final(self).query == old(self).query,
            final(self).results == old(self).results,
    {
        self.bounds.width = width;
        self.bounds.height = height;
    }

    /// The cursor column: inside the results list when browsing, else at
    /// the end of the visible query text.
    pub fn cursor_x(&self) -> (r: u16)
        requires
            self.wf(),
        ensures
            self.selected is Some ==> r == 2,
            self.selected is None ==> r == 12 + vstd::math::min(
                self.query@.len() as int,
                self.bounds.width - 13,
            ),
    {
        if self.selected.is_some() {
            2
        } else {
            let query_box_width = (self.bounds.width - 13) as usize;
            let q = self.query.len();
            let m = if q < query_box_width {
                q
            } else {
                query_box_width
            };
            12 + (m as u16)
        }
    }

    /// The cursor row: the selected result's row when browsing, else the
    /// query field row.
    pub fn cursor_y(&self) -> (r: u16)
        requires
            self.wf(),
        ensures
            self.selected matches Some(i) ==> r == 3 * i + 4,
            self.selected is None ==> r == 2,
    {
        match self.selected {
            Some(i) => (i as u16) * 3 + 4,
            None => 2,
        }
    }

    /// Appends a typed character to the query.
    pub fn handle_char(&mut self, c: char)
        requires
            old(self).wf(),
        ensures
            final(self).wf(),
            final(self).query@ == old(self).query@.push(c),
            final(self).selected == old(self).selected,
            final(self).results == old(self).results,
            final(self).bounds == old(self).bounds,
    {
        self.query.push(c);
    }

    /// Removes the last query character, if any.
    pub fn handle_backspace(&mut self)
        requires
            old(self).wf(),
        ensures
            final(self).wf(),
            old(self).query@.len() > 0 ==> final(self).query@ == old(self).query@.drop_last(),
            old(self).query@.len() == 0 ==> final(self).query@ == old(self).query@,
            final(self).selected == old(self).selected,
            final(self).results == old(self).results,
            final(self).bounds == old(self).bounds,
    {
        let _ = self.query.pop();
        proof {
            if old(self).query@.len() > 0 {
                assert(self.query@ =~= old(self).query@.drop_last());
            }
        }
    }

    /// The highest selectable result index: the last visible row or the
    /// last result, whichever is smaller.
    pub open spec fn spec_last_result(&self) -> int {
        vstd::math::min((self.bounds.height - 6) / 3, self.results@.len() - 1)
    }

    /// Moves the selection down: with no selection and any results, to the
    /// first result; within the list, one step, stopping at the last
    /// visible result; with no results, nothing changes.
    pub fn handle_arrow_down(&mut self)
        requires
            old(self).wf(),
        ensures
            final(self).wf(),
            final(self).selected == (match old(self).selected {
                Option::Some(i) => if i < old(self).spec_last_result() {
                    Option::Some((i + 1) as usize)
                } else {
                    Option::Some(i)
                },
                Option::None => if old(self).results@.len() > 0 {
                    Option::Some(0usize)
                } else {
                    Option::None
                },
            }),
            final(self).query == old(self).query,
            final(self).results == old(self).results,
            final(self).bounds == old(self).bounds,
    {
        match self.selected {
            Some(i) => {
                let cap = ((self.bounds.height - 6) / 3) as usize;
                let last_result = if cap < self.results.len() - 1 {
                    cap
                } else {
                    self.results.len() - 1
                };
                if i < last_result {
                    self.selected = Some(i + 1);
                }
            },
            None => {
                if self.results.len() > 0 {
                    self.selected = Some(0);
                }
            },
        }
    }

    /// Moves the selection up: from the first result back to query
    /// editing, else one step up; with no selection, nothing changes.
    pub fn handle_arrow_up(&mut self)
        requires
            old(self).wf(),
        ensures
            final(self).wf(),
            final(self).selected == (match old(self).selected {
                Option::Some(i) => if i == 0 {
                    Option::None
                } else {
                    Option::Some((i - 1) as usize)
                },
                Option::None => Option::None::<usize>,
            }),
            final(self).query == old(self).query,
            final(self).results == old(self).results,
            final(self).bounds == old(self).bounds,
    {
        match self.selected {
            Some(i) => {
                if i == 0 {
                    self.selected = None;
                } else {
                    self.selected = Some(i - 1);
                }
            },
            None => {},
        }
    }

    /// Decides what enter does: commit the selected result's locator, or
    /// dispatch the current query.
    pub fn handle_enter(&self) -> (r: EnterAction)
        requires
            self.wf(),
        ensures
            self.selected matches Some(i) ==> (r matches EnterAction::OpenResult(p) && p@
                == self.results@[i as int].path@),
            self.selected is None ==> (r matches EnterAction::RunQuery(q) && q@ == self.query@),
    {
        match self.selected {
            Some(i) => EnterAction::OpenResult(self.results[i].path.clone()),
            None => EnterAction::RunQuery(string_from_chars(&self.query)),
        }
    }

    /// Installs a search outcome: the results are replaced wholesale; a
    /// failure becomes one synthetic result carrying the error text. A
    /// selection that no longer points into the list is cleared.
    pub fn apply_search_outcome(&mut self, outcome: Result<Vec<SearchResult>, String>)
        requires
            old(self).wf(),
        ensures
            final(self).wf(),
            outcome matches Result::Ok(rs) ==> final(self).results@ == rs@,
            outcome matches Result::Err(msg) ==> final(self).results@.len() == 1
                && final(self).results@[0].title@ == msg@
                && final(self).results@[0].uploader@ == Seq::<char>::empty()
                && final(self).results@[0].path@ == Seq::<char>::empty(),
            final(self).query == old(self).query,
            final(self).bounds == old(self).bounds,
            final(self).selected == (match old(self).selected {
                Option::Some(i) => if (i as int) < final(self).results@.len() {
                    Option::Some(i)
                } else {
                    Option::None::<usize>
                },
                Option::None => Option::None::<usize>,
            }),
    {
        match outcome {
            Ok(rs) => {
                self.results = rs;
            },
            Err(msg) => {
                let mut rs: Vec<SearchResult> = Vec::new();
                rs.push(SearchResult { title: msg, uploader: String::new(), path: String::new() });
                self.results = rs;
            },
        }
        match self.selected {
            Some(i) => {
                if i >= self.results.len() {
                    self.selected = None;
                }
            },
            None => {},
        }
    }
}


impl Search {
    /// The visible query text: the tail of the query that fits the query
    /// box.
    pub open spec fn spec_visible_query(self) -> Seq<char> {
        let qbw = self.bounds.width - 13;
        if self.query@.len() > qbw {
            self.query@.skip(self.query@.len() - qbw)
        } else {
            self.query@
        }
    }

    /// How many results the pane shows: as many as exist, up to the rows
    /// available.
    pub open spec fn spec_shown_results(self) -> int {
        vstd::math::min(self.results@.len() as int, (self.bounds.height - 6) / 3 + 1)
    }

    /// The whole search pane: a double-lined box with the query field, the
    /// visible results, blank filler rows, and the bottom border.
    pub open spec fn spec_draw(self) -> Seq<Seq<char>> {
        let w = self.bounds.width as int;
        let h = self.bounds.height as int;
        let qbw = w - 13;
        let tq = self.spec_visible_query();
        let rlines = spec_results_lines(self.results@, w, self.spec_shown_results());
        let top = seq!['\u{2554}'] + spec_repeat_char('\u{2550}', 8) + seq!['\u{2566}']
            + spec_repeat_char('\u{2550}', w - 11) + seq!['\u{2557}'];
        let qline = seq!['\u{2551}', ' ', 'S', 'e', 'a', 'r', 'c', 'h', ' ', '\u{2551}', ' ']
            + tq + spec_repeat_char(' ', qbw - tq.len()) + seq![' ', '\u{2551}'];
        let mid = seq!['\u{2560}'] + spec_repeat_char('\u{2550}', 8) + seq!['\u{2569}']
            + spec_repeat_char('\u{2550}', w - 11) + seq!['\u{2563}'];
        let blank = seq!['\u{2551}'] + spec_repeat_char(' ', w - 2) + seq!['\u{2551}'];
        let bot = seq!['\u{255a}'] + spec_repeat_char('\u{2550}', w - 2) + seq!['\u{255d}'];
        seq![top, qline, mid] + rlines + spec_repeat_line(blank, h - 4 - rlines.len()) + seq![bot]
    }

    /// Draws the search pane, one string per row of the pane's area.
    #[verifier::loop_isolation(false)]
    #[verifier::spinoff_prover]
    #[verifier::rlimit(100)]
    pub fn draw(&self) -> (r: Vec<String>)
        requires
            self.wf(),
        ensures
            r@.len() == self.bounds.height as int,
            r@.map_values(|s: String| s@) == self.spec_draw(),
    {
        let ghost spec_lines = self.spec_draw();
        let w = self.bounds.width;
        let h = self.bounds.height;
        let qbw = (w - 13) as usize;
        let mut top: Vec<char> = Vec::new();
        top.push('\u{2554}');
        push_repeat_char(&mut top, '\u{2550}', 8);
        top.push('\u{2566}');
        push_repeat_char(&mut top, '\u{2550}', (w - 11) as usize);
        top.push('\u{2557}');
        let mut qline: Vec<char> = Vec::new();
        qline.push('\u{2551}');
        qline.push(' ');
        qline.push('S');
        qline.push('e');
        qline.push('a');
        qline.push('r');
        qline.push('c');
        qline.push('h');
        qline.push(' ');
        qline.push('\u{2551}');
        qline.push(' ');
        let start: usize = if self.query.len() > qbw {
            self.query.len() - qbw
        } else {
            0
        };
        let mut qi: usize = start;
        while qi < self.query.len()
            invariant
                start <= qi <= self.query@.len(),
                qline@ == seq!['\u{2551}', ' ', 'S', 'e', 'a', 'r', 'c', 'h', ' ', '\u{2551}', ' ']
                    + self.query@.subrange(start as int, qi as int),
            decreases self.query@.len() - qi,
        {
            qline.push(self.query[qi]);
            qi = qi + 1;
            assert(qline@ =~= seq!['\u{2551}', ' ', 'S', 'e', 'a', 'r', 'c', 'h', ' ', '\u{2551}', ' ']
                + self.query@.subrange(start as int, qi as int));
        }
        proof {
            assert(self.query@.subrange(start as int, self.query@.len() as int)
                =~= self.spec_visible_query());
        }
        push_repeat_char(&mut qline, ' ', qbw - (self.query.len() - start));
        qline.push(' ');
        qline.push('\u{2551}');
        let mut mid: Vec<char> = Vec::new();
        mid.push('\u{2560}');
        push_repeat_char(&mut mid, '\u{2550}', 8);
        mid.push('\u{2569}');
        push_repeat_char(&mut mid, '\u{2550}', (w - 11) as usize);
        mid.push('\u{2563}');
        let mut out: Vec<String> = Vec::new();
        out.push(string_from_chars(&top));
        out.push(string_from_chars(&qline));
        out.push(string_from_chars(&mid));
        proof {
            assert(spec_lines[0] =~= top@);
            assert(spec_lines[1] =~= qline@);
            assert(spec_lines[2] =~= mid@);
            assert(out@.map_values(|s: String| s@) =~= seq![top@, qline@, mid@]);
        }
        let num_results = ((h - 6) / 3 + 1) as usize;
        let shown: usize = if self.results.len() < num_results {
            self.results.len()
        } else {
            num_results
        };
        let mut k: usize = 0;
        while k < shown
            invariant
                k <= shown,
                shown == self.spec_shown_results(),
                out@.map_values(|s: String| s@) =~= seq![
                    spec_lines[0],
                    spec_lines[1],
                    spec_lines[2],
                ] + spec_results_lines(self.results@, w as int, k as int),
            decreases shown - k,
        {
            let mut rl = self.results[k].draw(w, k == 0);
            let ghost rlv = rl@;
            let ghost out0 = out@;
            out.append(&mut rl);
            k = k + 1;
            proof {
                lemma_results_lines_len(self.results@, w as int, k - 1);
                lemma_results_lines_len(self.results@, w as int, k as int);
                assert(out@ == out0 + rlv);
                assert(rlv.map_values(|s: String| s@) == self.results@[k - 1].spec_draw(
                    w as int,
                    k == 1,
                ));
                assert(spec_results_lines(self.results@, w as int, k as int)
                    =~= spec_results_lines(self.results@, w as int, k - 1) + self.results@[k
                    - 1].spec_draw(w as int, k == 1));
                assert(out@.len() == out0.len() + rlv.len());
                assert(out0.map_values(|s: String| s@) == seq![
                    spec_lines[0],
                    spec_lines[1],
                    spec_lines[2],
                ] + spec_results_lines(self.results@, w as int, k - 1));
                assert(forall|j: int|
                    0 <= j < out@.len() ==> out@.map_values(|s: String| s@)[j] == #[trigger] out@[j]@);
                assert(forall|j: int|
                    0 <= j < out0.len() ==> #[trigger] out@[j] == out0[j]);
                assert(forall|j: int|
                    out0.len() <= j < out@.len() ==> #[trigger] out@[j] == rlv[j - out0.len()]);
                assert(forall|j: int|
                    0 <= j < out0.len() ==> out0.map_values(|s: String| s@)[j] == #[trigger] out0[j]@);
                assert(forall|j: int|
                    0 <= j < rlv.len() ==> rlv.map_values(|s: String| s@)[j] == #[trigger] rlv[j]@);
                assert(out@.map_values(|s: String| s@) =~= seq![
                    spec_lines[0],
                    spec_lines[1],
                    spec_lines[2],
                ] + spec_results_lines(self.results@, w as int, k as int));
            }
        }
        proof {
            lemma_results_lines_len(self.results@, w as int, shown as int);
            vstd::arithmetic::div_mod::lemma_fundamental_div_mod(h - 6, 3);
        }
        let rlen: usize = if shown == 0 {
            0
        } else {
            3 * shown - 1
        };
        let blanks: usize = (h as usize) - 4 - rlen;
        let mut blank: Vec<char> = Vec::new();
        blank.push('\u{2551}');
        push_repeat_char(&mut blank, ' ', (w - 2) as usize);
        blank.push('\u{2551}');
        let blank_s = string_from_chars(&blank);
        let ghost rls = spec_results_lines(self.results@, w as int, shown as int);
        let mut b: usize = 0;
        while b < blanks
            invariant
                b <= blanks,
                out@.map_values(|s: String| s@) =~= seq![
                    spec_lines[0],
                    spec_lines[1],
                    spec_lines[2],
                ] + rls + spec_repeat_line(blank@, b as int),
            decreases blanks - b,
        {
            let one = blank_s.clone();
            let ghost prev = out@;
            out.push(one);
            b = b + 1;
            proof {
                lemma_repeat_line_len(blank@, b - 1);
                lemma_repeat_line_len(blank@, b as int);
                assert(out@ == prev.push(one));
                assert(forall|j: int|
                    0 <= j < out@.len()
                        ==> out@.map_values(|s: String| s@)[j] == #[trigger] out@[j]@);
                assert(forall|j: int|
                    0 <= j < prev.len()
                        ==> prev.map_values(|s: String| s@)[j] == #[trigger] prev[j]@);
                assert(forall|j: int| 0 <= j < prev.len() ==> #[trigger] out@[j] == prev[j]);
                assert(out@[out@.len() - 1]@ == blank@);
                assert(out@.map_values(|s: String| s@) =~= seq![
                    spec_lines[0],
                    spec_lines[1],
                    spec_lines[2],
                ] + rls + spec_repeat_line(blank@, b as int));
            }
        }
        let mut bot: Vec<char> = Vec::new();
        bot.push('\u{255a}');
        push_repeat_char(&mut bot, '\u{2550}', (w - 2) as usize);
        bot.push('\u{255d}');
        out.push(string_from_chars(&bot));
        proof {
            lemma_repeat_line_len(blank@, blanks as int);
            assert(blank@ =~= seq!['\u{2551}'] + spec_repeat_char(' ', w - 2) + seq![
                '\u{2551}',
            ]);
            assert(bot@ =~= seq!['\u{255a}'] + spec_repeat_char('\u{2550}', w - 2) + seq![
                '\u{255d}',
            ]);
            assert(out@.map_values(|s: String| s@) =~= spec_lines);
        }
        out
    }
}

/// A stack of `n` copies of one row has `n` rows.
pub proof fn lemma_repeat_line_len(l: Seq<char>, n: int)
    ensures
        n >= 0 ==> spec_repeat_line(l, n).len() == n,
    decreases n,
{
    if n > 0 {
        lemma_repeat_line_len(l, n - 1);
    }
}


/// The whole two-pane interface: the player pane, the search pane, the
/// focus, and the cursor left by the last render.
pub struct Tui {
    pub player: Player,
    pub search: Search,
    pub focus: TuiFocus,
    pub bounds: Area,
    pub cursor_pos: (u16, u16),
    pub char_height: Aspect,
}

impl Tui {
    /// The interface invariant: the panes tile the terminal, the player
    /// pane keeping everything left of the fixed-width search sidebar and
    /// above the five info rows.
    pub open spec fn wf(&self) -> bool {
        &&& 43 <= self.bounds.width <= 0xFFFF
        &&& 8 <= self.bounds.height <= 0xFFFF
        &&& self.player.bounds.width == self.bounds.width - 40
        &&& self.player.bounds.height == self.bounds.height - 5
        &&& self.search.bounds.width == 40
        &&& self.search.bounds.height == self.bounds.height
        &&& self.search.wf()
        &&& self.char_height.wf()
    }

    /// Builds the interface at the given terminal size, with the player
    /// focused.
    pub fn new(renderer: Renderer, char_height: Aspect, width: u32, height: u32) -> (r: Self)
        requires
            43 <= width <= 0xFFFF,
            8 <= height <= 0xFFFF,
            char_height.wf(),
        ensures
            r.wf(),
            r.focus == TuiFocus::Player,
            r.player.renderer == renderer,
            r.bounds.width == width,
            r.bounds.height == height,
            r.char_height == char_height,
            r.search.selected is None,
            r.search.query@ == Seq::<char>::empty(),
            r.search.results@ == Seq::<SearchResult>::empty(),
    {
        let mut tui = Self {
            player: Player::new(0, 0, renderer),
            search: Search::new(40, height),
            focus: TuiFocus::Player,
            bounds: Area { width: 0, height: 0 },
            cursor_pos: (0, 0),
            char_height,
        };
        tui.update_size(width, height);
        tui
    }

    /// Adopts a new terminal size: the search sidebar keeps its fixed
    /// width and full height, the player pane takes the rest less the
    /// info rows.
    pub fn update_size(&mut self, width: u32, height: u32)
        requires
            old(self).search.wf(),
            old(self).char_height.wf(),
            43 <= width <= 0xFFFF,
            8 <= height <= 0xFFFF,
        ensures
            final(self).wf(),
            final(self).bounds.width == width,
            final(self).bounds.height == height,
            final(self).focus == old(self).focus,
            final(self).player.renderer == old(self).player.renderer,
            final(self).search.selected == old(self).search.selected,
            final(self).search.query == old(self).search.query,
            final(self).search.results == old(self).search.results,
            final(self).char_height == old(self).char_height,
            final(self).cursor_pos == old(self).cursor_pos,
    {
        self.bounds.width = width;
        self.bounds.height = height;
        self.player.update_size(width - 40, height - 5);
        self.search.update_size(40, height);
    }

    /// The cursor column left by the last render.
    pub fn cursor_x(&self) -> (r: u16)
        ensures
            r == self.cursor_pos.0,
    {
        self.cursor_pos.0
    }

    /// The cursor row left by the last render.
    pub fn cursor_y(&self) -> (r: u16)
        ensures
            r == self.cursor_pos.1,
    {
        self.cursor_pos.1
    }

    /// Whether the input loop may stop after a quit key: only while the
    /// player has focus.
    pub fn accept_quit(&self) -> (r: bool)
        ensures
            r == (self.focus == TuiFocus::Player),
    {
        self.focus.should_exit()
    }

    /// Installs a search outcome in the search pane.
    pub fn apply_search_outcome(&mut self, outcome: Result<Vec<SearchResult>, String>)
        requires
            old(self).wf(),
        ensures
            final(self).wf(),
            outcome matches Result::Ok(rs) ==> final(self).search.results@ == rs@,
            outcome matches Result::Err(msg) ==> final(self).search.results@.len() == 1
                && final(self).search.results@[0].title@ == msg@
                && final(self).search.results@[0].uploader@ == Seq::<char>::empty()
                && final(self).search.results@[0].path@ == Seq::<char>::empty(),
            final(self).focus == old(self).focus,
            final(self).player == old(self).player,
            final(self).bounds == old(self).bounds,
            final(self).search.query == old(self).search.query,
    {
        self.search.apply_search_outcome(outcome);
    }

    /// Routes one input event. The focus-switch key toggles the focused
    /// pane; player keys cycle the mode or ask the control loop to quit,
    /// restart or toggle pause; search keys edit the query, move the
    /// selection, or ask for a source change or a query run.
    pub fn handle_event(&mut self, event: TermEvent) -> (r: EventResponse)
        requires
            old(self).wf(),
        ensures
            final(self).wf(),
            final(self).bounds == old(self).bounds,
            final(self).char_height == old(self).char_height,
            final(self).cursor_pos == old(self).cursor_pos,
            final(self).player.bounds == old(self).player.bounds,
            final(self).search.bounds == old(self).search.bounds,
            event == TermEvent::Tab ==> final(self).focus == (match old(self).focus {
                TuiFocus::Player => TuiFocus::Search,
                TuiFocus::Search => TuiFocus::Player,
            })
                && (r is Handled) && final(self).player == old(self).player
                && final(self).search == old(self).search,
            event != TermEvent::Tab ==> final(self).focus == old(self).focus,
            old(self).focus == TuiFocus::Player && event != TermEvent::Tab ==> final(self).search
                == old(self).search && final(self).player.renderer == (match event {
                TermEvent::Char(c) => if c == 'm' {
                    spec_next_mode(old(self).player.renderer)
                } else if c == 'M' {
                    spec_last_mode(old(self).player.renderer)
                } else {
                    old(self).player.renderer
                },
                _ => old(self).player.renderer,
            }) && (match event {
                TermEvent::Char(c) => if c == 'q' {
                    r is Quit
                } else if c == 'r' {
                    r is Restart
                } else if c == 'p' {
                    r is PlayPause
                } else {
                    r is Handled
                },
                _ => r is Handled,
            }),
            old(self).focus == TuiFocus::Search && event != TermEvent::Tab ==> final(self).player
                == old(self).player && (match event {
                TermEvent::Backspace => final(self).search.query@ == (if old(self).search.query@.len() > 0 {
                    old(self).search.query@.drop_last()
                } else {
                    old(self).search.query@
                }) && final(self).search.selected == old(self).search.selected && (r is Handled),
                TermEvent::Down => final(self).search.query == old(self).search.query && final(self).search.selected == (match old(self).search.selected {
                    Option::Some(i) => if i < old(self).search.spec_last_result() {
                        Option::Some((i + 1) as usize)
                    } else {
                        Option::Some(i)
                    },
                    Option::None => if old(self).search.results@.len() > 0 {
                        Option::Some(0usize)
                    } else {
                        Option::None
                    },
                }) && (r is Handled),
                TermEvent::Up => final(self).search.query == old(self).search.query && final(self).search.selected == (match old(self).search.selected {
                    Option::Some(i) => if i == 0 {
                        Option::None
                    } else {
                        Option::Some((i - 1) as usize)
                    },
                    Option::None => Option::None::<usize>,
                }) && (r is Handled),
                TermEvent::Enter => final(self).search == old(self).search && (match old(self).search.selected {
                    Option::Some(i) => r matches EventResponse::ChangeSource(p) && p@ == old(self).search.results@[i as int].path@,
                    Option::None => r matches EventResponse::RunSearch(q) && q@ == old(self).search.query@,
                }),
                TermEvent::Char(c) => final(self).search.query@ == old(self).search.query@.push(c)
                    && final(self).search.selected == old(self).search.selected && (r is Handled),
                _ => final(self).search == old(self).search && (r is Handled),
            }),
    {
        if matches!(event, TermEvent::Tab) {
            self.focus = self.focus.next_focus();
            return EventResponse::Handled;
        }
        match self.focus {
            TuiFocus::Player => {
                match event {
                    TermEvent::Char(c) => {
                        if c == 'q' {
                            return EventResponse::Quit;
                        } else if c == 'm' {
                            self.player.next_renderer();
                        } else if c == 'M' {
                            self.player.last_renderer();
                        } else if c == 'r' {
                            return EventResponse::Restart;
                        } else if c == 'p' {
                            return EventResponse::PlayPause;
                        }
                    },
                    _ => {},
                }
            },
            TuiFocus::Search => {
                match event {
                    TermEvent::Backspace => self.search.handle_backspace(),
                    TermEvent::Down => self.search.handle_arrow_down(),
                    TermEvent::Up => self.search.handle_arrow_up(),
                    TermEvent::Enter => {
                        match self.search.handle_enter() {
                            EnterAction::OpenResult(path) => {
                                return EventResponse::ChangeSource(path);
                            },
                            EnterAction::RunQuery(q) => {
                                return EventResponse::RunSearch(q);
                            },
                        }
                    },
                    TermEvent::Char(c) => self.search.handle_char(c),
                    _ => {},
                }
            },
        }
        EventResponse::Handled
    }
}


/// The help line shown in the player footer.
pub open spec fn spec_help_text() -> Seq<char> {
    "Press 'm'/'M' to cycle mode, 'q' to exit, 'r' to restart, 'p' to play/pause: "@
}

fn help_text() -> (r: &'static str)
    ensures
        r@ == spec_help_text(),
{
    "Press 'm'/'M' to cycle mode, 'q' to exit, 'r' to restart, 'p' to play/pause: "
}

/// The lines joined with carriage-return line-feed pairs.
pub open spec fn spec_join_crlf(lines: Seq<Seq<char>>) -> Seq<char>
    decreases lines.len(),
{
    if lines.len() <= 0 {
        Seq::empty()
    } else if lines.len() == 1 {
        lines[0]
    } else {
        spec_join_crlf(lines.drop_last()) + seq!['\r', '\n'] + lines.last()
    }
}

impl Tui {
    /// The display width the info box reserves for the path, clamped to a
    /// terminal-sized bound.
    pub open spec fn spec_path_width(path: Seq<char>) -> int {
        vstd::math::min(width_cjk_of(path) as int, 0xFFFF)
    }

    /// The inner width of the info box: wide enough for the path row, the
    /// mode row, and the help row.
    pub open spec fn spec_info_longest(self, path: Seq<char>) -> int {
        vstd::math::max3(
            Self::spec_path_width(path) + 15,
            spec_mode_name(self.player.renderer).len() + 20int,
            spec_help_text().len() + 3int,
        )
    }

    /// The five info rows under the player pane: the box borders, the
    /// playing path, the mode name, and the help line, each padded out to
    /// the player pane's width.
    pub open spec fn spec_info_lines(self, path: Seq<char>) -> Seq<Seq<char>> {
        let longest = self.spec_info_longest(path);
        let pw = Self::spec_path_width(path);
        let name = spec_mode_name(self.player.renderer);
        let help = spec_help_text();
        let pwidth = self.player.bounds.width as int;
        let sp = spec_repeat_char(
            ' ',
            if longest + 2 <= pwidth {
                pwidth - longest - 2
            } else {
                0
            },
        );
        seq![
            seq!['\u{2554}'] + spec_repeat_char('\u{2550}', longest) + seq!['\u{2557}'] + sp,
            "\u{2551} Now Playing: "@ + path + spec_repeat_char(' ', longest - pw - 14) + seq![
                '\u{2551}',
            ] + sp,
            "\u{2551} Current Renderer: "@ + name + spec_repeat_char(' ', longest - name.len() - 19)
                + seq!['\u{2551}'] + sp,
            "\u{2551} "@ + help + spec_repeat_char(' ', longest - help.len() - 1) + seq![
                '\u{2551}',
            ] + sp,
            seq!['\u{255a}'] + spec_repeat_char('\u{2550}', longest) + seq!['\u{255d}'] + sp,
        ]
    }

    /// The whole rendered screen, row by row: the player pane with its
    /// info rows on the left, the search pane spliced on the right.
    pub open spec fn spec_render_lines(self, img: Raster, path: Seq<char>) -> Seq<Seq<char>> {
        let left = self.player.spec_render(img, self.char_height) + self.spec_info_lines(path);
        let right = self.search.spec_draw();
        Seq::new(self.bounds.height as nat, |i: int| left[i] + right[i])
    }

    /// Renders one frame of the interface and places the cursor: on the
    /// help row while the player is focused, in the search pane otherwise.
    #[verifier::loop_isolation(false)]
    #[verifier::spinoff_prover]
    #[verifier::rlimit(100)]
    pub fn render(&mut self, img: &Raster, path: &str) -> (r: String)
        requires
            old(self).wf(),
            img.wf(),
        ensures
            final(self).wf(),
            r@ == spec_join_crlf(old(self).spec_render_lines(*img, path@)),
            final(self).player == old(self).player,
            final(self).search == old(self).search,
            final(self).focus == old(self).focus,
            final(self).bounds == old(self).bounds,
            final(self).char_height == old(self).char_height,
            old(self).focus == TuiFocus::Player ==> final(self).cursor_pos == ((
                spec_help_text().len() + 3) as u16,
                (old(self).bounds.height - 1) as u16,
            ),
            old(self).focus == TuiFocus::Search ==> final(self).cursor_pos.0
                == old(self).player.bounds.width + (if old(self).search.selected is Some {
                2int
            } else {
                12 + vstd::math::min(
                    old(self).search.query@.len() as int,
                    old(self).search.bounds.width - 13,
                )
            }) && final(self).cursor_pos.1 == (match old(self).search.selected {
                Option::Some(i) => 3 * i + 4,
                Option::None => 2int,
            }),
    {
        let ghost left = self.player.spec_render(*img, self.char_height) + self.spec_info_lines(
            path@,
        );
        let mut frame: Vec<String> = self.player.render(img, self.char_height);
        let name = self.player.renderer.name();
        let name_len = name.as_str().unicode_len();
        let help = help_text();
        let help_len = help.unicode_len();
        proof {
            reveal_strlit("Full Chars");
            reveal_strlit("Half Chars");
            reveal_strlit("Quarters");
            reveal_strlit("Braille");
            reveal_strlit("Press 'm'/'M' to cycle mode, 'q' to exit, 'r' to restart, 'p' to play/pause: ");
        }
        let pw0 = width_cjk(path);
        let pw: usize = if pw0 > 0xFFFF {
            0xFFFF
        } else {
            pw0
        };
        let mut longest: usize = pw + 15;
        if name_len + 20 > longest {
            longest = name_len + 20;
        }
        if help_len + 3 > longest {
            longest = help_len + 3;
        }
        proof {
            assert(longest == self.spec_info_longest(path@));
        }
        let pwidth = self.player.bounds.width as usize;
        let spacer_n: usize = if longest + 2 <= pwidth {
            pwidth - longest - 2
        } else {
            0
        };
        let mut l0: Vec<char> = Vec::new();
        l0.push('\u{2554}');
        push_repeat_char(&mut l0, '\u{2550}', longest);
        l0.push('\u{2557}');
        push_repeat_char(&mut l0, ' ', spacer_n);
        frame.push(string_from_chars(&l0));
        let mut l1: Vec<char> = Vec::new();
        push_str_chars(&mut l1, "\u{2551} Now Playing: ");
        push_str_chars(&mut l1, path);
        push_repeat_char(&mut l1, ' ', longest - pw - 14);
        l1.push('\u{2551}');
        push_repeat_char(&mut l1, ' ', spacer_n);
        frame.push(string_from_chars(&l1));
        let mut l2: Vec<char> = Vec::new();
        push_str_chars(&mut l2, "\u{2551} Current Renderer: ");
        push_str_chars(&mut l2, name.as_str());
        push_repeat_char(&mut l2, ' ', longest - name_len - 19);
        l2.push('\u{2551}');
        push_repeat_char(&mut l2, ' ', spacer_n);
        frame.push(string_from_chars(&l2));
        let mut l3: Vec<char> = Vec::new();
        push_str_chars(&mut l3, "\u{2551} ");
        push_str_chars(&mut l3, help);
        push_repeat_char(&mut l3, ' ', longest - help_len - 1);
        l3.push('\u{2551}');
        push_repeat_char(&mut l3, ' ', spacer_n);
        frame.push(string_from_chars(&l3));
        let mut l4: Vec<char> = Vec::new();
        l4.push('\u{255a}');
        push_repeat_char(&mut l4, '\u{2550}', longest);
        l4.push('\u{255d}');
        push_repeat_char(&mut l4, ' ', spacer_n);
        frame.push(string_from_chars(&l4));
        proof {
            let fv = frame@.map_values(|s: String| s@);
            let n = frame@.len();
            assert(frame@[n - 5]@ =~= self.spec_info_lines(path@)[0]);
            assert(frame@[n - 4]@ =~= self.spec_info_lines(path@)[1]);
            assert(frame@[n - 3]@ =~= self.spec_info_lines(path@)[2]);
            assert(frame@[n - 2]@ =~= self.spec_info_lines(path@)[3]);
            assert(frame@[n - 1]@ =~= self.spec_info_lines(path@)[4]);
            assert(forall|j: int|
                0 <= j < n ==> fv[j] == #[trigger] frame@[j]@);
            assert(fv =~= left);
        }
        let search_lines = self.search.draw();
        let ghost combined = self.spec_render_lines(*img, path@);
        let mut joined: Vec<char> = Vec::new();
        let mut i: usize = 0;
        while i < frame.len()
            invariant
                i <= frame@.len(),
                joined@ == spec_join_crlf(combined.take(i as int)),
            decreases frame@.len() - i,
        {
            if i > 0 {
                joined.push('\r');
                joined.push('\n');
            }
            push_str_chars(&mut joined, frame[i].as_str());
            push_str_chars(&mut joined, search_lines[i].as_str());
            i = i + 1;
            proof {
                assert(combined[i - 1] == left[i - 1] + self.search.spec_draw()[i - 1]);
                assert(combined.take(i as int).drop_last() =~= combined.take(i - 1));
                assert(combined.take(i as int).last() == combined[i - 1]);
                assert(joined@ =~= spec_join_crlf(combined.take(i as int)));
            }
        }
        proof {
            assert(combined.take(combined.len() as int) =~= combined);
        }
        match self.focus {
            TuiFocus::Player => {
                self.cursor_pos = ((help_len + 3) as u16, ((self.bounds.height - 1) as u16));
            },
            TuiFocus::Search => {
                self.cursor_pos = (
                    (self.player.bounds.width as u16) + self.search.cursor_x(),
                    self.search.cursor_y(),
                );
            },
        }
        string_from_chars(&joined)
    }
}

} // verus!
