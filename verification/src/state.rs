//! Interface state that carries real invariants: the shared text-input
//! behaviour (cursor movement, insertion, deletion), the search screen's
//! result list with wrap-around scrolling, and the article screen's load
//! slot.

use vstd::prelude::*;
use vstd::arithmetic::div_mod::{lemma_mod_multiples_vanish, lemma_small_mod};
use crate::cache::push_char;
use crate::fetch::SearchResult;
use crate::slot::LoadSlot;
use crate::span::FormattedSpan;

verus! {

/// Which screen the interface is showing.
pub enum AppState {
    Title,
    Search,
    SearchMenu,
    Article,
    ArticleMenu,
    Credit,
}

/// Direction of a wrap-around scroll through a list.
pub enum ScrollDirection {
    UP,
    DOWN,
}

/// Direction of a one-step cursor move through a text input.
pub enum CursorDirection {
    LEFT,
    RIGHT,
}

/// The input after a removal at cursor position `c`: the character before
/// the cursor is removed when one exists, otherwise nothing changes.
pub open spec fn removed_input(s: Seq<char>, c: int) -> Seq<char> {
    if 0 < c && c <= s.len() {
        s.remove(c - 1)
    } else {
        s
    }
}

/// A cursor value clamped to the range the input admits.
pub open spec fn cursor_clamped(v: int, len: int) -> int {
    if v < 0 {
        0
    } else if v > len + 1 {
        len + 1
    } else {
        v
    }
}

/// The cursor after a one-step move over an input of length `len`.
pub open spec fn stepped_cursor(c: int, len: int, d: CursorDirection) -> int {
    let c1 = match d {
        CursorDirection::LEFT => if c > 0 {
            c - 1
        } else {
            0
        },
        CursorDirection::RIGHT => if c < len {
            c + 1
        } else {
            c
        },
    };
    cursor_clamped(c1, len)
}

/// A text field with cursor movement, insertion and deletion, shared by the
/// screens that accept typing. Cursor positions count characters.
pub trait TypeableState {
    /// The field's current text.
    spec fn input_spec(&self) -> Seq<char>;

    /// The field's current cursor position.
    spec fn cursor_spec(&self) -> int;

    fn get_input(&self) -> (r: String)
        ensures
            r@ == self.input_spec(),
    ;

    fn insert_to_input_at_cursor(&mut self, c: char)
        requires
            0 <= old(self).cursor_spec() <= old(self).input_spec().len(),
        ensures
            final(self).input_spec() == old(self).input_spec().insert(
                old(self).cursor_spec(),
                c,
            ),
            final(self).cursor_spec() == old(self).cursor_spec(),
    ;

    fn remove_from_input_at_cursor(&mut self)
        ensures
            final(self).input_spec() == removed_input(
                old(self).input_spec(),
                old(self).cursor_spec(),
            ),
            final(self).cursor_spec() == old(self).cursor_spec(),
    ;

    fn get_cursor_pos(&self) -> (r: usize)
        ensures
            r == self.cursor_spec(),
    ;

    fn set_cursor_pos(&mut self, new_cursor_pos: usize)
        ensures
            final(self).cursor_spec() == new_cursor_pos,
            final(self).input_spec() == old(self).input_spec(),
    ;

    /// A hook for screens that highlight their text box when it is touched;
    /// it never changes the text or the cursor.
    fn trigger_text_focus(&mut self)
        ensures
            final(self).input_spec() == old(self).input_spec(),
            final(self).cursor_spec() == old(self).cursor_spec(),
    {
    }

    fn move_cursor_to_start(&mut self)
        ensures
            final(self).input_spec() == old(self).input_spec(),
            final(self).cursor_spec() == 0,
    {
        self.set_cursor_pos(0);
        self.trigger_text_focus();
    }

    fn move_cursor_to_end(&mut self)
        ensures
            final(self).input_spec() == old(self).input_spec(),
            final(self).cursor_spec() == old(self).input_spec().len(),
    {
        let s = self.get_input();
        let n = s.as_str().unicode_len();
        self.set_cursor_pos(n);
        self.trigger_text_focus();
    }

    fn move_cursor_one_step(&mut self, cursor_direction: CursorDirection)
        requires
            old(self).input_spec().len() < usize::MAX,
        ensures
            final(self).input_spec() == old(self).input_spec(),
            final(self).cursor_spec() == stepped_cursor(
                old(self).cursor_spec(),
                old(self).input_spec().len() as int,
                cursor_direction,
            ),
    {
        match cursor_direction {
            CursorDirection::LEFT => {
                let c = self.get_cursor_pos();
                let c1 = if c > 0 {
                    c - 1
                } else {
                    0
                };
                self.set_cursor_pos(c1);
            },
            CursorDirection::RIGHT => {
                let c = self.get_cursor_pos();
                let s = self.get_input();
                let n = s.as_str().unicode_len();
                if c < n {
                    self.set_cursor_pos(c + 1);
                }
            },
        }
        let c = self.get_cursor_pos();
        let s = self.get_input();
        let n = s.as_str().unicode_len();
        let c2 = if c > n + 1 {
            n + 1
        } else {
            c
        };
        self.set_cursor_pos(c2);
        self.trigger_text_focus();
    }

    fn type_char(&mut self, c: char)
        requires
            old(self).input_spec().len() + 1 < usize::MAX,
        ensures
            old(self).cursor_spec() <= old(self).input_spec().len() ==> {
                &&& final(self).input_spec() == old(self).input_spec().insert(
                    old(self).cursor_spec(),
                    c,
                )
                &&& final(self).cursor_spec() == old(self).cursor_spec() + 1
            },
            old(self).cursor_spec() > old(self).input_spec().len() ==> {
                &&& final(self).input_spec() == old(self).input_spec()
                &&& final(self).cursor_spec() == old(self).cursor_spec()
            },
    {
        let pos = self.get_cursor_pos();
        let s = self.get_input();
        let n = s.as_str().unicode_len();
        if !(pos > n) {
            self.insert_to_input_at_cursor(c);
            self.move_cursor_one_step(CursorDirection::RIGHT);
        }
        self.trigger_text_focus();
    }

    fn backspace(&mut self)
        requires
            old(self).input_spec().len() < usize::MAX,
        ensures
            old(self).input_spec().len() > 0 && old(self).cursor_spec() > 0 ==> {
                &&& final(self).input_spec() == removed_input(
                    old(self).input_spec(),
                    old(self).cursor_spec(),
                )
                &&& final(self).cursor_spec() == stepped_cursor(
                    old(self).cursor_spec(),
                    removed_input(old(self).input_spec(), old(self).cursor_spec()).len() as int,
                    CursorDirection::LEFT,
                )
            },
            !(old(self).input_spec().len() > 0 && old(self).cursor_spec() > 0) ==> {
                &&& final(self).input_spec() == old(self).input_spec()
                &&& final(self).cursor_spec() == old(self).cursor_spec()
            },
    {
        let s = self.get_input();
        if !s.as_str().is_empty() {
            let pos = self.get_cursor_pos();
            if pos > 0 {
                self.remove_from_input_at_cursor();
                self.move_cursor_one_step(CursorDirection::LEFT);
            }
        }
        self.trigger_text_focus();
    }
}

/// The title screen: a text field, nothing more.
pub struct TitleState {
    pub input: String,
    pub cursor_pos: usize,
}

impl TypeableState for TitleState {
    open spec fn input_spec(&self) -> Seq<char> {
        self.input@
    }

    open spec fn cursor_spec(&self) -> int {
        self.cursor_pos as int
    }

    fn get_input(&self) -> (r: String) {
        self.input.clone()
    }

    fn insert_to_input_at_cursor(&mut self, c: char) {
        insert_char_at(&mut self.input, self.cursor_pos, c);
    }

    fn remove_from_input_at_cursor(&mut self) {
        remove_char_before(&mut self.input, self.cursor_pos);
    }

    fn get_cursor_pos(&self) -> (r: usize) {
        self.cursor_pos
    }

    fn set_cursor_pos(&mut self, new_cursor_pos: usize) {
        self.cursor_pos = new_cursor_pos;
    }
}

/// Inserts `c` at character position `pos` of `s`.
fn insert_char_at(s: &mut String, pos: usize, c: char)
    requires
        pos <= old(s)@.len(),
    ensures
        final(s)@ == old(s)@.insert(pos as int, c),
{
    let n = s.as_str().unicode_len();
    let mut t = String::from_str(s.as_str().substring_char(0, pos));
    push_char(&mut t, c);
    t.append(s.as_str().substring_char(pos, n));
    proof {
        assert(t@ =~= old(s)@.insert(pos as int, c));
    }
    *s = t;
}

/// Removes the character before position `pos` of `s`, when one exists.
fn remove_char_before(s: &mut String, pos: usize)
    ensures
        final(s)@ == removed_input(old(s)@, pos as int),
{
    let n = s.as_str().unicode_len();
    if pos <= n && pos > 0 {
        let mut t = String::from_str(s.as_str().substring_char(0, pos - 1));
        t.append(s.as_str().substring_char(pos, n));
        proof {
            assert(t@ =~= removed_input(old(s)@, pos as int));
        }
        *s = t;
    }
}

/// The search screen: its text field, the query last submitted, the result
/// list behind its load slot, and the selection cursor over the results.
pub struct SearchState {
    pub input: String,
    pub current_query: String,
    pub results: LoadSlot<Vec<SearchResult>>,
    pub cursor_pos: usize,
    pub selected_index: usize,
    pub text_box_is_highlighted: bool,
}

impl SearchState {
    /// Whether a search fetch is currently in flight.
    pub fn currently_loading(&self) -> (r: bool)
        ensures
            r == self.results.in_flight,
    {
        self.results.is_loading()
    }

    /// Moves the result selection one step with wrap-around, unless a fetch
    /// is in flight or there are no results; always un-highlights the text
    /// box.
    pub fn scroll_results(&mut self, scroll_direction: ScrollDirection)
        requires
            old(self).selected_index < usize::MAX,
        ensures
            final(self).input == old(self).input,
            final(self).current_query == old(self).current_query,
            final(self).results == old(self).results,
            final(self).cursor_pos == old(self).cursor_pos,
            !final(self).text_box_is_highlighted,
            ({
                let len = old(self).results.value@.len() as int;
                if !old(self).results.in_flight && len > 0 {
                    match scroll_direction {
                        ScrollDirection::DOWN => final(self).selected_index == (old(
                            self,
                        ).selected_index + 1) % len,
                        ScrollDirection::UP => final(self).selected_index == (old(
                            self,
                        ).selected_index - 1) % len,
                    }
                } else {
                    final(self).selected_index == old(self).selected_index
                }
            }),
    {
        let loading = self.results.is_loading();
        if !loading {
            let len = self.results.value.len();
            if len > 0 {
                match scroll_direction {
                    ScrollDirection::DOWN => {
                        self.selected_index = (self.selected_index + 1) % len;
                    },
                    ScrollDirection::UP => {
                        if self.selected_index == 0 {
                            self.selected_index = len - 1;
                            proof {
                                let l = len as int;
                                lemma_mod_multiples_vanish(-1, l - 1, l);
                                lemma_small_mod((l - 1) as nat, l as nat);
                                assert(l * -1 + (l - 1) == -1);
                            }
                        } else {
                            self.selected_index = (self.selected_index - 1) % len;
                        }
                    },
                }
            }
        }
        self.text_box_is_highlighted = false;
    }

    /// The title of the selected search result, when the selection is in
    /// range.
    pub fn selected_search_result_title(&self) -> (r: Option<String>)
        ensures
            match r {
                Some(t) => self.selected_index < self.results.value@.len() && t@
                    == self.results.value@[self.selected_index as int].title@,
                None => self.selected_index >= self.results.value@.len(),
            },
    {
        if self.selected_index < self.results.value.len() {
            Some(self.results.value[self.selected_index].title.clone())
        } else {
            None
        }
    }
}

impl TypeableState for SearchState {
    open spec fn input_spec(&self) -> Seq<char> {
        self.input@
    }

    open spec fn cursor_spec(&self) -> int {
        self.cursor_pos as int
    }

    fn get_input(&self) -> (r: String) {
        self.input.clone()
    }

    fn insert_to_input_at_cursor(&mut self, c: char) {
        insert_char_at(&mut self.input, self.cursor_pos, c);
    }

    fn remove_from_input_at_cursor(&mut self) {
        remove_char_before(&mut self.input, self.cursor_pos);
    }

    fn get_cursor_pos(&self) -> (r: usize) {
        self.cursor_pos
    }

    fn set_cursor_pos(&mut self, new_cursor_pos: usize) {
        self.cursor_pos = new_cursor_pos;
    }

    /// Touching the field highlights the search text box.
    fn trigger_text_focus(&mut self)
        ensures
            final(self).text_box_is_highlighted,
    {
        self.text_box_is_highlighted = true;
    }
}

/// The article screen: the name of the article shown and its span sequence
/// behind its load slot.
pub struct ArticleState {
    pub article_name: String,
    pub markdown_spans: LoadSlot<Vec<FormattedSpan>>,
}

} // verus!
