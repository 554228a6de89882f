//! The popups of the editor: lists of completions, of hover text, of
//! references, of errors and of search results, in which one entry is
//! chosen with the cursor keys.

use crate::chars::{chars_to_string, str_chars};
use crate::keys::{Key, Modifiers};
use crate::order::{sorted_from, stable_sort, Ranked};
use crate::utils::{score_matches, score_of};
use vstd::prelude::*;
use vstd::utf8::encode_utf8;

verus! {

/// The rows that the list of completions shows.
pub const COMPLETION_HEIGHT: usize = 5;

/// The rows that the hover text shows.
pub const HOVER_HEIGHT: usize = 10;

/// The rows that the lists at the bottom of the screen show.
pub const LIST_HEIGHT: usize = 3;

/// Which entry of a list is chosen, and which is the first one shown.
#[derive(Clone, Copy, Debug, PartialEq, Eq, Structural)]
pub struct ListPopup {
    pub selected: usize,
    pub offset: usize,
}

impl ListPopup {
    /// The first entry shown, after the list was moved so that the chosen
    /// entry is among the `height` entries shown.
    pub open spec fn scrolled(self, height: usize) -> ListPopup {
        let offset = if self.selected < self.offset {
            self.selected
        } else {
            self.offset
        };
        ListPopup {
            offset: if self.selected >= offset + height && self.selected + 1 >= height {
                (self.selected + 1 - height) as usize
            } else {
                offset
            },
            ..self
        }
    }

    /// A list with its first entry chosen.
    pub fn new() -> (popup: Self)
        ensures
            popup == (ListPopup { selected: 0, offset: 0 }),
    {
        ListPopup { selected: 0, offset: 0 }
    }

    /// Moves the list so that the chosen entry is among those shown.
    pub fn scroll(&mut self, height: usize)
        requires
            height >= 1,
        ensures
            *final(self) == old(self).scrolled(height),
    {
        if self.selected < self.offset {
            self.offset = self.selected;
        }
        if height <= self.selected && self.offset <= self.selected - height {
            self.offset = self.selected - height + 1;
        }
    }

    /// The list after the next entry was chosen, where there is one among
    /// its `len` entries.
    pub open spec fn after_down(self, len: usize) -> ListPopup {
        if len > 0 && self.selected < len - 1 {
            ListPopup { selected: (self.selected + 1) as usize, ..self }
        } else {
            self
        }
    }

    /// The list after the entry before was chosen, where there is one.
    pub open spec fn after_up(self) -> ListPopup {
        if self.selected > 0 {
            ListPopup { selected: (self.selected - 1) as usize, ..self }
        } else {
            self
        }
    }

    /// Chooses the next entry.
    pub fn down(&mut self, len: usize)
        ensures
            *final(self) == old(self).after_down(len),
    {
        if len > 0 && self.selected < len - 1 {
            self.selected += 1;
        }
    }

    /// Chooses the entry before.
    pub fn up(&mut self)
        ensures
            *final(self) == old(self).after_up(),
    {
        if self.selected > 0 {
            self.selected -= 1;
        }
    }
}

/// What a key does to the list of completions.
#[derive(Clone, Copy, Debug, PartialEq, Eq, Structural)]
pub enum CompletionStep {
    /// The list is closed.
    Close,
    /// The chosen entry is applied and the list closed.
    Apply(usize),
    /// The list stays, maybe with another entry chosen.
    Stay,
    /// The cursor goes left, and completions are asked for anew.
    Left,
    /// The cursor goes right, and completions are asked for anew.
    Right,
    /// The character before the cursor is removed, and completions are
    /// asked for anew.
    Backspace,
    /// The character is typed, and completions are asked for anew.
    Insert(char),
}

/// What a key does to the list of completions, of `len` entries.  Keys with
/// a modifier count only where they are characters.
pub open spec fn completion_step_of(popup: ListPopup, key: Key, m: Modifiers, len: usize) -> (
    ListPopup,
    CompletionStep,
) {
    if m.none() && key == Key::Esc {
        (popup, CompletionStep::Close)
    } else if m.none() && (key == Key::Enter || key == Key::Tab) {
        (popup, CompletionStep::Apply(popup.selected))
    } else if m.none() && key == Key::Down {
        (popup.after_down(len), CompletionStep::Stay)
    } else if m.none() && key == Key::Up {
        (popup.after_up(), CompletionStep::Stay)
    } else if m.none() && key == Key::Left {
        (popup, CompletionStep::Left)
    } else if m.none() && key == Key::Right {
        (popup, CompletionStep::Right)
    } else if m.none() && key == Key::Backspace {
        (popup, CompletionStep::Backspace)
    } else {
        match key {
            Key::Char(' ') => (popup, CompletionStep::Close),
            Key::Char(c) => (popup, CompletionStep::Insert(c)),
            _ => (popup, CompletionStep::Stay),
        }
    }
}

/// What a key does to the list of completions.
pub fn completion_step(popup: &mut ListPopup, key: Key, m: Modifiers, len: usize) -> (step:
    CompletionStep)
    ensures
        (*final(popup), step) == completion_step_of(*old(popup), key, m, len),
{
    let plain = !m.control && !m.alt && !m.shift && !m.other;
    if plain {
        match key {
            Key::Esc => {
                return CompletionStep::Close;
            },
            Key::Enter | Key::Tab => {
                return CompletionStep::Apply(popup.selected);
            },
            Key::Down => {
                popup.down(len);
                return CompletionStep::Stay;
            },
            Key::Up => {
                popup.up();
                return CompletionStep::Stay;
            },
            Key::Left => {
                return CompletionStep::Left;
            },
            Key::Right => {
                return CompletionStep::Right;
            },
            Key::Backspace => {
                return CompletionStep::Backspace;
            },
            _ => {},
        }
    }
    match key {
        Key::Char(' ') => CompletionStep::Close,
        Key::Char(c) => CompletionStep::Insert(c),
        _ => CompletionStep::Stay,
    }
}

/// What a key does to a list that is only looked at or chosen from.
#[derive(Clone, Copy, Debug, PartialEq, Eq, Structural)]
pub enum ListStep {
    /// The list is closed and what it changed is taken back.
    Cancel,
    /// The chosen entry is taken and the list closed.
    Accept(usize),
    /// The list stays, maybe with another entry chosen.
    Stay,
    /// The chosen entry is copied and the list closed.
    Copy(usize),
}

/// What a key does to the hover text, the references and the results of a
/// search in all files: Escape closes the list, Enter and Tab take the
/// chosen entry, the cursor keys choose.  Keys with a modifier do nothing.
pub open spec fn list_step_of(popup: ListPopup, key: Key, m: Modifiers, len: usize) -> (
    ListPopup,
    ListStep,
) {
    if !m.none() {
        (popup, ListStep::Stay)
    } else {
        match key {
            Key::Esc => (popup, ListStep::Cancel),
            Key::Enter | Key::Tab => (popup, ListStep::Accept(popup.selected)),
            Key::Down => (popup.after_down(len), ListStep::Stay),
            Key::Up => (popup.after_up(), ListStep::Stay),
            _ => (popup, ListStep::Stay),
        }
    }
}

/// What a key does to the hover text, the references or the results of a
/// search in all files.
pub fn list_step(popup: &mut ListPopup, key: Key, m: Modifiers, len: usize) -> (step: ListStep)
    ensures
        (*final(popup), step) == list_step_of(*old(popup), key, m, len),
{
    let plain = !m.control && !m.alt && !m.shift && !m.other;
    if !plain {
        return ListStep::Stay;
    }
    match key {
        Key::Esc => ListStep::Cancel,
        Key::Enter | Key::Tab => ListStep::Accept(popup.selected),
        Key::Down => {
            popup.down(len);
            ListStep::Stay
        },
        Key::Up => {
            popup.up();
            ListStep::Stay
        },
        _ => ListStep::Stay,
    }
}

/// What a key does to the list of errors: Enter takes the chosen error,
/// Escape closes the list and takes the cursor back, `c` copies the chosen
/// error, the cursor keys choose.
pub open spec fn errors_step_of(popup: ListPopup, key: Key, m: Modifiers, len: usize) -> (
    ListPopup,
    ListStep,
) {
    if !m.none() {
        (popup, ListStep::Stay)
    } else {
        match key {
            Key::Enter => (popup, ListStep::Accept(popup.selected)),
            Key::Esc => (popup, ListStep::Cancel),
            Key::Char('c') => (popup, ListStep::Copy(popup.selected)),
            Key::Down => (popup.after_down(len), ListStep::Stay),
            Key::Up => (popup.after_up(), ListStep::Stay),
            _ => (popup, ListStep::Stay),
        }
    }
}

/// What a key does to the list of errors.
pub fn errors_step(popup: &mut ListPopup, key: Key, m: Modifiers, len: usize) -> (step: ListStep)
    ensures
        (*final(popup), step) == errors_step_of(*old(popup), key, m, len),
{
    let plain = !m.control && !m.alt && !m.shift && !m.other;
    if !plain {
        return ListStep::Stay;
    }
    match key {
        Key::Enter => ListStep::Accept(popup.selected),
        Key::Esc => ListStep::Cancel,
        Key::Char('c') => ListStep::Copy(popup.selected),
        Key::Down => {
            popup.down(len);
            ListStep::Stay
        },
        Key::Up => {
            popup.up();
            ListStep::Stay
        },
        _ => ListStep::Stay,
    }
}

/// Where a popup at the cursor is painted: the first of its rows and the
/// number of its rows.
#[derive(Clone, Copy, Debug, PartialEq, Eq, Structural)]
pub struct PopupPlace {
    pub from_y: usize,
    pub rows: usize,
    pub above: bool,
}

/// Where a popup of `entries` entries is painted that shows `height` of them
/// at most, for a cursor on row `cursor_row` of a screen of `screen_height`
/// rows: below the cursor, or above it where there is too little room below
/// and enough above.
pub open spec fn place_of_popup(
    entries: usize,
    height: usize,
    cursor_row: usize,
    screen_height: usize,
) -> PopupPlace {
    let rows = if entries < height {
        entries
    } else {
        height
    };
    let below = if screen_height >= cursor_row + 1 {
        screen_height - (cursor_row + 1)
    } else {
        0
    };
    let above = below < rows && cursor_row >= rows;
    PopupPlace {
        from_y: if above {
            (cursor_row - rows) as usize
        } else if cursor_row < usize::MAX {
            (cursor_row + 1) as usize
        } else {
            usize::MAX
        },
        rows,
        above,
    }
}

/// Where a popup at the cursor is painted.
pub fn popup_place(entries: usize, height: usize, cursor_row: usize, screen_height: usize) -> (place:
    PopupPlace)
    ensures
        place == place_of_popup(entries, height, cursor_row, screen_height),
{
    let rows = if entries < height {
        entries
    } else {
        height
    };
    let below = if cursor_row < screen_height {
        screen_height - (cursor_row + 1)
    } else {
        0
    };
    let above = below < rows && cursor_row >= rows;
    let from_y = if above {
        cursor_row - rows
    } else {
        cursor_row.saturating_add(1)
    };
    PopupPlace { from_y, rows, above }
}

/// An entry that a language server offers to complete a word with: what it
/// is listed as, and what it puts into the text where that differs.
#[derive(Debug)]
pub struct CompletionItem {
    pub label: String,
    pub new_text: Option<String>,
    /// How well the entry answers what was typed.
    pub score: i32,
    /// Whether the entry starts with what was typed.
    pub prefixed: bool,
}

impl CompletionItem {
    /// The text that the entry puts into the document.
    pub open spec fn insert_text(&self) -> Seq<char> {
        match self.new_text {
            Some(t) => t@,
            None => self.label@,
        }
    }

    /// The length by which entries that start with what was typed are put in
    /// order: the bytes of the label; for other entries none.
    pub open spec fn weight(&self) -> nat {
        if self.prefixed {
            encode_utf8(self.label@).len()
        } else {
            0
        }
    }

    /// The length by which entries that start with what was typed are put in
    /// order.
    pub fn weigh(&self) -> (w: usize)
        ensures
            w == self.weight(),
    {
        if self.prefixed {
            self.label.as_str().as_bytes().len()
        } else {
            0
        }
    }
}

impl Ranked for CompletionItem {
    /// Entries with the higher score come first; of entries of one score
    /// that start with what was typed, the shorter one.
    open spec fn precedes(&self, other: &Self) -> bool {
        self.score > other.score || (self.score == other.score && self.weight() < other.weight())
    }

    fn goes_before(&self, other: &Self) -> (r: bool) {
        self.score > other.score || (self.score == other.score && self.weigh() < other.weigh())
    }

    proof fn lemma_asym(a: &Self, b: &Self) {
    }

    proof fn lemma_order(a: &Self, b: &Self, c: &Self) {
    }
}

/// The most bytes of a label that are looked at when an entry is scored.
pub const SCORED_BYTES: usize = 100_000_000;

/// `item` is the entry with this label and text, scored against the word
/// `typed`: 1000 where it starts with the word, 10 for each time it holds
/// it, and 500 where it first holds it behind its first byte and before its
/// sixth.  An entry too long to be scored scores nothing.
pub open spec fn is_scored(
    item: CompletionItem,
    label: String,
    new_text: Option<String>,
    typed: Seq<char>,
) -> bool {
    &&& item.label == label
    &&& item.new_text == new_text
    &&& item.score == if encode_utf8(label@).len() <= SCORED_BYTES {
        score_of(encode_utf8(label@), encode_utf8(typed), label@.len())
    } else {
        0
    }
    &&& item.prefixed == (encode_utf8(typed).len() <= encode_utf8(label@).len() && encode_utf8(
        label@,
    ).subrange(0, encode_utf8(typed).len() as int) == encode_utf8(typed))
}

/// `items` are the entries that were offered, each scored against `typed`,
/// in the order in which they were offered.
pub open spec fn all_scored(
    items: Seq<CompletionItem>,
    offered: Seq<(String, Option<String>)>,
    typed: Seq<char>,
) -> bool {
    &&& items.len() == offered.len()
    &&& forall|i: int|
        0 <= i < items.len() ==> is_scored(#[trigger] items[i], offered[i].0, offered[i].1, typed)
}

/// An entry with its score against the word `typed`: 1000 where it starts
/// with the word, 10 for each time it holds it, and 500 where it first holds
/// it behind its first byte and before its sixth.  An entry too long to be
/// scored scores nothing.
pub fn scored(label: String, new_text: Option<String>, typed: &str) -> (item: CompletionItem)
    ensures
        is_scored(item, label, new_text, typed@),
{
    let prefixed = starts_with(label.as_str(), typed);
    let score = if label.as_str().as_bytes().len() <= SCORED_BYTES {
        proof {
            crate::text::lemma_occurrences_bound(encode_utf8(label@), encode_utf8(typed@), 0);
            crate::utils::lemma_chars_within_bytes(label@);
        }
        score_matches(label.as_str(), typed)
    } else {
        0
    };
    CompletionItem { label, new_text, score, prefixed }
}

/// Whether `text` starts with `prefix`, byte by byte.
pub fn starts_with(text: &str, prefix: &str) -> (r: bool)
    ensures
        r == (encode_utf8(prefix@).len() <= encode_utf8(text@).len() && encode_utf8(
            text@,
        ).subrange(0, encode_utf8(prefix@).len() as int) == encode_utf8(prefix@)),
{
    let t = text.as_bytes();
    let p = prefix.as_bytes();
    if p.len() > t.len() {
        return false;
    }
    let mut i: usize = 0;
    while i < p.len()
        invariant
            i <= p@.len() <= t@.len(),
            t@ == encode_utf8(text@),
            p@ == encode_utf8(prefix@),
            forall|j: int| 0 <= j < i ==> t@[j] == p@[j],
        decreases p@.len() - i,
    {
        if t[i] != p[i] {
            assert(t@.subrange(0, p@.len() as int)[i as int] != p@[i as int]);
            return false;
        }
        i += 1;
    }
    assert(t@.subrange(0, p@.len() as int) =~= p@);
    true
}

/// The entries in the order in which they are offered: the best score
/// first; of entries of one score that start with what was typed the
/// shorter one first; entries that rank the same as they came.
pub fn sort_completions(items: Vec<CompletionItem>) -> (sorted: Vec<CompletionItem>)
    ensures
        sorted_from(items@, sorted@),
        sorted@.len() == items@.len(),
{
    stable_sort(items)
}

/// The lines of a text: what stands between its line feeds, each without a
/// carriage return at its end.  A line feed at the end of the text opens no
/// line.
pub open spec fn lines_of(text: Seq<char>, from: int) -> Seq<Seq<char>>
    decreases text.len() - from,
{
    if from < 0 || from >= text.len() {
        Seq::empty()
    } else {
        let end = line_end(text, from);
        let rest = if end >= text.len() {
            Seq::empty()
        } else {
            proof {
                lemma_line_end(text, from);
            }
            lines_of(text, end + 1)
        };
        seq![trimmed(text.subrange(from, end))] + rest
    }
}

/// The first position at or behind `i` at which `text` holds a line feed, or
/// its length.
pub open spec fn line_end(text: Seq<char>, i: int) -> int
    decreases text.len() - i,
{
    if i < 0 || i >= text.len() {
        text.len() as int
    } else if text[i] == '\n' {
        i
    } else {
        line_end(text, i + 1)
    }
}

/// Where `line_end` stops: at or behind where it started, within the text.
pub proof fn lemma_line_end(text: Seq<char>, i: int)
    requires
        0 <= i,
    ensures
        i <= line_end(text, i) || line_end(text, i) == text.len(),
        line_end(text, i) <= text.len(),
        i <= text.len() ==> i <= line_end(text, i),
    decreases text.len() - i,
{
    if i < text.len() && text[i] != '\n' {
        lemma_line_end(text, i + 1);
    }
}

/// A line without the carriage return at its end, where it has one.
pub open spec fn trimmed(line: Seq<char>) -> Seq<char> {
    if line.len() > 0 && line.last() == '\r' {
        line.drop_last()
    } else {
        line
    }
}

/// The lines of a hover text.
pub fn hover_lines(text: &str) -> (lines: Vec<String>)
    ensures
        lines@.map_values(|l: String| l@) == lines_of(text@, 0),
{
    let chars = str_chars(text);
    let mut lines: Vec<String> = Vec::new();
    let mut from: usize = 0;
    assert(lines@.map_values(|l: String| l@) =~= Seq::<Seq<char>>::empty());
    while from < chars.len()
        invariant
            from <= chars@.len(),
            chars@ == text@,
            lines@.map_values(|l: String| l@) + lines_of(text@, from as int) == lines_of(text@, 0),
        decreases chars@.len() - from,
    {
        let mut end = from;
        while end < chars.len() && chars[end] != '\n'
            invariant
                from <= end <= chars@.len(),
                chars@ == text@,
                line_end(text@, end as int) == line_end(text@, from as int),
            decreases chars@.len() - end,
        {
            end += 1;
        }
        let mut stop = end;
        if stop > from && chars[stop - 1] == '\r' {
            stop -= 1;
        }
        let mut line: Vec<char> = Vec::new();
        let mut i = from;
        while i < stop
            invariant
                from <= i <= stop <= chars@.len(),
                line@ == chars@.subrange(from as int, i as int),
            decreases stop - i,
        {
            line.push(chars[i]);
            i += 1;
            assert(line@ =~= chars@.subrange(from as int, i as int));
        }
        let ghost rest = if end >= text@.len() {
            Seq::<Seq<char>>::empty()
        } else {
            lines_of(text@, end + 1)
        };
        proof {
            let whole = text@.subrange(from as int, end as int);
            assert(line@ =~= trimmed(whole));
            assert(lines_of(text@, from as int) =~= seq![trimmed(whole)] + rest);
        }
        let ghost before = lines@.map_values(|l: String| l@);
        let owned = chars_to_string(&line);
        lines.push(owned);
        proof {
            assert(lines@.map_values(|l: String| l@) =~= before.push(line@));
            assert(before.push(line@) + rest =~= before + (seq![line@] + rest));
        }
        if end == chars.len() {
            assert(lines_of(text@, end as int) =~= Seq::<Seq<char>>::empty());
            from = end;
        } else {
            from = end + 1;
        }
    }
    proof {
        assert(lines_of(text@, from as int) =~= Seq::<Seq<char>>::empty());
        assert(lines@.map_values(|l: String| l@) + Seq::<Seq<char>>::empty()
            =~= lines@.map_values(|l: String| l@));
    }
    lines
}

} // verus!
