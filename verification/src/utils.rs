//! Small tools of the editor: colours from hex strings, scores of completion
//! items, word motion, padding, the history of cursor positions and the kinds
//! of mouse click.

use crate::chars::{chars_to_string, same_text, str_chars};
use crate::screen::Color;
use crate::text::occurrences;
use std::collections::VecDeque;
use vstd::prelude::*;
use vstd::string::StringSliceAdditionalSpecFns;
use vstd::utf8::is_char_boundary;

verus! {

/// The value of a byte as a hexadecimal digit, where it is one.
pub open spec fn hex_digit(b: u8) -> Option<int> {
    if 0x30 <= b <= 0x39 {
        Some(b - 0x30)
    } else if 0x61 <= b <= 0x66 {
        Some(b - 0x61 + 10)
    } else if 0x41 <= b <= 0x46 {
        Some(b - 0x41 + 10)
    } else {
        None
    }
}

/// The number that two bytes spell in hexadecimal: two digits, or a plus
/// sign and one digit.  Anything else counts as 0.
pub open spec fn hex_pair(hi: u8, lo: u8) -> int {
    match (hex_digit(hi), hex_digit(lo)) {
        (Some(h), Some(l)) => 16 * h + l,
        (None, Some(l)) if hi == 0x2b => l,
        _ => 0,
    }
}

/// The first position at or behind `i` at which `bytes` holds no `#`.
pub open spec fn skip_hashes(bytes: Seq<u8>, i: int) -> int
    decreases bytes.len() - i,
{
    if 0 <= i < bytes.len() && bytes[i] == 0x23 {
        skip_hashes(bytes, i + 1)
    } else {
        i
    }
}

/// Behind its leading `#`s the string holds three pairs of bytes, each made
/// of whole characters.
pub open spec fn holds_rgb(hex: Seq<u8>) -> bool {
    let at = skip_hashes(hex, 0);
    &&& at + 6 <= hex.len()
    &&& is_char_boundary(hex, at + 2)
    &&& is_char_boundary(hex, at + 4)
    &&& is_char_boundary(hex, at + 6)
}

/// The three numbers that the string spells behind its leading `#`s.
pub open spec fn rgb_of(hex: Seq<u8>) -> (u8, u8, u8) {
    let at = skip_hashes(hex, 0);
    (
        hex_pair(hex[at], hex[at + 1]) as u8,
        hex_pair(hex[at + 2], hex[at + 3]) as u8,
        hex_pair(hex[at + 4], hex[at + 5]) as u8,
    )
}

fn digit_of(b: u8) -> (d: Option<u8>)
    ensures
        (match d {
            Some(v) => Some(v as int),
            None => None,
        }) == hex_digit(b),
        d matches Some(v) ==> v < 16,
{
    if 0x30 <= b && b <= 0x39 {
        Some(b - 0x30)
    } else if 0x61 <= b && b <= 0x66 {
        Some(b - 0x61 + 10)
    } else if 0x41 <= b && b <= 0x46 {
        Some(b - 0x41 + 10)
    } else {
        None
    }
}

fn pair_of(hi: u8, lo: u8) -> (v: u8)
    ensures
        v == hex_pair(hi, lo),
{
    match (digit_of(hi), digit_of(lo)) {
        (Some(h), Some(l)) => 16 * h + l,
        (None, Some(l)) => if hi == 0x2b {
            l
        } else {
            0
        },
        _ => 0,
    }
}

/// The red, green and blue parts that a colour such as `#1a2b3c` names.
pub fn hex_to_rgb(hex_color: &str) -> (rgb: (u8, u8, u8))
    requires
        holds_rgb(hex_color.spec_bytes()),
    ensures
        rgb == rgb_of(hex_color.spec_bytes()),
{
    let bytes = hex_color.as_bytes();
    let mut at: usize = 0;
    while at < bytes.len() && bytes[at] == 0x23
        invariant
            at <= bytes@.len(),
            skip_hashes(bytes@, at as int) == skip_hashes(bytes@, 0),
        decreases bytes@.len() - at,
    {
        at += 1;
    }
    let r = pair_of(bytes[at], bytes[at + 1]);
    let g = pair_of(bytes[at + 2], bytes[at + 3]);
    let b = pair_of(bytes[at + 4], bytes[at + 5]);
    (r, g, b)
}

/// The colour that a string such as `#1a2b3c` names.
pub fn hex_to_color(hex_color: &str) -> (color: Color)
    requires
        holds_rgb(hex_color.spec_bytes()),
    ensures
        color == (Color::Rgb {
            r: rgb_of(hex_color.spec_bytes()).0,
            g: rgb_of(hex_color.spec_bytes()).1,
            b: rgb_of(hex_color.spec_bytes()).2,
        }),
{
    let (r, g, b) = hex_to_rgb(hex_color);
    Color::Rgb { r, g, b }
}

/// Whether a colour can be read from the string.
pub fn is_hex_color(hex_color: &str) -> (r: bool)
    ensures
        r == holds_rgb(hex_color.spec_bytes()),
{
    let bytes = hex_color.as_bytes();
    let mut at: usize = 0;
    while at < bytes.len() && bytes[at] == 0x23
        invariant
            at <= bytes@.len(),
            skip_hashes(bytes@, at as int) == skip_hashes(bytes@, 0),
        decreases bytes@.len() - at,
    {
        at += 1;
    }
    bytes.len() - at >= 6 && hex_color.is_char_boundary(at + 2) && hex_color.is_char_boundary(
        at + 4,
    ) && hex_color.is_char_boundary(at + 6)
}

/// How often `pat` is found in `s`, from left to right, each search starting
/// behind the match before it.  The empty pattern is found before every
/// character and at the end.
pub open spec fn match_count(s: Seq<u8>, pat: Seq<u8>, chars: nat) -> nat {
    if pat.len() == 0 {
        chars + 1
    } else {
        occurrences(s, pat, 0).len()
    }
}

/// The byte offset of the first place at which `pat` is found in `s`.
pub open spec fn first_match(s: Seq<u8>, pat: Seq<u8>) -> Option<int> {
    if pat.len() == 0 {
        Some(0)
    } else if occurrences(s, pat, 0).len() > 0 {
        Some(occurrences(s, pat, 0)[0])
    } else {
        None
    }
}

/// How well `src` answers the typed `match_str`: 1000 where it starts with
/// it, 10 for each time it holds it, and 500 where it first holds it behind
/// its first byte and before its sixth.
pub open spec fn score_of(src: Seq<u8>, pat: Seq<u8>, chars: nat) -> int {
    (if pat.len() <= src.len() && src.subrange(0, pat.len() as int) == pat {
        1000int
    } else {
        0int
    }) + 10 * match_count(src, pat, chars) + (match first_match(src, pat) {
        Some(at) if 0 < at < 5 => 500int,
        _ => 0int,
    })
}

/// Whether `pat` stands in `s` at byte offset `at`.
fn bytes_at(s: &[u8], pat: &[u8], at: usize) -> (r: bool)
    requires
        at + pat@.len() <= s@.len(),
    ensures
        r == (s@.subrange(at as int, at + pat@.len()) == pat@),
{
    let total = s.len();
    let mut k: usize = 0;
    while k < pat.len()
        invariant
            k <= pat@.len(),
            total == s@.len(),
            at + pat@.len() <= s@.len(),
            forall|j: int| 0 <= j < k ==> s@[at + j] == pat@[j],
        decreases pat@.len() - k,
    {
        if s[at + k] != pat[k] {
            assert(s@.subrange(at as int, at + pat@.len())[k as int] != pat@[k as int]);
            return false;
        }
        k += 1;
    }
    assert(s@.subrange(at as int, at + pat@.len()) =~= pat@);
    true
}

/// The score of a completion item against what was typed.
pub fn score_matches(src: &str, match_str: &str) -> (score: i32)
    requires
        10 * match_count(src.spec_bytes(), match_str.spec_bytes(), src@.len()) + 1500 <= i32::MAX,
    ensures
        score == score_of(src.spec_bytes(), match_str.spec_bytes(), src@.len()),
{
    let s = src.as_bytes();
    let pat = match_str.as_bytes();
    let mut score: i32 = 0;
    if pat.len() == 0 {
        let n = vstd::string::StrSliceExecFns::unicode_len(src);
        proof {
            vstd::utf8::encode_utf8_decode_utf8(src@);
            lemma_chars_within_bytes(src@);
            assert(s@.subrange(0, 0) =~= pat@);
        }
        return 1000 + (n as i32 + 1) * 10;
    }
    if pat.len() <= s.len() && bytes_at(s, pat, 0) {
        score += 1000;
    }
    let mut count: usize = 0;
    let mut first: Option<usize> = None;
    let mut at: usize = 0;
    while pat.len() <= s.len() - at
        invariant
            at <= s@.len(),
            pat@.len() > 0,
            count <= at,
            score == 0 || score == 1000,
            10 * occurrences(s@, pat@, 0).len() + 1500 <= i32::MAX,
            seq_count(s@, pat@, at as int) + count == occurrences(s@, pat@, 0).len(),
            count == 0 ==> first is None && occurrences(s@, pat@, at as int) == occurrences(
                s@,
                pat@,
                0,
            ),
            count > 0 ==> first is Some && occurrences(s@, pat@, 0).len() > 0 && first->0
                == occurrences(s@, pat@, 0)[0],
        decreases s@.len() - at,
    {
        if bytes_at(s, pat, at) {
            if count == 0 {
                first = Some(at);
            }
            count += 1;
            at = at + pat.len();
        } else {
            at = at + 1;
        }
    }
    score += (count as i32) * 10;
    if let Some(initial_index) = first {
        if initial_index > 0 && initial_index < 5 {
            score += 500;
        }
    }
    score
}

/// The number of matches found at or behind `from`.
pub open spec fn seq_count(s: Seq<u8>, pat: Seq<u8>, from: int) -> nat {
    occurrences(s, pat, from).len()
}

/// A text has no more characters than bytes.
pub proof fn lemma_chars_within_bytes(chars: Seq<char>)
    ensures
        chars.len() <= vstd::utf8::encode_utf8(chars).len(),
    decreases chars.len(),
{
    if chars.len() > 0 {
        vstd::utf8::encode_utf8_first_scalar(chars);
        lemma_chars_within_bytes(chars.drop_first());
    }
}

/// A character at which a word ends.
pub open spec fn is_word_break(c: char) -> bool {
    c == ' ' || c == '.' || c == ',' || c == '=' || c == '+' || c == '-' || c == '[' || c == '('
        || c == '{' || c == ']' || c == ')' || c == '}' || c == '"' || c == ':' || c == '&' || c
        == '?' || c == '!' || c == ';' || c == '\t' || c == '/' || c == '<' || c == '>' || c
        == '\n'
}

/// Whether a word ends at `c`.
pub fn word_break(c: char) -> (r: bool)
    ensures
        r == is_word_break(c),
{
    c == ' ' || c == '.' || c == ',' || c == '=' || c == '+' || c == '-' || c == '[' || c == '('
        || c == '{' || c == ']' || c == ')' || c == '}' || c == '"' || c == ':' || c == '&' || c
        == '?' || c == '!' || c == ';' || c == '\t' || c == '/' || c == '<' || c == '>' || c
        == '\n'
}

/// The first position at or behind `i` at which `line` holds a word break, or
/// the position of its last character where it holds none.
pub open spec fn next_break(line: Seq<char>, i: int) -> int
    decreases line.len() - i,
{
    if i < 0 || i >= line.len() {
        line.len() - 1
    } else if is_word_break(line[i]) {
        i
    } else {
        next_break(line, i + 1)
    }
}

/// The position behind the last word break before `i`, or 0 where there is
/// none.  From behind the line's end the answer is 0.
pub open spec fn prev_break(line: Seq<char>, i: int) -> int
    decreases i,
{
    if i <= 0 || i > line.len() {
        0
    } else if is_word_break(line[i - 1]) {
        i
    } else {
        prev_break(line, i - 1)
    }
}

/// The last word break before a position lies before it.
pub proof fn lemma_prev_break(line: Seq<char>, i: int)
    ensures
        0 <= prev_break(line, i),
        i >= 0 ==> prev_break(line, i) <= i,
        prev_break(line, i) <= line.len(),
    decreases i,
{
    if i > 0 && i <= line.len() && !is_word_break(line[i - 1]) {
        lemma_prev_break(line, i - 1);
    }
}

/// The column of the next word break at or behind column `from`.
pub fn find_next_word(line: &str, from: usize) -> (at: usize)
    requires
        line@.len() > 0,
    ensures
        at == next_break(line@, from as int),
{
    let chars = str_chars(line);
    let mut i: usize = from;
    while i < chars.len()
        invariant
            chars@ == line@,
            next_break(line@, i as int) == next_break(line@, from as int),
        decreases chars@.len() - i,
    {
        if word_break(chars[i]) {
            return i;
        }
        i += 1;
    }
    chars.len() - 1
}

/// The column behind the last word break before column `from`.
pub fn find_prev_word(line: &str, from: usize) -> (at: usize)
    ensures
        at == prev_break(line@, from as int),
{
    let chars = str_chars(line);
    let mut i: usize = from;
    while i > 0
        invariant
            chars@ == line@,
            prev_break(line@, i as int) == prev_break(line@, from as int),
        decreases i,
    {
        if i > chars.len() {
            return 0;
        }
        if word_break(chars[i - 1]) {
            return i;
        }
        i -= 1;
    }
    0
}

/// `n` spaces.
pub open spec fn spaces(n: nat) -> Seq<char> {
    Seq::new(n, |i: int| ' ')
}

/// `text` with spaces behind it up to `length` characters; `text` itself
/// where it is that long already.
pub fn pad_left(text: &str, length: usize) -> (padded: String)
    ensures
        padded@ == text@ + spaces(
            if length > text@.len() {
                (length - text@.len()) as nat
            } else {
                0
            },
        ),
{
    let mut chars = str_chars(text);
    let ghost start = chars@;
    assert(chars@ =~= start + spaces(0));
    while chars.len() < length
        invariant
            start == text@,
            chars@.len() >= start.len(),
            chars@.len() == start.len() || chars@.len() <= length,
            chars@ == start + spaces((chars@.len() - start.len()) as nat),
        decreases length - chars@.len(),
    {
        chars.push(' ');
        assert(chars@ =~= start + spaces((chars@.len() - start.len()) as nat));
    }
    chars_to_string(&chars)
}

/// The name under which directories are left out of the tree and of
/// searches.
pub open spec fn ignored_dir(name: Seq<char>) -> bool {
    name == ".git"@ || name == ".idea"@ || name == ".vscode"@ || name == "node_modules"@ || name
        == "dist"@ || name == "target"@ || name == "__pycache__"@ || name == ".pytest_cache"@
        || name == "build"@ || name == ".DS_Store"@ || name == ".venv"@ || name == "venv"@
}

/// Whether a directory of this name is left out.
pub fn is_ignored_dir(name: &str) -> (r: bool)
    ensures
        r == ignored_dir(name@),
{
    same_text(name, ".git") || same_text(name, ".idea") || same_text(name, ".vscode")
        || same_text(name, "node_modules") || same_text(name, "dist") || same_text(name, "target")
        || same_text(name, "__pycache__") || same_text(name, ".pytest_cache") || same_text(
        name,
        "build",
    ) || same_text(name, ".DS_Store") || same_text(name, ".venv") || same_text(name, "venv")
}

/// The name under which files are left out of the tree.
pub open spec fn ignored_file(name: Seq<char>) -> bool {
    name == ".DS_Store"@
}

/// Whether a file of this name is left out.
pub fn is_ignored_file(name: &str) -> (r: bool)
    ensures
        r == ignored_file(name@),
{
    same_text(name, ".DS_Store")
}

/// The extensions of files that a search leaves out.
pub open spec fn ignored_ext(ext: Seq<char>) -> bool {
    ext == "doc"@ || ext == "docx"@ || ext == "pdf"@ || ext == "rtf"@ || ext == "odt"@ || ext
        == "xlsx"@ || ext == "pptx"@ || ext == "jpg"@ || ext == "png"@ || ext == "gif"@ || ext
        == "bmp"@ || ext == "svg"@ || ext == "tiff"@ || ext == "mp3"@ || ext == "wav"@ || ext
        == "aac"@ || ext == "flac"@ || ext == "ogg"@ || ext == "mp4"@ || ext == "avi"@ || ext
        == "mov"@ || ext == "wmv"@ || ext == "mkv"@ || ext == "zip"@ || ext == "rar"@ || ext
        == "tar.gz"@ || ext == "7z"@ || ext == "exe"@ || ext == "msi"@ || ext == "bat"@ || ext
        == "sh"@ || ext == "so"@ || ext == "ttf"@ || ext == "otf"@
}

/// Whether a search leaves out files of this extension.
pub fn is_ignored_ext(ext: &str) -> (r: bool)
    ensures
        r == ignored_ext(ext@),
{
    same_text(ext, "doc") || same_text(ext, "docx") || same_text(ext, "pdf") || same_text(
        ext,
        "rtf",
    ) || same_text(ext, "odt") || same_text(ext, "xlsx") || same_text(ext, "pptx") || same_text(
        ext,
        "jpg",
    ) || same_text(ext, "png") || same_text(ext, "gif") || same_text(ext, "bmp") || same_text(
        ext,
        "svg",
    ) || same_text(ext, "tiff") || same_text(ext, "mp3") || same_text(ext, "wav") || same_text(
        ext,
        "aac",
    ) || same_text(ext, "flac") || same_text(ext, "ogg") || same_text(ext, "mp4") || same_text(
        ext,
        "avi",
    ) || same_text(ext, "mov") || same_text(ext, "wmv") || same_text(ext, "mkv") || same_text(
        ext,
        "zip",
    ) || same_text(ext, "rar") || same_text(ext, "tar.gz") || same_text(ext, "7z") || same_text(
        ext,
        "exe",
    ) || same_text(ext, "msi") || same_text(ext, "bat") || same_text(ext, "sh") || same_text(
        ext,
        "so",
    ) || same_text(ext, "ttf") || same_text(ext, "otf")
}

/// The final component of a path, as `Path::file_name` tells it on the
/// platform that the library is built for: which characters part the
/// components of a path is the platform's matter.
pub uninterp spec fn path_tail(path: Seq<char>) -> Option<Seq<char>>;

/// `Path::file_name`, with the name made a string as `OsStr::to_string_lossy`
/// does: the final component of the path, where it has one.
#[verifier::external_body]
fn path_file_name(input: &str) -> (name: Option<String>)
    ensures
        crate::config::option_view(name) == path_tail(input@),
{
    std::path::Path::new(input).file_name().map(|n| n.to_string_lossy().into_owned())
}

/// The name of the file that a path leads to.
pub fn get_file_name(input: &str) -> (name: String)
    requires
        path_tail(input@) is Some,
    ensures
        Some(name@) == path_tail(input@),
{
    path_file_name(input).unwrap()
}

/// The name of the file that a path leads to, where the path has a final
/// component.
pub fn file_name_of(input: &str) -> (name: Option<String>)
    ensures
        crate::config::option_view(name) == path_tail(input@),
{
    match path_file_name(input) {
        Some(_) => Some(get_file_name(input)),
        None => None,
    }
}

/// A place of the cursor that is worth going back to: the file, the cursor
/// and the scroll offsets.
#[derive(Debug)]
pub struct CursorPosition {
    pub filename: String,
    pub row: usize,
    pub col: usize,
    pub y: usize,
    pub x: usize,
}

impl Clone for CursorPosition {
    fn clone(&self) -> (r: Self)
        ensures
            r == *self,
    {
        CursorPosition {
            filename: self.filename.clone(),
            row: self.row,
            col: self.col,
            y: self.y,
            x: self.x,
        }
    }
}

impl CursorPosition {
    /// The same file, row and column; the scroll offsets do not count.
    pub open spec fn same_place(self, other: CursorPosition) -> bool {
        self.row == other.row && self.col == other.col && self.filename@ == other.filename@
    }
}

/// The most places that the history keeps.
pub const MAX_POSITIONS: usize = 10000;

/// The history of cursor places, as plain values: the places, oldest first,
/// and how many of them lie behind the cursor.  The places from `index` on
/// are those that going back has left.
pub struct HistoryView {
    pub index: nat,
    pub positions: Seq<CursorPosition>,
}

impl HistoryView {
    /// The history after `p` was pushed.  Pushing the place that was pushed
    /// last changes nothing.  Else the places that going back has left are
    /// dropped, the oldest place is dropped where the history is full, and `p`
    /// becomes the newest place.
    pub open spec fn pushed(self, p: CursorPosition) -> HistoryView {
        if self.index > 0 && self.positions[self.index - 1].same_place(p) {
            self
        } else {
            let kept = self.positions.take(self.index as int);
            let room = if kept.len() == MAX_POSITIONS {
                kept.drop_first()
            } else {
                kept
            };
            HistoryView { index: room.len() + 1, positions: room.push(p) }
        }
    }
}

/// The history of cursor places that Ctrl+O and Ctrl+P walk.
pub struct CursorHistory {
    index: usize,
    max_items: usize,
    positions: VecDeque<CursorPosition>,
}

impl View for CursorHistory {
    type V = HistoryView;

    closed spec fn view(&self) -> HistoryView {
        HistoryView { index: self.index as nat, positions: self.positions@ }
    }
}

impl CursorHistory {
    /// The index lies within the places, and there are no more of them than
    /// the history keeps.
    pub closed spec fn wf(&self) -> bool {
        &&& self.index <= self.positions@.len()
        &&& self.positions@.len() <= self.max_items
        &&& self.max_items == MAX_POSITIONS
    }

    /// What `wf` says of the view.
    pub proof fn lemma_wf(&self)
        requires
            self.wf(),
        ensures
            self@.index <= self@.positions.len() <= MAX_POSITIONS,
    {
    }

    pub fn new() -> (h: Self)
        ensures
            h.wf(),
            h@.index == 0,
            h@.positions.len() == 0,
    {
        Self { index: 0, max_items: 10000, positions: VecDeque::new() }
    }

    /// Takes note of a place: see `HistoryView::pushed`.
    pub fn push(&mut self, position: CursorPosition)
        requires
            old(self).wf(),
        ensures
            final(self).wf(),
            final(self)@ == old(self)@.pushed(position),
    {
        // The place that was pushed last is not pushed again.
        if self.index > 0 {
            let last = &self.positions[self.index - 1];
            if last.row == position.row && last.col == position.col && same_text(
                last.filename.as_str(),
                position.filename.as_str(),
            ) {
                return ;
            }
        }
        // Drop what going back has left.
        while self.positions.len() > self.index
            invariant
                self.index == old(self).index,
                self.max_items == old(self).max_items,
                self.index <= self.positions@.len() <= old(self).positions@.len(),
                self.positions@ == old(self).positions@.take(self.positions@.len() as int),
            decreases self.positions@.len(),
        {
            self.positions.pop_back();
            assert(self.positions@ =~= old(self).positions@.take(self.positions@.len() as int));
        }

        // Keep the history within its size.
        if self.positions.len() == self.max_items {
            self.positions.pop_front();
            self.index -= 1;
            assert(self.positions@ =~= old(self).positions@.take(old(self).index as int).drop_first());
        }
        self.positions.push_back(position);
        self.index += 1;
    }

    /// Goes back one place and returns it.
    pub fn undo(&mut self) -> (p: Option<CursorPosition>)
        requires
            old(self).wf(),
        ensures
            final(self).wf(),
            final(self)@.positions == old(self)@.positions,
            old(self)@.index == 0 ==> p is None && final(self)@.index == 0,
            old(self)@.index > 0 ==> final(self)@.index == old(self)@.index - 1 && p == Some(
                old(self)@.positions[old(self)@.index - 1],
            ),
    {
        if self.index == 0 {
            None
        } else {
            self.index -= 1;
            Some(self.positions[self.index].clone())
        }
    }

    /// Goes forward one place and returns it.
    pub fn redo(&mut self) -> (p: Option<CursorPosition>)
        requires
            old(self).wf(),
        ensures
            final(self).wf(),
            final(self)@.positions == old(self)@.positions,
            old(self)@.index >= old(self)@.positions.len() ==> p is None && final(self)@.index
                == old(self)@.index,
            old(self)@.index < old(self)@.positions.len() ==> final(self)@.index == old(
                self,
            )@.index + 1 && p == Some(old(self)@.positions[old(self)@.index as int]),
    {
        if self.index >= self.positions.len() {
            None
        } else {
            let pos = self.positions[self.index].clone();
            self.index += 1;
            Some(pos)
        }
    }

    /// The place that was reached last.
    pub fn current(&self) -> (p: Option<&CursorPosition>)
        requires
            self.wf(),
        ensures
            self@.index == 0 ==> p is None,
            self@.index > 0 ==> p is Some && *p->0 == self@.positions[self@.index - 1],
    {
        if self.index == 0 {
            None
        } else {
            Some(&self.positions[self.index - 1])
        }
    }

    /// The place that going forward would reach.
    pub fn peek_redo(&self) -> (p: Option<&CursorPosition>)
        requires
            self.wf(),
        ensures
            self@.index >= self@.positions.len() ==> p is None,
            self@.index < self@.positions.len() ==> p is Some && *p->0
                == self@.positions[self@.index as int],
    {
        if self.index < self.positions.len() {
            Some(&self.positions[self.index])
        } else {
            None
        }
    }
}

/// Pushing never leaves more places than the history keeps, and leaves the
/// pushed place, or the equal one that was there, as the last one reached.
pub proof fn lemma_push_bounded(h: HistoryView, p: CursorPosition)
    requires
        h.index <= h.positions.len() <= MAX_POSITIONS,
    ensures
        h.pushed(p).index == h.pushed(p).positions.len() || h.pushed(p) == h,
        h.pushed(p).positions.len() <= MAX_POSITIONS,
        h.pushed(p).index > 0,
        h.pushed(p).positions[h.pushed(p).index - 1].same_place(p),
{
}

/// Pushing the same place twice is pushing it once.
pub proof fn lemma_push_twice(h: HistoryView, p: CursorPosition)
    requires
        h.index <= h.positions.len() <= MAX_POSITIONS,
    ensures
        h.pushed(p).pushed(p) == h.pushed(p),
{
}

/// The longest time between two clicks of one double or triple click, in
/// milliseconds.
pub const CLICK_INTERVAL_MS: u64 = 700;

/// How many clicks in a row a mouse click completes.
#[derive(Clone, Copy, Debug, PartialEq, Eq, Structural)]
pub enum ClickType {
    Single,
    Double,
    Triple,
}

/// The time from `earlier` to `now`; none where `earlier` is the later one.
pub open spec fn since(now: u64, earlier: u64) -> int {
    if now >= earlier {
        now - earlier
    } else {
        0
    }
}

impl ClickType {
    /// A click at `cursor` follows the click `last` closely: at the same
    /// place, less than the interval later.
    pub open spec fn follows(now: u64, cursor: usize, last: Option<(u64, usize)>) -> bool {
        last matches Some((t1, c1)) && c1 == cursor && since(now, t1) < CLICK_INTERVAL_MS
    }

    /// The kind of a click at `cursor` at time `now`, after the two clicks
    /// before it.  It is a triple click where all three are at the same place,
    /// the first less than the interval before both others; else a double
    /// click where it follows the last one closely; else a single click.
    pub open spec fn kind(
        now: u64,
        cursor: usize,
        last_click: Option<(u64, usize)>,
        last_last_click: Option<(u64, usize)>,
    ) -> ClickType {
        match (last_click, last_last_click) {
            (Some((t1, c1)), Some((t0, c0))) if c0 == cursor && c1 == cursor && since(now, t0)
                < CLICK_INTERVAL_MS && since(t1, t0) < CLICK_INTERVAL_MS => ClickType::Triple,
            _ => if Self::follows(now, cursor, last_click) {
                ClickType::Double
            } else {
                ClickType::Single
            },
        }
    }

    /// The kind of a click.  Times are in milliseconds on a clock that does
    /// not go back.
    pub fn from_click_history(
        now: u64,
        cursor: usize,
        last_click: Option<(u64, usize)>,
        last_last_click: Option<(u64, usize)>,
    ) -> (kind: Self)
        ensures
            kind == Self::kind(now, cursor, last_click, last_last_click),
    {
        let max_dt = CLICK_INTERVAL_MS;

        let is_double = match last_click {
            Some((t1, c1)) => c1 == cursor && now.saturating_sub(t1) < max_dt,
            None => false,
        };

        let is_triple = match (last_click, last_last_click) {
            (Some((t1, c1)), Some((t0, c0))) => {
                c0 == cursor && c1 == cursor && now.saturating_sub(t0) < max_dt
                    && t1.saturating_sub(t0) < max_dt
            },
            _ => false,
        };

        match (is_triple, is_double) {
            (true, _) => ClickType::Triple,
            (false, true) => ClickType::Double,
            _ => ClickType::Single,
        }
    }
}

} // verus!
