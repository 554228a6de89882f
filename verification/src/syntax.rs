//! The syntax tree of a document and what is read from it: the captures of
//! queries, from which spans of colour and runnable lines are made, and the
//! chain of nodes around a place.
//!
//! Parsing and querying are done by tree-sitter.  What it answers is taken
//! as it comes: nothing here is proved of a tree.

use crate::chars::{chars_to_string, same_text, str_chars, str_to_string};
use crate::order::{sorted_from, stable_sort, Ranked};
use crate::rope::{rope_byte_substring, rope_chars, rope_chunk_at_byte, rope_len_bytes};
use crate::screen::Color;
use tree_sitter::StreamingIterator;
use vstd::prelude::*;
use vstd::slice::slice_subrange;
use vstd::string::StringSliceAdditionalSpecFns;
use vstd::utf8::encode_utf8;

verus! {

#[verifier::external_type_specification]
#[verifier::external_body]
pub struct ExParser(tree_sitter::Parser);

#[verifier::external_type_specification]
#[verifier::external_body]
pub struct ExTree(tree_sitter::Tree);

#[verifier::external_type_specification]
#[verifier::external_body]
pub struct ExQuery(tree_sitter::Query);

#[verifier::external_type_specification]
#[verifier::external_body]
pub struct ExLanguage(tree_sitter::Language);

#[verifier::external_type_specification]
#[verifier::external_body]
pub struct ExLanguageError(tree_sitter::LanguageError);

#[verifier::external_type_specification]
#[verifier::external_body]
pub struct ExQueryError(tree_sitter::QueryError);

/// A node that a query captured: where it lies, the row on which it starts,
/// and the capture's index and name in the query.
#[derive(Debug)]
pub struct Capture {
    pub start_byte: usize,
    pub end_byte: usize,
    pub row: usize,
    pub index: usize,
    pub name: String,
}

impl Capture {
    pub fn new(start_byte: usize, end_byte: usize, row: usize, index: usize, name: &str) -> (c: Self)
        ensures
            c.start_byte == start_byte,
            c.end_byte == end_byte,
            c.row == row,
            c.index == index,
            c.name@ == name@,
    {
        Capture { start_byte, end_byte, row, index, name: str_to_string(name) }
    }
}

/// The place of a node: row and column of its start and of its end.
pub type NodeSpan = ((usize, usize), (usize, usize));

/// `Parser::new`: a parser without a language.
#[verifier::external_body]
fn ts_parser() -> tree_sitter::Parser {
    tree_sitter::Parser::new()
}

/// `Parser::set_language`: gives the parser a grammar; it refuses one that
/// was made for another version of the library.
#[verifier::external_body]
fn ts_set_language(parser: &mut tree_sitter::Parser, language: &tree_sitter::Language) -> Result<
    (),
    tree_sitter::LanguageError,
> {
    parser.set_language(language)
}

/// `Parser::parse`: the tree of a text, where the parser has a language.
#[verifier::external_body]
fn ts_parse_text(parser: &mut tree_sitter::Parser, text: &str) -> Option<tree_sitter::Tree> {
    parser.parse(text, None)
}

/// `Parser::parse_with_options`: the tree of the rope's text, which the
/// parser reads piece by piece through `piece_from`, with the tree of the
/// text before the last edit as a start.
#[verifier::external_body]
fn ts_parse_rope(
    parser: &mut tree_sitter::Parser,
    rope: &ropey::Rope,
    old_tree: Option<&tree_sitter::Tree>,
) -> Option<tree_sitter::Tree> {
    parser.parse_with_options(&mut |byte, _| piece_from(rope, byte), old_tree, None)
}

/// `Tree::edit`: tells the tree that the bytes from `start_byte` up to
/// `old_end_byte` were replaced by bytes that end at `new_end_byte`.
#[verifier::external_body]
fn ts_edit(tree: &mut tree_sitter::Tree, start_byte: usize, old_end_byte: usize, new_end_byte: usize) {
    let zero = tree_sitter::Point { row: 0, column: 0 };
    tree.edit(
        &tree_sitter::InputEdit {
            start_byte,
            old_end_byte,
            new_end_byte,
            start_position: zero,
            old_end_position: zero,
            new_end_position: zero,
        },
    )
}

/// `Query::new`: the query that a source text spells for a grammar.
#[verifier::external_body]
fn ts_query(language: &tree_sitter::Language, source: &str) -> Result<
    tree_sitter::Query,
    tree_sitter::QueryError,
> {
    tree_sitter::Query::new(language, source)
}

/// `Query::capture_names`: the names of the query's captures, by index.
#[verifier::external_body]
fn ts_capture_names(query: &tree_sitter::Query) -> Vec<String> {
    query.capture_names().iter().map(|name| name.to_string()).collect()
}

/// `QueryCursor::set_byte_range` and `QueryCursor::matches` on the root of
/// the tree: the captures of all matches between two byte offsets, in the
/// order in which they come.  The text of a node is handed to the query by
/// `node_text`.
#[verifier::external_body]
fn ts_captures(
    query: &tree_sitter::Query,
    tree: &tree_sitter::Tree,
    rope: &ropey::Rope,
    start: usize,
    end: usize,
) -> Vec<Capture> {
    let names = query.capture_names();
    let mut cursor = tree_sitter::QueryCursor::new();
    cursor.set_byte_range(start..end);
    let text = |n: tree_sitter::Node| std::iter::once(node_text(rope, n.start_byte(), n.end_byte()));
    cursor.matches(query, tree.root_node(), text).fold(Vec::new(), |mut all, m| {
        all.extend(m.captures.iter().map(|c| {
            let (node, i) = (c.node, c.index as usize);
            Capture::new(node.start_byte(), node.end_byte(), node.start_position().row, i, names[i])
        }));
        all
    })
}

/// `Node::named_descendant_for_point_range` on the root of the tree and
/// `Node::parent` from there: the smallest named node that spans the place,
/// and the nodes around it up to the root, each by its start and its end.
/// For a range that is one place the search always answers with a node, the
/// root where it finds no smaller one, so the chain is never empty.
#[verifier::external_body]
fn ts_node_chain(tree: &tree_sitter::Tree, row: usize, column: usize) -> (chain: Vec<NodeSpan>)
    ensures
        chain@.len() > 0,
{
    let at = tree_sitter::Point { row, column };
    let first = tree.root_node().named_descendant_for_point_range(at, at);
    std::iter::successors(first, |n| n.parent()).map(
        |n| {
            let (s, e) = (n.start_position(), n.end_position());
            ((s.row, s.column), (e.row, e.column))
        },
    ).collect()
}

/// The bytes of the text from byte offset `byte` on that the rope holds in
/// one piece; none behind the end of the text.
pub fn piece_from(rope: &ropey::Rope, byte: usize) -> (piece: &[u8])
    ensures
        byte > encode_utf8(rope_chars(*rope)).len() ==> piece@.len() == 0,
        byte <= encode_utf8(rope_chars(*rope)).len() ==> byte + piece@.len() <= encode_utf8(
            rope_chars(*rope),
        ).len() && piece@ == encode_utf8(rope_chars(*rope)).subrange(
            byte as int,
            byte + piece@.len(),
        ),
{
    if byte <= rope_len_bytes(rope) {
        let (chunk, start) = rope_chunk_at_byte(rope, byte);
        let bytes = chunk.as_bytes();
        let piece = slice_subrange(bytes, byte - start, bytes.len());
        assert(piece@ =~= encode_utf8(rope_chars(*rope)).subrange(
            byte as int,
            byte + piece@.len(),
        ));
        piece
    } else {
        let empty: &[u8] = &[];
        empty
    }
}

/// The offsets `start` and `end` bound a piece of the text: the start does
/// not lie behind the end, and both lie between characters.
pub open spec fn bounds_text(text: Seq<char>, start: int, end: int) -> bool {
    start <= end && crate::rope::between_chars(text, start) && crate::rope::between_chars(
        text,
        end,
    )
}

/// The text between two byte offsets, for a query that looks at the text of
/// a node; the empty text where the offsets do not bound a piece of the
/// text.
pub fn node_text(rope: &ropey::Rope, start: usize, end: usize) -> (text: String)
    ensures
        bounds_text(rope_chars(*rope), start as int, end as int) ==> start <= end <= encode_utf8(
            rope_chars(*rope),
        ).len() && encode_utf8(text@) == encode_utf8(rope_chars(*rope)).subrange(
            start as int,
            end as int,
        ),
        !bounds_text(rope_chars(*rope), start as int, end as int) ==> text@.len() == 0,
{
    match rope_byte_substring(rope, start, end) {
        Some(text) => text,
        None => String::new(),
    }
}

/// The colours of a theme, by name.  Of two colours of one name the later
/// one counts.
pub struct Theme {
    pub entries: Vec<(String, Color)>,
}

/// The colour that the last entry of that name gives, looking at the first
/// `n` entries.
pub open spec fn colour_in(entries: Seq<(String, Color)>, name: Seq<char>, n: nat) -> Option<Color>
    decreases n,
{
    if n == 0 || n > entries.len() {
        None
    } else if entries[n - 1].0@ == name {
        Some(entries[n - 1].1)
    } else {
        colour_in(entries, name, (n - 1) as nat)
    }
}

impl Theme {
    /// The colour of `name` in the theme.
    pub open spec fn colour(&self, name: Seq<char>) -> Option<Color> {
        colour_in(self.entries@, name, self.entries@.len())
    }

    /// A theme without colours.
    pub fn new() -> (theme: Self)
        ensures
            forall|name: Seq<char>| theme.colour(name) is None,
    {
        Theme { entries: Vec::new() }
    }

    /// Gives `name` the colour that `hex` spells, such as `#1a2b3c`.  A text
    /// that spells no colour is left out.  Returns whether the colour was
    /// taken.
    pub fn insert(&mut self, name: &str, hex: &str) -> (taken: bool)
        ensures
            taken == crate::utils::holds_rgb(hex.spec_bytes()),
            taken ==> final(self).colour(name@) == Some(
                Color::Rgb {
                    r: crate::utils::rgb_of(hex.spec_bytes()).0,
                    g: crate::utils::rgb_of(hex.spec_bytes()).1,
                    b: crate::utils::rgb_of(hex.spec_bytes()).2,
                },
            ),
            taken ==> forall|other: Seq<char>|
                other != name@ ==> final(self).colour(other) == old(self).colour(other),
            !taken ==> final(self).entries == old(self).entries,
    {
        if !crate::utils::is_hex_color(hex) {
            return false;
        }
        let color = crate::utils::hex_to_color(hex);
        let ghost before = self.entries@;
        self.entries.push((str_to_string(name), color));
        proof {
            assert(self.entries@.drop_last() =~= before);
            assert forall|other: Seq<char>| other != name@ implies self.colour(other) == old(
                self,
            ).colour(other) by {
                lemma_colour_push(before, self.entries@.last(), other);
            }
        }
        true
    }

    /// The colour of `name` in the theme.
    pub fn get(&self, name: &str) -> (color: Option<Color>)
        ensures
            color == self.colour(name@),
    {
        let mut n = self.entries.len();
        while n > 0
            invariant
                n <= self.entries@.len(),
                colour_in(self.entries@, name@, n as nat) == self.colour(name@),
            decreases n,
        {
            if same_text(self.entries[n - 1].0.as_str(), name) {
                return Some(self.entries[n - 1].1);
            }
            n -= 1;
        }
        None
    }
}

/// A new entry changes the colour of its own name only.
pub proof fn lemma_colour_push(entries: Seq<(String, Color)>, entry: (String, Color), name: Seq<char>)
    requires
        entry.0@ != name,
    ensures
        colour_in(entries.push(entry), name, entries.len() + 1) == colour_in(
            entries,
            name,
            entries.len(),
        ),
{
    lemma_colour_prefix(entries, entries.push(entry), name, entries.len());
}

/// A colour is looked up in the entries that are looked at only.
pub proof fn lemma_colour_prefix(
    a: Seq<(String, Color)>,
    b: Seq<(String, Color)>,
    name: Seq<char>,
    n: nat,
)
    requires
        n <= a.len(),
        n <= b.len(),
        forall|i: int| 0 <= i < n ==> a[i] == b[i],
    ensures
        colour_in(a, name, n) == colour_in(b, name, n),
    decreases n,
{
    if n > 0 {
        lemma_colour_prefix(a, b, name, (n - 1) as nat);
    }
}

/// A span of bytes to colour.  `index` is the index in its query of the
/// capture that the span comes from.
#[derive(Clone, Copy, Debug, PartialEq, Eq, Structural)]
pub struct Span {
    pub start: usize,
    pub end: usize,
    pub index: usize,
    pub color: Color,
}

impl Span {
    /// The number of bytes of the span.
    pub open spec fn len(&self) -> int {
        if self.end >= self.start {
            self.end - self.start
        } else {
            0
        }
    }

    /// The number of bytes of the span.
    pub fn length(&self) -> (n: usize)
        ensures
            n == self.len(),
    {
        if self.end >= self.start {
            self.end - self.start
        } else {
            0
        }
    }

    /// The span moved by `by` bytes; where it would pass the largest offset
    /// it stops there.
    pub open spec fn moved(self, by: usize) -> Span {
        Span { start: clip(self.start + by), end: clip(self.end + by), ..self }
    }
}

/// `n`, or the largest offset where `n` is larger.
pub open spec fn clip(n: int) -> usize {
    if n > usize::MAX {
        usize::MAX
    } else {
        n as usize
    }
}

impl Ranked for Span {
    /// Longer spans come first; of spans of one length, the one whose
    /// capture has the larger index.
    open spec fn precedes(&self, other: &Self) -> bool {
        self.len() > other.len() || (self.len() == other.len() && self.index > other.index)
    }

    fn goes_before(&self, other: &Self) -> (r: bool) {
        let a = self.length();
        let b = other.length();
        a > b || (a == b && self.index > other.index)
    }

    proof fn lemma_asym(a: &Self, b: &Self) {
    }

    proof fn lemma_order(a: &Self, b: &Self, c: &Self) {
    }
}

/// The spans in the order in which they are painted: longer spans first, so
/// that a span within another is painted over it.
pub fn order_spans(spans: Vec<Span>) -> (ordered: Vec<Span>)
    ensures
        sorted_from(spans@, ordered@),
        ordered@.len() == spans@.len(),
{
    stable_sort(spans)
}

/// The spans of a part of the text that starts at byte `by`, as spans of the
/// whole text.
pub fn shift_spans(spans: &Vec<Span>, by: usize) -> (shifted: Vec<Span>)
    ensures
        shifted@ == spans@.map_values(|s: Span| s.moved(by)),
{
    let mut shifted: Vec<Span> = Vec::new();
    let mut i: usize = 0;
    while i < spans.len()
        invariant
            i <= spans@.len(),
            shifted@ == spans@.take(i as int).map_values(|s: Span| s.moved(by)),
        decreases spans@.len() - i,
    {
        let s = spans[i];
        shifted.push(
            Span {
                start: s.start.saturating_add(by),
                end: s.end.saturating_add(by),
                index: s.index,
                color: s.color,
            },
        );
        i += 1;
        assert(shifted@ =~= spans@.take(i as int).map_values(|s: Span| s.moved(by)));
    }
    assert(spans@.take(i as int) =~= spans@);
    shifted
}

/// What is left of the spans for the painter: start, end and colour.
pub open spec fn painted(spans: Seq<Span>) -> Seq<(usize, usize, Color)> {
    spans.map_values(|s: Span| (s.start, s.end, s.color))
}

/// Start, end and colour of each span.
pub fn paint_list(spans: &Vec<Span>) -> (list: Vec<(usize, usize, Color)>)
    ensures
        list@ == painted(spans@),
{
    let mut list: Vec<(usize, usize, Color)> = Vec::new();
    let mut i: usize = 0;
    while i < spans.len()
        invariant
            i <= spans@.len(),
            list@ == painted(spans@.take(i as int)),
        decreases spans@.len() - i,
    {
        let s = spans[i];
        list.push((s.start, s.end, s.color));
        i += 1;
        assert(list@ =~= painted(spans@.take(i as int)));
    }
    assert(spans@.take(i as int) =~= spans@);
    list
}

/// The part of a capture's name before its first dot: the name under which
/// its colour is looked up.
pub open spec fn head_of(name: Seq<char>) -> Seq<char> {
    name.take(dot_in(name, 0))
}

/// The first position at or behind `i` at which `name` holds a dot, or its
/// length.
pub open spec fn dot_in(name: Seq<char>, i: int) -> int
    decreases name.len() - i,
{
    if i < 0 || i >= name.len() {
        name.len() as int
    } else if name[i] == '.' {
        i
    } else {
        dot_in(name, i + 1)
    }
}

/// The part of a capture's name before its first dot.
pub fn name_head(name: &str) -> (head: String)
    ensures
        head@ == head_of(name@),
{
    let chars = str_chars(name);
    let mut head: Vec<char> = Vec::new();
    let mut i: usize = 0;
    while i < chars.len() && chars[i] != '.'
        invariant
            i <= chars@.len(),
            chars@ == name@,
            dot_in(name@, i as int) == dot_in(name@, 0),
            head@ == name@.take(i as int),
        decreases chars@.len() - i,
    {
        head.push(chars[i]);
        i += 1;
        assert(head@ =~= name@.take(i as int));
    }
    chars_to_string(&head)
}

/// The name of the language that a capture injects: what follows
/// `injection.content.` in its name.
pub open spec fn injected(name: Seq<char>) -> Option<Seq<char>> {
    let prefix = "injection.content."@;
    if prefix.len() <= name.len() && name.take(prefix.len() as int) == prefix {
        Some(name.skip(prefix.len() as int))
    } else {
        None
    }
}

/// The name of the language that a capture injects.
pub fn injected_language(name: &str) -> (lang: Option<String>)
    ensures
        crate::config::option_view(lang) == injected(name@),
{
    let chars = str_chars(name);
    let prefix = str_chars("injection.content.");
    if prefix.len() > chars.len() {
        return None;
    }
    if !crate::code::matches_at(&chars, &prefix, 0) {
        assert(name@.take(prefix@.len() as int) =~= chars@.subrange(0int, 0int + prefix@.len()));
        return None;
    }
    assert(name@.take(prefix@.len() as int) =~= chars@.subrange(0int, 0int + prefix@.len()));
    let mut rest: Vec<char> = Vec::new();
    let mut i: usize = prefix.len();
    while i < chars.len()
        invariant
            prefix@.len() <= i <= chars@.len(),
            chars@ == name@,
            rest@ == name@.subrange(prefix@.len() as int, i as int),
        decreases chars@.len() - i,
    {
        rest.push(chars[i]);
        i += 1;
        assert(rest@ =~= name@.subrange(prefix@.len() as int, i as int));
    }
    assert(rest@ =~= name@.skip(prefix@.len() as int));
    Some(chars_to_string(&rest))
}

/// The span that a capture gives under a theme: the capture's bytes in the
/// colour that the theme has for the head of its name; none where it has
/// none.
pub open spec fn span_in(capture: Capture, theme: Theme) -> Option<Span> {
    match theme.colour(head_of(capture.name@)) {
        Some(color) => Some(
            Span { start: capture.start_byte, end: capture.end_byte, index: capture.index, color },
        ),
        None => None,
    }
}

/// The span that a capture gives under a theme.
pub fn span_of_capture(capture: &Capture, theme: &Theme) -> (span: Option<Span>)
    ensures
        span == span_in(*capture, *theme),
{
    let head = name_head(capture.name.as_str());
    match theme.get(head.as_str()) {
        Some(color) => Some(
            Span { start: capture.start_byte, end: capture.end_byte, index: capture.index, color },
        ),
        None => None,
    }
}

/// A grammar that documents can be parsed with: the name of its language,
/// the grammar itself, and the sources of its queries for colours and for
/// tests, where it has them.
pub struct Grammar {
    pub name: String,
    pub language: tree_sitter::Language,
    pub highlights: Option<String>,
    pub tests: Option<String>,
}

/// The index of the first grammar at or behind `i` that is called `name`.
pub open spec fn grammar_at(grammars: Seq<Grammar>, name: Seq<char>, i: int) -> Option<int>
    decreases grammars.len() - i,
{
    if i < 0 || i >= grammars.len() {
        None
    } else if grammars[i].name@ == name {
        Some(i)
    } else {
        grammar_at(grammars, name, i + 1)
    }
}

/// The index of the first grammar that is called `name`.
pub fn find_grammar(grammars: &Vec<Grammar>, name: &str) -> (at: Option<usize>)
    ensures
        (match at {
            Some(i) => Some(i as int),
            None => None,
        }) == grammar_at(grammars@, name@, 0),
        at matches Some(i) ==> i < grammars@.len(),
{
    let mut i: usize = 0;
    while i < grammars.len()
        invariant
            i <= grammars@.len(),
            grammar_at(grammars@, name@, i as int) == grammar_at(grammars@, name@, 0),
        decreases grammars@.len() - i,
    {
        if same_text(grammars[i].name.as_str(), name) {
            return Some(i);
        }
        i += 1;
    }
    None
}

/// Why a document cannot be parsed with a grammar.
#[derive(Clone, Copy, Debug, PartialEq, Eq, Structural)]
pub enum SyntaxError {
    /// The grammar was made for another version of the parser.
    Version,
}

/// The syntax of a document: its parser, its tree, its queries, and for each
/// language that its colour query injects a parser and a colour query.
/// `injected_parsers` and `injected_queries` go together, index by index.
pub struct Syntax {
    pub parser: tree_sitter::Parser,
    pub tree: Option<tree_sitter::Tree>,
    pub query: Option<tree_sitter::Query>,
    pub test_query: Option<tree_sitter::Query>,
    pub injected_parsers: Vec<tree_sitter::Parser>,
    pub injected_queries: Vec<(String, tree_sitter::Query)>,
}

/// How deep languages may be injected into one another.
pub const MAX_INJECTION_DEPTH: usize = 16;

/// The index of the first query at or behind `i` that is for `lang`.
pub open spec fn query_at(
    queries: Seq<(String, tree_sitter::Query)>,
    lang: Seq<char>,
    i: int,
) -> Option<int>
    decreases queries.len() - i,
{
    if i < 0 || i >= queries.len() {
        None
    } else if queries[i].0@ == lang {
        Some(i)
    } else {
        query_at(queries, lang, i + 1)
    }
}

/// The index of the first query that is for `lang`.
pub fn find_query(queries: &Vec<(String, tree_sitter::Query)>, lang: &str) -> (at: Option<usize>)
    ensures
        (match at {
            Some(i) => Some(i as int),
            None => None,
        }) == query_at(queries@, lang@, 0),
        at matches Some(i) ==> i < queries@.len(),
{
    let mut i: usize = 0;
    while i < queries.len()
        invariant
            i <= queries@.len(),
            query_at(queries@, lang@, i as int) == query_at(queries@, lang@, 0),
        decreases queries@.len() - i,
    {
        if same_text(queries[i].0.as_str(), lang) {
            return Some(i);
        }
        i += 1;
    }
    None
}

/// The languages of queries, in their order.
pub open spec fn languages_of(queries: Seq<(String, tree_sitter::Query)>) -> Seq<Seq<char>> {
    queries.map_values(|q: (String, tree_sitter::Query)| q.0@)
}

/// `lang` is among the languages from place `i` on.
pub open spec fn listed(langs: Seq<Seq<char>>, lang: Seq<char>, i: int) -> bool
    decreases langs.len() - i,
{
    if i < 0 || i >= langs.len() {
        false
    } else {
        langs[i] == lang || listed(langs, lang, i + 1)
    }
}

/// The languages that the first `n` capture names inject, each once, in the
/// order in which they come first.
pub open spec fn wanted(names: Seq<String>, n: nat) -> Seq<Seq<char>>
    decreases n,
{
    if n == 0 || n > names.len() {
        Seq::empty()
    } else {
        let before = wanted(names, (n - 1) as nat);
        match injected(names[n - 1]@) {
            Some(lang) => if listed(before, lang, 0) {
                before
            } else {
                before.push(lang)
            },
            None => before,
        }
    }
}

/// Each of the first `n` languages has a grammar with a colour query.
pub open spec fn served(langs: Seq<Seq<char>>, grammars: Seq<Grammar>, n: nat) -> bool
    decreases n,
{
    if n == 0 || n > langs.len() {
        true
    } else {
        &&& served(langs, grammars, (n - 1) as nat)
        &&& grammar_at(grammars, langs[n - 1], 0) matches Some(g) && grammars[g].highlights is Some
    }
}

/// A query is found for a language where the language is among those of the
/// queries.
pub proof fn lemma_listed(queries: Seq<(String, tree_sitter::Query)>, lang: Seq<char>, i: int)
    ensures
        listed(languages_of(queries), lang, i) == (query_at(queries, lang, i) is Some),
    decreases queries.len() - i,
{
    if 0 <= i < queries.len() {
        lemma_listed(queries, lang, i + 1);
    }
}

/// More capture names inject no fewer languages.
pub proof fn lemma_wanted_grows(names: Seq<String>, n: nat, m: nat)
    requires
        n <= m <= names.len(),
    ensures
        wanted(names, n).len() <= wanted(names, m).len(),
    decreases m - n,
{
    if n < m {
        lemma_wanted_grows(names, n, (m - 1) as nat);
    }
}

/// What holds of the first languages holds of them among more.
pub proof fn lemma_served_push(langs: Seq<Seq<char>>, grammars: Seq<Grammar>, n: nat, lang: Seq<char>)
    requires
        n <= langs.len(),
    ensures
        served(langs.push(lang), grammars, n) == served(langs, grammars, n),
    decreases n,
{
    if n > 0 {
        lemma_served_push(langs, grammars, (n - 1) as nat, lang);
        assert(langs.push(lang)[n - 1] == langs[n - 1]);
    }
}

/// The parsers and queries of the languages that the captures of a query
/// inject, one for each language, in the order in which the languages come
/// first.  Nothing where a language has no grammar among `grammars`, or no
/// colour query, or its grammar or its query is refused: then nothing is
/// injected at all.  Captures that inject nothing need nothing.
pub fn build_injections(names: &Vec<String>, grammars: &Vec<Grammar>) -> (r: Option<
    (Vec<tree_sitter::Parser>, Vec<(String, tree_sitter::Query)>),
>)
    ensures
        r matches Some(pair) ==> pair.0@.len() == pair.1@.len() && languages_of(pair.1@) == wanted(
            names@,
            names@.len(),
        ),
        !served(wanted(names@, names@.len()), grammars@, wanted(names@, names@.len()).len())
            ==> r is None,
        wanted(names@, names@.len()).len() == 0 ==> r is Some,
{
    let mut parsers: Vec<tree_sitter::Parser> = Vec::new();
    let mut queries: Vec<(String, tree_sitter::Query)> = Vec::new();
    let mut i: usize = 0;
    assert(languages_of(queries@) =~= Seq::<Seq<char>>::empty());
    while i < names.len()
        invariant
            i <= names@.len(),
            parsers@.len() == queries@.len(),
            languages_of(queries@) == wanted(names@, i as nat),
            served(languages_of(queries@), grammars@, queries@.len()),
        decreases names@.len() - i,
    {
        if let Some(lang) = injected_language(names[i].as_str()) {
            proof {
                lemma_listed(queries@, lang@, 0);
            }
            if find_query(&queries, lang.as_str()).is_none() {
                proof {
                    lemma_wanted_grows(names@, (i + 1) as nat, names@.len());
                }
                let g = match find_grammar(grammars, lang.as_str()) {
                    Some(g) => g,
                    None => {
                        return None;
                    },
                };
                let mut parser = ts_parser();
                if ts_set_language(&mut parser, &grammars[g].language).is_err() {
                    return None;
                }
                let source = match &grammars[g].highlights {
                    Some(source) => source,
                    None => {
                        return None;
                    },
                };
                let query = match ts_query(&grammars[g].language, source.as_str()) {
                    Ok(query) => query,
                    Err(_) => {
                        return None;
                    },
                };
                proof {
                    let langs = languages_of(queries@);
                    assert(languages_of(queries@.push((lang, query))) =~= langs.push(lang@));
                    lemma_served_push(langs, grammars@, langs.len(), lang@);
                }
                parsers.push(parser);
                queries.push((lang, query));
            }
        }
        i += 1;
    }
    Some((parsers, queries))
}

/// The query that a source spells, where there is a source and the grammar
/// takes it.
pub fn query_from(language: &tree_sitter::Language, source: &Option<String>) -> (query: Option<
    tree_sitter::Query,
>)
    ensures
        source is None ==> query is None,
{
    match source {
        Some(text) => match ts_query(language, text.as_str()) {
            Ok(query) => Some(query),
            Err(_) => None,
        },
        None => None,
    }
}

impl Syntax {
    /// The injected parsers and queries go together.
    pub open spec fn wf(&self) -> bool {
        self.injected_parsers@.len() == self.injected_queries@.len()
    }

    /// The syntax of a text in the language `lang`.  There is none for a
    /// language without a grammar among `grammars`: such a document is plain
    /// text.  A grammar that the parser refuses is an error.
    pub fn build(lang: &str, text: &str, grammars: &Vec<Grammar>) -> (r: Result<
        Option<Syntax>,
        SyntaxError,
    >)
        ensures
            grammar_at(grammars@, lang@, 0) is None ==> r == Ok::<Option<Syntax>, SyntaxError>(
                None,
            ),
            grammar_at(grammars@, lang@, 0) is Some ==> (r matches Ok(found) ==> found is Some
                && found->0.wf()),
    {
        let g = match find_grammar(grammars, lang) {
            Some(g) => g,
            None => {
                return Ok(None);
            },
        };
        let grammar = &grammars[g];
        let mut parser = ts_parser();
        if ts_set_language(&mut parser, &grammar.language).is_err() {
            return Err(SyntaxError::Version);
        }
        let tree = ts_parse_text(&mut parser, text);
        let query = query_from(&grammar.language, &grammar.highlights);
        let test_query = query_from(&grammar.language, &grammar.tests);
        let injections = match &query {
            Some(q) => build_injections(&ts_capture_names(q), grammars),
            None => None,
        };
        let (injected_parsers, injected_queries) = match injections {
            Some(pair) => pair,
            None => (Vec::new(), Vec::new()),
        };
        Ok(Some(Syntax { parser, tree, query, test_query, injected_parsers, injected_queries }))
    }

    /// Tells the tree of an edit and parses the text anew.  Without a tree
    /// nothing is done.
    pub fn edit(
        &mut self,
        rope: &ropey::Rope,
        start_byte: usize,
        old_end_byte: usize,
        new_end_byte: usize,
    ) -> (parsed: bool)
        ensures
            parsed == old(self).tree.is_some(),
            final(self).wf() == old(self).wf(),
            *final(self) == (Syntax {
                parser: final(self).parser,
                tree: final(self).tree,
                ..*old(self)
            }),
            !parsed ==> *final(self) == *old(self),
    {
        let mut tree = match self.tree.take() {
            Some(tree) => tree,
            None => {
                return false;
            },
        };
        ts_edit(&mut tree, start_byte, old_end_byte, new_end_byte);
        self.tree = ts_parse_rope(&mut self.parser, rope, Some(&tree));
        true
    }

    /// The chain of nodes around a place: the smallest named node that
    /// spans it first, the root last.  Nothing without a tree.
    pub fn node_chain(&self, row: usize, column: usize) -> (chain: Option<Vec<NodeSpan>>)
        ensures
            chain.is_some() == self.tree.is_some(),
            chain matches Some(c) ==> c@.len() > 0,
    {
        match &self.tree {
            Some(tree) => Some(ts_node_chain(tree, row, column)),
            None => None,
        }
    }

    /// The captures of the test query in the whole tree.  None without a
    /// test query or without a tree.
    pub fn test_captures(&self, rope: &ropey::Rope) -> (captures: Vec<Capture>)
        ensures
            self.test_query is None || self.tree is None ==> captures@.len() == 0,
    {
        match (&self.test_query, &self.tree) {
            (Some(query), Some(tree)) => ts_captures(query, tree, rope, 0, usize::MAX),
            _ => Vec::new(),
        }
    }

    /// The spans to colour between two byte offsets, as they are found:
    /// those of the document's own captures, and below each capture that
    /// injects a language those of the text that it covers.
    pub fn spans(&mut self, rope: &ropey::Rope, start: usize, end: usize, theme: &Theme) -> (found:
        Vec<Span>)
        requires
            old(self).wf(),
        ensures
            final(self).wf(),
            old(self).query is None || old(self).tree is None ==> found@.len() == 0,
            old(self).query is Some && old(self).tree is Some ==> exists|captures: Seq<Capture>|
                #![trigger gathered(
                    captures,
                    *theme,
                    old(self).injected_queries@,
                    MAX_INJECTION_DEPTH,
                    found@,
                )]
                gathered(captures, *theme, old(self).injected_queries@, MAX_INJECTION_DEPTH, found@),
            forall|j: int| 0 <= j < found@.len() ==> themed(*theme, (#[trigger] found@[j]).color),
    {
        match (&self.query, &self.tree) {
            (Some(query), Some(tree)) => collect_spans(
                query,
                tree,
                rope,
                start,
                end,
                theme,
                &mut self.injected_parsers,
                &self.injected_queries,
                MAX_INJECTION_DEPTH,
            ),
            _ => Vec::new(),
        }
    }
}

/// The theme has the colour, under some name.
pub open spec fn themed(theme: Theme, color: Color) -> bool {
    exists|name: Seq<char>| #[trigger] theme.colour(name) == Some(color)
}

/// `piece` is what a capture gives to the spans.  A capture whose name has a
/// colour in the theme gives its span.  One that injects a language for
/// which there is a query, on a level where languages are injected, gives
/// spans in colours of the theme that lie at or behind its start: those
/// that are found in the text that it covers.  Any other capture gives
/// nothing.
pub open spec fn piece_of(
    capture: Capture,
    theme: Theme,
    queries: Seq<(String, tree_sitter::Query)>,
    depth: usize,
    piece: Seq<Span>,
) -> bool {
    match span_in(capture, theme) {
        Some(span) => piece == seq![span],
        None => if depth == 0 || injected(capture.name@) is None || query_at(
            queries,
            injected(capture.name@)->0,
            0,
        ) is None {
            piece.len() == 0
        } else {
            forall|j: int|
                0 <= j < piece.len() ==> themed(theme, (#[trigger] piece[j]).color) && piece[j].start
                    >= capture.start_byte && piece[j].end >= capture.start_byte
        },
    }
}

/// Each of `pieces` is what the capture at its place gives.
pub open spec fn pieced(
    captures: Seq<Capture>,
    theme: Theme,
    queries: Seq<(String, tree_sitter::Query)>,
    depth: usize,
    pieces: Seq<Seq<Span>>,
) -> bool {
    &&& pieces.len() == captures.len()
    &&& forall|i: int|
        0 <= i < captures.len() ==> piece_of(captures[i], theme, queries, depth, #[trigger] pieces[i])
}

/// The first `n` pieces, one behind the other.
pub open spec fn joined(pieces: Seq<Seq<Span>>, n: nat) -> Seq<Span>
    decreases n,
{
    if n == 0 || n > pieces.len() {
        Seq::empty()
    } else {
        joined(pieces, (n - 1) as nat) + pieces[n - 1]
    }
}

/// `found` holds what the captures give, capture by capture in their order.
pub open spec fn gathered(
    captures: Seq<Capture>,
    theme: Theme,
    queries: Seq<(String, tree_sitter::Query)>,
    depth: usize,
    found: Seq<Span>,
) -> bool {
    exists|pieces: Seq<Seq<Span>>|
        #![trigger pieced(captures, theme, queries, depth, pieces)]
        pieced(captures, theme, queries, depth, pieces) && found == joined(pieces, pieces.len())
}

/// The first pieces, one behind the other, do not depend on what follows
/// them.
pub proof fn lemma_joined_push(pieces: Seq<Seq<Span>>, n: nat, piece: Seq<Span>)
    requires
        n <= pieces.len(),
    ensures
        joined(pieces.push(piece), n) == joined(pieces, n),
    decreases n,
{
    if n > 0 {
        lemma_joined_push(pieces, (n - 1) as nat, piece);
        assert(pieces.push(piece)[n - 1] == pieces[n - 1]);
    }
}

/// What captures give is in colours of the theme.
pub proof fn lemma_joined_themed(
    captures: Seq<Capture>,
    theme: Theme,
    queries: Seq<(String, tree_sitter::Query)>,
    depth: usize,
    pieces: Seq<Seq<Span>>,
    n: nat,
)
    requires
        pieced(captures, theme, queries, depth, pieces),
        n <= pieces.len(),
    ensures
        forall|j: int|
            0 <= j < joined(pieces, n).len() ==> themed(theme, (#[trigger] joined(pieces, n)[j]).color),
    decreases n,
{
    if n > 0 {
        lemma_joined_themed(captures, theme, queries, depth, pieces, (n - 1) as nat);
        let before = joined(pieces, (n - 1) as nat);
        let piece = pieces[n - 1];
        let capture = captures[n - 1];
        assert(piece_of(capture, theme, queries, depth, piece));
        assert forall|j: int| 0 <= j < piece.len() implies themed(
            theme,
            (#[trigger] piece[j]).color,
        ) by {
            if let Some(span) = span_in(capture, theme) {
                assert(theme.colour(head_of(capture.name@)) == Some(span.color));
            }
        }
        assert forall|j: int| 0 <= j < joined(pieces, n).len() implies themed(
            theme,
            (#[trigger] joined(pieces, n)[j]).color,
        ) by {
            if j < before.len() {
                assert(joined(pieces, n)[j] == before[j]);
            } else {
                assert(joined(pieces, n)[j] == piece[j - before.len()]);
            }
        }
    }
}

/// The spans to colour between two byte offsets of a text, given its tree and
/// its colour query: what the captures of the query give there, as `gathered`
/// says.  A capture whose name has a colour in the theme gives a span.  One
/// that injects a language for which there is a parser has the text that it
/// covers parsed and searched in turn, `depth` levels deep at most, and
/// gives the spans found there, moved to where the text lies.
pub fn collect_spans(
    query: &tree_sitter::Query,
    tree: &tree_sitter::Tree,
    rope: &ropey::Rope,
    start: usize,
    end: usize,
    theme: &Theme,
    parsers: &mut Vec<tree_sitter::Parser>,
    queries: &Vec<(String, tree_sitter::Query)>,
    depth: usize,
) -> (found: Vec<Span>)
    requires
        old(parsers)@.len() == queries@.len(),
    ensures
        final(parsers)@.len() == queries@.len(),
        exists|captures: Seq<Capture>|
            #![trigger gathered(captures, *theme, queries@, depth, found@)]
            gathered(captures, *theme, queries@, depth, found@),
        forall|j: int| 0 <= j < found@.len() ==> themed(*theme, (#[trigger] found@[j]).color),
    decreases depth, 1nat,
{
    let captures = ts_captures(query, tree, rope, start, end);
    let found = gather_spans(&captures, rope, theme, parsers, queries, depth);
    proof {
        let pieces = choose|pieces: Seq<Seq<Span>>|
            #![trigger pieced(captures@, *theme, queries@, depth, pieces)]
            pieced(captures@, *theme, queries@, depth, pieces) && found@ == joined(
                pieces,
                pieces.len(),
            );
        lemma_joined_themed(captures@, *theme, queries@, depth, pieces, pieces.len());
    }
    found
}

/// The spans that captures give, capture by capture: the span of a capture
/// whose name has a colour in the theme, and for one that injects a language
/// the spans that are found in the text that it covers, moved to where the
/// text lies.  On level 0 nothing is injected.
pub fn gather_spans(
    captures: &Vec<Capture>,
    rope: &ropey::Rope,
    theme: &Theme,
    parsers: &mut Vec<tree_sitter::Parser>,
    queries: &Vec<(String, tree_sitter::Query)>,
    depth: usize,
) -> (found: Vec<Span>)
    requires
        old(parsers)@.len() == queries@.len(),
    ensures
        final(parsers)@.len() == queries@.len(),
        gathered(captures@, *theme, queries@, depth, found@),
    decreases depth, 0nat,
{
    let mut found: Vec<Span> = Vec::new();
    let ghost mut pieces: Seq<Seq<Span>> = Seq::empty();
    let mut i: usize = 0;
    while i < captures.len()
        invariant
            i <= captures@.len(),
            parsers@.len() == queries@.len(),
            pieces.len() == i,
            forall|k: int|
                0 <= k < i ==> piece_of(captures@[k], *theme, queries@, depth, #[trigger] pieces[k]),
            found@ == joined(pieces, i as nat),
        decreases captures@.len() - i,
    {
        let capture = &captures[i];
        let mut piece: Vec<Span> = Vec::new();
        match span_of_capture(capture, theme) {
            Some(span) => {
                piece.push(span);
                assert(piece@ =~= seq![span]);
            },
            None => {
                if depth > 0 {
                    if let Some(lang) = injected_language(capture.name.as_str()) {
                        if let Some(k) = find_query(queries, lang.as_str()) {
                            let text = node_text(rope, capture.start_byte, capture.end_byte);
                            let mut parser = parsers.remove(k);
                            let inner_tree = ts_parse_text(&mut parser, text.as_str());
                            parsers.insert(k, parser);
                            if let Some(inner_tree) = inner_tree {
                                let inner_rope = crate::rope::rope_from_str(text.as_str());
                                let inner = collect_spans(
                                    &queries[k].1,
                                    &inner_tree,
                                    &inner_rope,
                                    0,
                                    capture.end_byte.saturating_sub(capture.start_byte),
                                    theme,
                                    parsers,
                                    queries,
                                    depth - 1,
                                );
                                piece = shift_spans(&inner, capture.start_byte);
                                assert forall|j: int| 0 <= j < piece@.len() implies themed(
                                    *theme,
                                    (#[trigger] piece@[j]).color,
                                ) && piece@[j].start >= capture.start_byte && piece@[j].end
                                    >= capture.start_byte by {
                                    assert(piece@[j] == inner@[j].moved(capture.start_byte));
                                }
                            }
                        }
                    }
                }
            },
        }
        proof {
            lemma_joined_push(pieces, i as nat, piece@);
            pieces = pieces.push(piece@);
        }
        found.append(&mut piece);
        i += 1;
    }
    proof {
        assert(pieced(captures@, *theme, queries@, depth, pieces));
    }
    found
}

/// Whether place `a` is place `b` or comes before it.
pub open spec fn not_after(a: (usize, usize), b: (usize, usize)) -> bool {
    a.0 < b.0 || (a.0 == b.0 && a.1 <= b.1)
}

/// The span `outer` holds the span `inner` and more: it starts no later and
/// ends no earlier, and it is another span.
pub open spec fn larger(outer: NodeSpan, inner: NodeSpan) -> bool {
    not_after(outer.0, inner.0) && not_after(inner.1, outer.1) && outer != inner
}

/// The chain without the spans that add nothing: the first span stays, and
/// each later one stays where it is larger than the last that stayed.
pub open spec fn widened(chain: Seq<NodeSpan>) -> Seq<NodeSpan>
    decreases chain.len(),
{
    if chain.len() == 0 {
        Seq::empty()
    } else {
        let before = widened(chain.drop_last());
        if before.len() == 0 || larger(chain.last(), before.last()) {
            before.push(chain.last())
        } else {
            before
        }
    }
}

/// Each span of the chain is larger than the one before it.
pub open spec fn widening(chain: Seq<NodeSpan>) -> bool {
    forall|i: int| 0 <= i < chain.len() - 1 ==> larger(#[trigger] chain[i + 1], chain[i])
}

/// Whether place `a` is place `b` or comes before it.
pub fn place_not_after(a: (usize, usize), b: (usize, usize)) -> (r: bool)
    ensures
        r == not_after(a, b),
{
    a.0 < b.0 || (a.0 == b.0 && a.1 <= b.1)
}

/// Keeps of a chain of spans the first one and each that is larger than the
/// last one kept, so that every step along the result grows.
pub fn widen(chain: &Vec<NodeSpan>) -> (kept: Vec<NodeSpan>)
    ensures
        kept@ == widened(chain@),
        widening(kept@),
        chain@.len() > 0 ==> kept@.len() > 0 && kept@[0] == chain@[0],
        kept@.len() <= chain@.len(),
        forall|i: int| 0 <= i < kept@.len() ==> chain@.contains(#[trigger] kept@[i]),
{
    let mut kept: Vec<NodeSpan> = Vec::new();
    let mut i: usize = 0;
    assert(chain@.take(0) =~= Seq::<NodeSpan>::empty());
    while i < chain.len()
        invariant
            i <= chain@.len(),
            kept@ == widened(chain@.take(i as int)),
            widening(kept@),
            i > 0 ==> kept@.len() > 0 && kept@[0] == chain@[0],
            kept@.len() <= i,
            forall|j: int| 0 <= j < kept@.len() ==> chain@.contains(#[trigger] kept@[j]),
        decreases chain@.len() - i,
    {
        let span = chain[i];
        assert(chain@.take(i + 1).drop_last() =~= chain@.take(i as int));
        assert(chain@.take(i + 1).last() == span);
        let grows = if kept.len() == 0 {
            true
        } else {
            let last = kept[kept.len() - 1];
            place_not_after(span.0, last.0) && place_not_after(last.1, span.1) && !(span.0.0
                == last.0.0 && span.0.1 == last.0.1 && span.1.0 == last.1.0 && span.1.1
                == last.1.1)
        };
        if grows {
            kept.push(span);
        }
        i += 1;
    }
    assert(chain@.take(chain@.len() as int) =~= chain@);
    kept
}

/// The chain of nodes around a place of the cursor, and how far a structural
/// selection has grown along it.
pub struct NodePath {
    pub row: usize,
    pub column: usize,
    pub nodes: Vec<NodeSpan>,
    pub current: usize,
}

impl NodePath {
    /// The chain around `(row, column)`, with the selection at its first
    /// node.
    pub fn new(row: usize, column: usize, nodes: Vec<NodeSpan>) -> (path: Self)
        ensures
            path.row == row,
            path.column == column,
            path.nodes == nodes,
            path.current == 0,
    {
        NodePath { row, column, nodes, current: 0 }
    }

    /// The node that the selection has grown to.
    pub fn current_node(&self) -> (node: Option<&NodeSpan>)
        ensures
            self.current < self.nodes@.len() ==> node is Some && *node->0
                == self.nodes@[self.current as int],
            self.current >= self.nodes@.len() ==> node is None,
    {
        if self.current < self.nodes.len() {
            Some(&self.nodes[self.current])
        } else {
            None
        }
    }

    /// Grows the selection to the next node of the chain, and stays at the
    /// last one.
    pub fn next_node(&mut self) -> (node: Option<&NodeSpan>)
        requires
            old(self).nodes@.len() > 0,
        ensures
            final(self).nodes == old(self).nodes,
            final(self).row == old(self).row,
            final(self).column == old(self).column,
            final(self).current == if old(self).current + 1 >= old(self).nodes@.len() {
                old(self).nodes@.len() - 1
            } else {
                old(self).current + 1
            },
            node is Some && *node->0 == final(self).nodes@[final(self).current as int],
    {
        if self.current >= self.nodes.len() - 1 {
            self.current = self.nodes.len() - 1;
        } else {
            self.current += 1;
        }
        Some(&self.nodes[self.current])
    }

    /// Shrinks the selection to the node before; at the first node there is
    /// none.
    pub fn prev_node(&mut self) -> (node: Option<&NodeSpan>)
        ensures
            final(self).nodes == old(self).nodes,
            final(self).row == old(self).row,
            final(self).column == old(self).column,
            old(self).current == 0 ==> node is None && final(self).current == 0,
            old(self).current > 0 ==> final(self).current == old(self).current - 1,
            old(self).current > 0 && old(self).current <= old(self).nodes@.len() ==> node is Some
                && *node->0 == old(self).nodes@[old(self).current - 1],
            old(self).current > old(self).nodes@.len() ==> node is None,
    {
        if self.current == 0 {
            return None;
        }
        self.current -= 1;
        if self.current < self.nodes.len() {
            Some(&self.nodes[self.current])
        } else {
            None
        }
    }
}

} // verus!
