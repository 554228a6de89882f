//! What is made of the configuration: the language of a file, the colours of
//! a theme, and the command that starts a language server.

use crate::chars::{chars_to_string, same_text, str_chars, str_to_string};
use crate::code::matches_at;
use crate::config::{option_view, strings_view, Config, LanguageConf};
use crate::editor::Editor;
use crate::lsp::Lsp;
use crate::screen::Color;
use crate::syntax::Theme;
use crate::utils::{holds_rgb, rgb_of};
use vstd::prelude::*;
use vstd::utf8::encode_utf8;

verus! {

/// The id of the language that `detect-lang` knows the extension of a path
/// as; nothing where it knows none.
pub uninterp spec fn detected(path: Seq<char>) -> Option<Seq<char>>;

/// A text in lower case, as `str::to_lowercase` makes it.
pub uninterp spec fn lowered(text: Seq<char>) -> Seq<char>;

/// `detect_lang::from_path` and `Language::id`: the id of the language that
/// the extension of the path stands for.
#[verifier::external_body]
fn detect_id(path: &str) -> (id: Option<String>)
    ensures
        option_view(id) == detected(path@),
{
    detect_lang::from_path(path).map(|lang| lang.id().to_string())
}

/// `str::to_lowercase`.
#[verifier::external_body]
fn lowercase(text: &str) -> (lower: String)
    ensures
        lower@ == lowered(text@),
{
    text.to_lowercase()
}

/// `path` ends with `ending`.
pub open spec fn ends_with(path: Seq<char>, ending: Seq<char>) -> bool {
    ending.len() <= path.len() && path.subrange(path.len() - ending.len(), path.len() as int)
        == ending
}

/// Whether `path` ends with `ending`.
pub fn has_ending(path: &Vec<char>, ending: &str) -> (r: bool)
    ensures
        r == ends_with(path@, ending@),
{
    let e = str_chars(ending);
    if e.len() > path.len() {
        return false;
    }
    matches_at(path, &e, path.len() - e.len())
}

/// The index of the first file type at or behind `i` that the path ends
/// with.
pub open spec fn type_at(types: Seq<Seq<char>>, path: Seq<char>, i: int) -> Option<int>
    decreases types.len() - i,
{
    if i < 0 || i >= types.len() {
        None
    } else if ends_with(path, types[i]) {
        Some(i)
    } else {
        type_at(types, path, i + 1)
    }
}

/// The index of the first language at or behind `i` one of whose file types
/// the path ends with.
pub open spec fn language_for(languages: Seq<LanguageConf>, path: Seq<char>, i: int) -> Option<int>
    decreases languages.len() - i,
{
    if i < 0 || i >= languages.len() {
        None
    } else if type_at(languages[i]@.types, path, 0) is Some {
        Some(i)
    } else {
        language_for(languages, path, i + 1)
    }
}

/// The language of the file at `path`: the one that the extension stands
/// for, in lower case; else the first language of the configuration one of
/// whose file types the path ends with; else `text`.
pub open spec fn language_of(path: Seq<char>, conf: Config) -> Seq<char> {
    match detected(path) {
        Some(id) => lowered(id),
        None => match language_for(conf.language@, path, 0) {
            Some(i) => conf.language@[i].name@,
            None => "text"@,
        },
    }
}

/// The language of the file at `path`.
pub fn detect_language(path: &str, conf: &Config) -> (lang: String)
    ensures
        lang@ == language_of(path@, *conf),
{
    if let Some(id) = detect_id(path) {
        return lowercase(id.as_str());
    }
    let chars = str_chars(path);
    let mut i: usize = 0;
    while i < conf.language.len()
        invariant
            i <= conf.language@.len(),
            chars@ == path@,
            detected(path@) is None,
            language_for(conf.language@, path@, i as int) == language_for(conf.language@, path@, 0),
        decreases conf.language@.len() - i,
    {
        let types = &conf.language[i].types;
        let mut k: usize = 0;
        while k < types.len()
            invariant
                k <= types@.len(),
                i < conf.language@.len(),
                types@ == conf.language@[i as int].types@,
                chars@ == path@,
                detected(path@) is None,
                language_for(conf.language@, path@, i as int) == language_for(
                    conf.language@,
                    path@,
                    0,
                ),
                type_at(strings_view(types@), path@, k as int) == type_at(
                    strings_view(types@),
                    path@,
                    0,
                ),
            decreases types@.len() - k,
        {
            if has_ending(&chars, types[k].as_str()) {
                assert(strings_view(types@)[k as int] == types@[k as int]@);
                return conf.language[i].name.clone();
            }
            assert(strings_view(types@)[k as int] == types@[k as int]@);
            k += 1;
        }
        i += 1;
    }
    str_to_string("text")
}

/// The pieces of a text between its spaces.  Two spaces in a row have an
/// empty piece between them.
pub open spec fn pieces(text: Seq<char>, from: int) -> Seq<Seq<char>>
    decreases text.len() - from,
{
    if from < 0 || from > text.len() {
        seq![Seq::empty()]
    } else {
        let end = space_in(text, from);
        if end >= text.len() {
            seq![text.subrange(from, text.len() as int)]
        } else {
            let rest = {
                proof {
                    lemma_space_in(text, from);
                }
                pieces(text, end + 1)
            };
            seq![text.subrange(from, end)] + rest
        }
    }
}

/// The first position at or behind `i` at which `text` holds a space, or its
/// length.
pub open spec fn space_in(text: Seq<char>, i: int) -> int
    decreases text.len() - i,
{
    if i < 0 || i >= text.len() {
        text.len() as int
    } else if text[i] == ' ' {
        i
    } else {
        space_in(text, i + 1)
    }
}

/// Where `space_in` stops.
pub proof fn lemma_space_in(text: Seq<char>, i: int)
    requires
        0 <= i <= text.len(),
    ensures
        i <= space_in(text, i) <= text.len(),
    decreases text.len() - i,
{
    if i < text.len() && text[i] != ' ' {
        lemma_space_in(text, i + 1);
    }
}

/// A command as its program and its arguments: the pieces between the
/// spaces of the command, the first of which is the program.
pub fn split_command(cmd: &str) -> (parts: (String, Vec<String>))
    ensures
        seq![parts.0@] + strings_view(parts.1@) == pieces(cmd@, 0),
{
    let chars = str_chars(cmd);
    let mut all: Vec<String> = Vec::new();
    let mut from: usize = 0;
    assert(strings_view(all@) =~= Seq::<Seq<char>>::empty());
    loop
        invariant_except_break
            strings_view(all@) + pieces(cmd@, from as int) == pieces(cmd@, 0),
        invariant
            from <= chars@.len(),
            chars@ == cmd@,
        ensures
            strings_view(all@) == pieces(cmd@, 0),
            all@.len() >= 1,
        decreases chars@.len() - from,
    {
        let mut end = from;
        while end < chars.len() && chars[end] != ' '
            invariant
                from <= end <= chars@.len(),
                chars@ == cmd@,
                space_in(cmd@, end as int) == space_in(cmd@, from as int),
            decreases chars@.len() - end,
        {
            end += 1;
        }
        let mut piece: Vec<char> = Vec::new();
        let mut i = from;
        while i < end
            invariant
                from <= i <= end <= chars@.len(),
                piece@ == chars@.subrange(from as int, i as int),
            decreases end - i,
        {
            piece.push(chars[i]);
            i += 1;
            assert(piece@ =~= chars@.subrange(from as int, i as int));
        }
        let ghost before = strings_view(all@);
        all.push(chars_to_string(&piece));
        proof {
            assert(strings_view(all@) =~= before.push(piece@));
        }
        if end >= chars.len() {
            proof {
                assert(pieces(cmd@, from as int) =~= seq![piece@]);
                assert(before.push(piece@) =~= before + seq![piece@]);
                assert(strings_view(all@).len() == all@.len());
            }
            break ;
        }
        proof {
            assert(pieces(cmd@, from as int) =~= seq![piece@] + pieces(cmd@, end + 1));
            assert(before.push(piece@) + pieces(cmd@, end + 1) =~= before + (seq![piece@]
                + pieces(cmd@, end + 1)));
        }
        from = end + 1;
    }
    let ghost whole = all@;
    let program = all.remove(0);
    proof {
        assert(strings_view(whole)[0] == whole[0]@);
        assert(strings_view(all@) =~= strings_view(whole).drop_first());
        assert(seq![program@] + strings_view(all@) =~= pieces(cmd@, 0));
    }
    (program, all)
}

/// The texts of a list with a space between each two.
pub open spec fn spaced(parts: Seq<Seq<char>>, n: nat) -> Seq<char>
    decreases n,
{
    if n == 0 || n > parts.len() {
        Seq::empty()
    } else if n == 1 {
        parts[0]
    } else {
        spaced(parts, (n - 1) as nat) + seq![' '] + parts[n - 1]
    }
}

/// The texts of a list with a space between each two.
pub fn join_spaced(parts: &Vec<String>) -> (text: String)
    ensures
        text@ == spaced(strings_view(parts@), parts@.len()),
{
    let mut out: Vec<char> = Vec::new();
    let mut i: usize = 0;
    while i < parts.len()
        invariant
            i <= parts@.len(),
            out@ == spaced(strings_view(parts@), i as nat),
        decreases parts@.len() - i,
    {
        if i > 0 {
            out.push(' ');
        }
        let mut part = str_chars(parts[i].as_str());
        out.append(&mut part);
        i += 1;
        assert(strings_view(parts@)[i - 1] == parts@[i - 1]@);
        assert(out@ =~= spaced(strings_view(parts@), i as nat));
    }
    chars_to_string(&out)
}

/// The command that starts the language server of a language: the words of
/// its command in the configuration, with spaces between them.  Nothing for
/// a language that is not configured or has no server.
pub open spec fn command_of_server(conf: Config, lang: Seq<char>) -> Option<Seq<char>> {
    match conf.find_language_spec(lang) {
        Some(i) => match conf.language@[i as int]@.lsp {
            Some(words) => Some(spaced(words, words.len())),
            None => None,
        },
        None => None,
    }
}

/// The command that starts the language server of a language.
pub fn lsp_command(conf: &Config, lang: &str) -> (cmd: Option<String>)
    ensures
        option_view(cmd) == command_of_server(*conf, lang@),
{
    match conf.find_language(lang) {
        Some(i) => match &conf.language[i].lsp {
            Some(words) => Some(join_spaced(words)),
            None => None,
        },
        None => None,
    }
}

/// The language servers that were started, by language.
pub struct LspManager {
    pub config: Config,
    pub servers: Vec<Lsp>,
}

/// The index of the first server at or behind `i` that serves `lang`.
pub open spec fn server_at(servers: Seq<Lsp>, lang: Seq<char>, i: int) -> Option<int>
    decreases servers.len() - i,
{
    if i < 0 || i >= servers.len() {
        None
    } else if servers[i].lang@ == lang {
        Some(i)
    } else {
        server_at(servers, lang, i + 1)
    }
}

impl LspManager {
    /// A manager without servers.
    pub fn new(config: Config) -> (manager: Self)
        ensures
            manager.config == config,
            manager.servers@.len() == 0,
    {
        Self { config, servers: Vec::new() }
    }

    /// `after` holds the sessions that were there and behind them one that
    /// was made for `lang` and has not begun.
    pub open spec fn joined_by(self, lang: Seq<char>, after: LspManager) -> bool {
        let fresh = after.servers@.last();
        &&& after.servers@ == self.servers@.push(fresh)
        &&& fresh.lang@ == lang
        &&& fresh.next_id == 1
        &&& fresh.versions@.len() == 0
        &&& fresh.pending@.len() == 0
        &&& !fresh.ready
        &&& fresh.opened@.len() == 0
    }

    /// The index of the session with the server of a language, where one
    /// was started or can be: a language without a server in the
    /// configuration has none.  A session that was not started yet is added,
    /// and `started` tells that its server is still to be started, with the
    /// command that is returned.
    pub fn get(&mut self, lang: &str) -> (found: Option<(usize, Option<String>)>)
        ensures
            final(self).config == old(self).config,
            match command_of_server(old(self).config, lang@) {
                None => found is None && final(self).servers == old(self).servers,
                Some(cmd) => match server_at(old(self).servers@, lang@, 0) {
                    Some(i) => found == Some((i as usize, None::<String>)) && final(self).servers
                        == old(self).servers,
                    None => found matches Some((at, Some(started))) && at == old(
                        self,
                    ).servers@.len() && started@ == cmd && old(self).joined_by(
                        lang@,
                        *final(self),
                    ),
                },
            },
    {
        let cmd = match lsp_command(&self.config, lang) {
            Some(cmd) => cmd,
            None => {
                return None;
            },
        };
        let mut i: usize = 0;
        while i < self.servers.len()
            invariant
                i <= self.servers@.len(),
                *self == *old(self),
                command_of_server(self.config, lang@) == Some(cmd@),
                server_at(self.servers@, lang@, i as int) == server_at(self.servers@, lang@, 0),
            decreases self.servers@.len() - i,
        {
            if same_text(self.servers[i].lang.as_str(), lang) {
                return Some((i, None));
            }
            i += 1;
        }
        let mut lsp = Lsp::new();
        lsp.start(lang);
        self.servers.push(lsp);
        Some((self.servers.len() - 1, Some(cmd)))
    }
}

/// What a YAML text spells, as far as a theme reads it: nothing where the
/// text is not YAML; else the entries of the mapping that it spells, each
/// with its key and its value where they are strings, or no entries at all
/// where what it spells is no mapping.
pub uninterp spec fn yaml_pairs(text: Seq<char>) -> Option<
    Option<Seq<(Option<Seq<char>>, Option<Seq<char>>)>>,
>;

/// The keys and values of a list of entries.
pub open spec fn entries_view(entries: Seq<(Option<String>, Option<String>)>) -> Seq<
    (Option<Seq<char>>, Option<Seq<char>>),
> {
    entries.map_values(|e: (Option<String>, Option<String>)| (option_view(e.0), option_view(e.1)))
}

/// The keys and values of the entries of a value, where it is a mapping.
pub open spec fn value_view(value: Option<Vec<(Option<String>, Option<String>)>>) -> Option<
    Seq<(Option<Seq<char>>, Option<Seq<char>>)>,
> {
    match value {
        Some(e) => Some(entries_view(e@)),
        None => None,
    }
}

/// `serde_yaml::from_str` to a `Value`, `Value::as_mapping`, and
/// `Value::as_str` on the key and the value of each entry, in the order of
/// the mapping.
#[verifier::external_body]
fn yaml_entries(text: &str) -> (value: Option<Option<Vec<(Option<String>, Option<String>)>>>)
    ensures
        (match value {
            Some(v) => Some(value_view(v)),
            None => None,
        }) == yaml_pairs(text@),
{
    let value: serde_yaml::Value = serde_yaml::from_str(text).ok()?;
    Some(value.as_mapping().map(|mapping| {
        mapping.into_iter().map(|(key, value)| {
            (key.as_str().map(String::from), value.as_str().map(String::from))
        }).collect()
    }))
}

/// The entries whose key and value are both strings, among the first `n`.
pub open spec fn string_pairs(
    entries: Seq<(Option<Seq<char>>, Option<Seq<char>>)>,
    n: nat,
) -> Seq<(Seq<char>, Seq<char>)>
    decreases n,
{
    if n == 0 || n > entries.len() {
        Seq::empty()
    } else {
        let before = string_pairs(entries, (n - 1) as nat);
        match entries[n - 1] {
            (Some(k), Some(v)) => before.push((k, v)),
            _ => before,
        }
    }
}

/// The names and values of a list of pairs.
pub open spec fn pairs_view(pairs: Seq<(String, String)>) -> Seq<(Seq<char>, Seq<char>)> {
    pairs.map_values(|p: (String, String)| (p.0@, p.1@))
}

/// The pairs that a value gives: the entries of a mapping whose key and
/// value are both strings, in the order of the mapping; none where the
/// value is no mapping.
pub open spec fn pairs_of(value: Option<Seq<(Option<Seq<char>>, Option<Seq<char>>)>>) -> Seq<
    (Seq<char>, Seq<char>),
> {
    match value {
        Some(e) => string_pairs(e, e.len()),
        None => Seq::empty(),
    }
}

/// The entries of a mapping whose key and value are both strings, in the
/// order of the mapping.  A value that is no mapping gives none.
pub fn yaml_to_map(value: Option<Vec<(Option<String>, Option<String>)>>) -> (pairs: Vec<
    (String, String),
>)
    ensures
        pairs_view(pairs@) == pairs_of(value_view(value)),
{
    let mut pairs: Vec<(String, String)> = Vec::new();
    assert(pairs_view(pairs@) =~= Seq::<(Seq<char>, Seq<char>)>::empty());
    let entries = match value {
        Some(entries) => entries,
        None => {
            return pairs;
        },
    };
    let mut i: usize = 0;
    while i < entries.len()
        invariant
            i <= entries@.len(),
            pairs_view(pairs@) == string_pairs(entries_view(entries@), i as nat),
        decreases entries@.len() - i,
    {
        let ghost before = pairs_view(pairs@);
        assert(entries_view(entries@)[i as int] == (
            option_view(entries@[i as int].0),
            option_view(entries@[i as int].1),
        ));
        match (&entries[i].0, &entries[i].1) {
            (Some(k), Some(v)) => {
                pairs.push((k.clone(), v.clone()));
                assert(pairs_view(pairs@) =~= before.push((k@, v@)));
            },
            _ => {},
        }
        i += 1;
    }
    pairs
}

/// The names and colours that a theme spells in YAML; nothing where the
/// text is not YAML, and no pairs where it spells no mapping.
pub fn theme_pairs(text: &str) -> (pairs: Option<Vec<(String, String)>>)
    ensures
        (match pairs {
            Some(p) => Some(pairs_view(p@)),
            None => None,
        }) == (match yaml_pairs(text@) {
            Some(value) => Some(pairs_of(value)),
            None => None,
        }),
{
    match yaml_entries(text) {
        Some(value) => Some(yaml_to_map(value)),
        None => None,
    }
}

/// The colours of the file panel that a theme gives.
#[derive(Clone, Copy, Debug, PartialEq, Eq, Structural)]
pub struct PanelColors {
    pub dir: Color,
    pub file: Color,
    pub active_file: Color,
}

/// The colour that a theme gives under a name, or else `fallback`.
pub open spec fn themed(theme: Theme, name: Seq<char>, fallback: Color) -> Color {
    match theme.colour(name) {
        Some(c) => c,
        None => fallback,
    }
}

/// The colour that the first `n` pairs of a theme give a name: that of the
/// last pair of that name that spells a colour.
pub open spec fn paired(pairs: Seq<(String, String)>, name: Seq<char>, n: nat) -> Option<Color>
    decreases n,
{
    if n == 0 || n > pairs.len() {
        None
    } else if pairs[n - 1].0@ == name && crate::utils::holds_rgb(encode_utf8(pairs[n - 1].1@)) {
        Some(
            Color::Rgb {
                r: crate::utils::rgb_of(encode_utf8(pairs[n - 1].1@)).0,
                g: crate::utils::rgb_of(encode_utf8(pairs[n - 1].1@)).1,
                b: crate::utils::rgb_of(encode_utf8(pairs[n - 1].1@)).2,
            },
        )
    } else {
        paired(pairs, name, (n - 1) as nat)
    }
}

impl Editor {
    /// Takes the colours of a theme: those of the captures, and under their
    /// own names those of the line numbers, the status line, the selection,
    /// the errors and the run buttons, for which there are colours to fall
    /// back on.  Entries that spell no colour are left out.  Returns the
    /// colours of the file panel.
    pub fn configure_theme(&mut self, pairs: &Vec<(String, String)>) -> (panel: PanelColors)
        ensures
            forall|name: Seq<char>|
                #[trigger] final(self).theme.colour(name) == paired(pairs@, name, pairs@.len()),
            *final(self) == (Editor {
                theme: final(self).theme,
                lncolor: themed(final(self).theme, "lncolor"@, Color::AnsiValue(247)),
                scolor: themed(final(self).theme, "scolor"@, Color::AnsiValue(247)),
                selcolor: themed(final(self).theme, "selcolor"@, Color::AnsiValue(247)),
                ecolor: themed(final(self).theme, "ecolor"@, Color::AnsiValue(247)),
                lbcolor: themed(final(self).theme, "lbcolor"@, Color::AnsiValue(87)),
                ..*old(self)
            }),
            panel.dir == themed(final(self).theme, "dircolor"@, Color::Reset),
            panel.file == themed(final(self).theme, "filecolor"@, Color::Reset),
            panel.active_file == themed(final(self).theme, "activefilecolor"@, Color::Reset),
    {
        let mut theme = Theme::new();
        let mut i: usize = 0;
        while i < pairs.len()
            invariant
                i <= pairs@.len(),
                forall|name: Seq<char>|
                    #[trigger] theme.colour(name) == paired(pairs@, name, i as nat),
            decreases pairs@.len() - i,
        {
            let _ = theme.insert(pairs[i].0.as_str(), pairs[i].1.as_str());
            i += 1;
        }
        self.lncolor = colour_or(&theme, "lncolor", Color::AnsiValue(247));
        self.scolor = colour_or(&theme, "scolor", Color::AnsiValue(247));
        self.selcolor = colour_or(&theme, "selcolor", Color::AnsiValue(247));
        self.ecolor = colour_or(&theme, "ecolor", Color::AnsiValue(247));
        self.lbcolor = colour_or(&theme, "lbcolor", Color::AnsiValue(87));
        let panel = PanelColors {
            dir: colour_or(&theme, "dircolor", Color::Reset),
            file: colour_or(&theme, "filecolor", Color::Reset),
            active_file: colour_or(&theme, "activefilecolor", Color::Reset),
        };
        self.theme = theme;
        panel
    }
}

/// The colour that a theme gives under a name, or else `fallback`.
pub fn colour_or(theme: &Theme, name: &str, fallback: Color) -> (color: Color)
    ensures
        color == themed(*theme, name@, fallback),
{
    match theme.get(name) {
        Some(c) => c,
        None => fallback,
    }
}

} // verus!
