//! The editor's configuration: a theme and the settings of each language.

use vstd::prelude::*;

verus! {

/// How a language indents: `width` times `unit`.
#[derive(Debug)]
pub struct IndentConfig {
    pub width: i32,
    pub unit: String,
}

/// The settings of one language.
#[derive(Debug)]
pub struct LanguageConf {
    pub name: String,
    pub types: Vec<String>,
    pub comment: String,
    pub lsp: Option<Vec<String>>,
    pub indent: IndentConfig,
    pub executable: Option<bool>,
    pub exec_cmd: Option<String>,
    pub exectest: Option<String>,
}

/// The configuration as a whole.
#[derive(Debug)]
pub struct Config {
    pub theme: String,
    pub left_panel_width: Option<usize>,
    pub language: Vec<LanguageConf>,
}

/// The settings of one language, as plain values.
pub struct LanguageView {
    pub name: Seq<char>,
    pub types: Seq<Seq<char>>,
    pub comment: Seq<char>,
    pub lsp: Option<Seq<Seq<char>>>,
    pub indent_width: int,
    pub indent_unit: Seq<char>,
    pub executable: Option<bool>,
    pub exec_cmd: Option<Seq<char>>,
    pub exectest: Option<Seq<char>>,
}

/// The characters of each string of a list.
pub open spec fn strings_view(v: Seq<String>) -> Seq<Seq<char>> {
    v.map_values(|s: String| s@)
}

/// The characters of a string that may be absent.
pub open spec fn option_view(s: Option<String>) -> Option<Seq<char>> {
    match s {
        Some(t) => Some(t@),
        None => None,
    }
}

impl View for LanguageConf {
    type V = LanguageView;

    open spec fn view(&self) -> LanguageView {
        LanguageView {
            name: self.name@,
            types: strings_view(self.types@),
            comment: self.comment@,
            lsp: match self.lsp {
                Some(l) => Some(strings_view(l@)),
                None => None,
            },
            indent_width: self.indent.width as int,
            indent_unit: self.indent.unit@,
            executable: self.executable,
            exec_cmd: option_view(self.exec_cmd),
            exectest: option_view(self.exectest),
        }
    }
}

/// A copy of a list of strings.
pub fn clone_strings(v: &Vec<String>) -> (r: Vec<String>)
    ensures
        strings_view(r@) == strings_view(v@),
{
    let mut r: Vec<String> = Vec::new();
    let mut i: usize = 0;
    while i < v.len()
        invariant
            i <= v.len(),
            r@.len() == i,
            forall|j: int| 0 <= j < i ==> r@[j]@ == v@[j]@,
        decreases v.len() - i,
    {
        r.push(v[i].clone());
        i += 1;
    }
    assert(strings_view(r@) =~= strings_view(v@));
    r
}

/// A copy of a string that may be absent.
pub fn clone_option(s: &Option<String>) -> (r: Option<String>)
    ensures
        option_view(r) == option_view(*s),
{
    match s {
        Some(t) => Some(t.clone()),
        None => None,
    }
}

impl Clone for IndentConfig {
    fn clone(&self) -> (r: Self)
        ensures
            r.width == self.width,
            r.unit@ == self.unit@,
    {
        IndentConfig { width: self.width, unit: self.unit.clone() }
    }
}

impl Clone for LanguageConf {
    fn clone(&self) -> (r: Self)
        ensures
            r@ == self@,
    {
        LanguageConf {
            name: self.name.clone(),
            types: clone_strings(&self.types),
            comment: self.comment.clone(),
            lsp: match &self.lsp {
                Some(l) => Some(clone_strings(l)),
                None => None,
            },
            indent: self.indent.clone(),
            executable: self.executable,
            exec_cmd: clone_option(&self.exec_cmd),
            exectest: clone_option(&self.exectest),
        }
    }
}

/// The index of the first language at or behind `i` that is called `name`.
pub open spec fn first_named(languages: Seq<LanguageConf>, name: Seq<char>, i: int) -> Option<usize>
    decreases languages.len() - i,
{
    if i < 0 || i >= languages.len() {
        None
    } else if languages[i].name@ == name {
        Some(i as usize)
    } else {
        first_named(languages, name, i + 1)
    }
}

impl Config {
    /// The index of the first language called `name`, where there is one.
    pub open spec fn find_language_spec(&self, name: Seq<char>) -> Option<usize> {
        first_named(self.language@, name, 0)
    }

    /// The index of the first language called `name`, where there is one.
    pub fn find_language(&self, name: &str) -> (r: Option<usize>)
        ensures
            r == self.find_language_spec(name@),
            r matches Some(i) ==> i < self.language@.len() && self.language@[i as int].name@
                == name@,
    {
        let mut i: usize = 0;
        while i < self.language.len()
            invariant
                i <= self.language@.len(),
                first_named(self.language@, name@, i as int) == first_named(
                    self.language@,
                    name@,
                    0,
                ),
            decreases self.language@.len() - i,
        {
            if crate::chars::same_text(self.language[i].name.as_str(), name) {
                return Some(i);
            }
            i += 1;
        }
        None
    }
}

} // verus!
