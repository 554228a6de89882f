//! The file panel: the tree of files on the left of the screen, the row that
//! is chosen in it, how far its rows are scrolled, and the text that filters
//! the files.  The panel decides; reading directories and painting are left
//! to its user.

use crate::chars::{chars_to_string, str_chars};
use crate::editing::above;
use crate::keys::PanelCommand;
use crate::rope::{
    rope_chars, rope_insert_char, rope_len_chars, rope_new, rope_remove, rope_substring,
};
use crate::screen::Color;
use crate::setup::PanelColors;
use crate::text::{insert_at, remove_range};
use crate::tree::{rows, TreeNode, TreeNodeIterator};
use crate::utils::spaces;
use crate::view::blanks;
use crate::width::{text_cells, text_width};
use vstd::prelude::*;
use vstd::utf8::encode_utf8;

verus! {

/// The text that filters the files, and the cursor in it.
pub struct FileSearch {
    pub active: bool,
    pub pattern: ropey::Rope,
    pub index: usize,
}

impl FileSearch {
    /// The characters of the pattern.
    pub open spec fn pattern_chars(&self) -> Seq<char> {
        rope_chars(self.pattern)
    }

    /// No filter.
    pub fn new() -> (search: Self)
        ensures
            !search.active,
            search.pattern_chars().len() == 0,
            search.index == 0,
    {
        Self { active: false, pattern: rope_new(), index: 0 }
    }
}

/// The number of rows that a tree shows, its root counted; the largest
/// number where there are more.
pub fn row_count(root: &TreeNode) -> (n: usize)
    ensures
        n == above(rows(*root, 0).len() as int),
{
    let mut it = TreeNodeIterator::new(root);
    let mut n: usize = 0;
    let ghost all = rows(*root, 0);
    loop
        invariant
            all == rows(*root, 0),
            it.remaining().len() <= all.len(),
            n == above(all.len() - it.remaining().len()),
        decreases it.remaining().len(),
    {
        match it.next() {
            Some(_) => {
                n = n.saturating_add(1);
            },
            None => {
                return n;
            },
        }
    }
}

/// The row of a tree at `index`, counted from the root: the node and its
/// depth.
pub fn row_at<'a>(root: &'a TreeNode, index: usize) -> (row: Option<(&'a TreeNode, usize)>)
    ensures
        match row {
            Some((node, depth)) => index < rows(*root, 0).len() && (*node, depth) == rows(
                *root,
                0,
            )[index as int],
            None => index >= rows(*root, 0).len(),
        },
{
    let mut it = TreeNodeIterator::new(root);
    let mut i: usize = 0;
    let ghost all = rows(*root, 0);
    loop
        invariant
            all == rows(*root, 0),
            i <= index,
            i + it.remaining().len() == all.len(),
            it.remaining() == all.skip(i as int),
        decreases it.remaining().len(),
    {
        match it.next() {
            Some(row) => {
                if i == index {
                    return Some(row);
                }
                proof {
                    assert(all.skip(i as int).drop_first() =~= all.skip(i + 1));
                }
                i += 1;
            },
            None => {
                return None;
            },
        }
    }
}

/// The index of the first of the rows from `i` on that shows a file; that of
/// the last row where there is none.
pub open spec fn first_file_from(all: Seq<(TreeNode, usize)>, i: int) -> int
    decreases all.len() - i,
{
    if i < 0 || i >= all.len() {
        all.len() - 1
    } else if all[i].0.is_file {
        i
    } else {
        first_file_from(all, i + 1)
    }
}

/// The index of the first row of a tree that shows a file; that of the last
/// row where there is none.
pub fn first_file(root: &TreeNode) -> (index: usize)
    ensures
        index == above(first_file_from(rows(*root, 0), 0)),
{
    let mut it = TreeNodeIterator::new(root);
    let mut i: usize = 0;
    let mut last: usize = 0;
    let ghost all = rows(*root, 0);
    let ghost mut seen: int = 0;
    loop
        invariant
            all == rows(*root, 0),
            0 <= seen <= all.len(),
            i == above(seen),
            seen > 0 ==> last == above(seen - 1),
            all.len() >= 1,
            it.remaining() == all.skip(seen),
            first_file_from(all, seen) == first_file_from(all, 0),
        decreases it.remaining().len(),
    {
        match it.next() {
            Some((node, _)) => {
                if node.is_file {
                    return i;
                }
                proof {
                    assert(all.skip(seen).drop_first() =~= all.skip(seen + 1));
                    seen = seen + 1;
                }
                last = i;
                i = i.saturating_add(1);
            },
            None => {
                return last;
            },
        }
    }
}

/// The file panel.
pub struct TreeView {
    pub width: usize,
    pub height: usize,
    /// The panel has to be painted anew.
    pub upd: bool,
    pub root: TreeNode,
    /// The row that is chosen, counted from the root.
    pub selected: usize,
    /// The first row in view.
    pub x: usize,
    pub colors: PanelColors,
    /// The path of the file that is in view in the editor.
    pub active_file: String,
    pub search: FileSearch,
}

/// One row of the panel as it is painted: its text, as wide as the panel
/// without its edge, and the colour of the text.
pub struct PanelRow {
    pub text: String,
    pub color: Color,
}

/// The text of a row of the panel of `width` columns: a space, a space more
/// for each step of depth, and as much of the name as fits before the
/// panel's edge, with spaces behind it up to the edge.
pub open spec fn row_text(name: Seq<char>, depth: usize, width: usize) -> Seq<char> {
    let room = if width >= 1 {
        width - 1
    } else {
        0
    };
    let indent = if 1 + depth <= room {
        1 + depth
    } else {
        room
    };
    let shown = if name.len() <= room - indent {
        name.len() as int
    } else {
        room - indent
    };
    spaces(indent as nat) + name.take(shown) + spaces((room - indent - shown) as nat)
}

/// The text of a row of the panel.
pub fn text_of_row(name: &str, depth: usize, width: usize) -> (text: String)
    ensures
        text@ == row_text(name@, depth, width),
{
    let room = width.saturating_sub(1);
    let indent = if depth < room {
        depth + 1
    } else {
        room
    };
    let chars = str_chars(name);
    let shown = if chars.len() <= room - indent {
        chars.len()
    } else {
        room - indent
    };
    let mut out = blanks(indent);
    let mut i: usize = 0;
    while i < shown
        invariant
            i <= shown <= chars@.len(),
            chars@ == name@,
            out@ == spaces(indent as nat) + name@.take(i as int),
        decreases shown - i,
    {
        out.push(chars[i]);
        i += 1;
        assert(out@ =~= spaces(indent as nat) + name@.take(i as int));
    }
    let mut rest = blanks(room - indent - shown);
    out.append(&mut rest);
    chars_to_string(&out)
}

impl TreeView {
    /// The rows of the tree, the root first.
    pub open spec fn all_rows(&self) -> Seq<(TreeNode, usize)> {
        rows(self.root, 0)
    }

    /// The number of nodes that are shown below the root.
    pub open spec fn below_root(&self) -> int {
        above(self.all_rows().len() as int) - 1
    }

    /// A panel that shows `root`, with its first row chosen.
    pub fn new(root: TreeNode) -> (view: Self)
        ensures
            view.root == root,
            view.width == 25,
            view.height == 30,
            view.upd,
            view.selected == 0,
            view.x == 0,
            view.colors == (PanelColors {
                dir: Color::Reset,
                file: Color::Reset,
                active_file: Color::Reset,
            }),
            view.active_file@.len() == 0,
            !view.search.active,
            view.search.pattern_chars().len() == 0,
            view.search.index == 0,
    {
        Self {
            width: 25,
            height: 30,
            upd: true,
            root,
            selected: 0,
            x: 0,
            colors: PanelColors {
                dir: Color::Reset,
                file: Color::Reset,
                active_file: Color::Reset,
            },
            active_file: String::new(),
            search: FileSearch::new(),
        }
    }

    /// Gives the panel a width.
    pub fn set_width(&mut self, width: usize)
        ensures
            *final(self) == (TreeView { width, upd: true, ..*old(self) }),
    {
        self.width = width;
        self.upd = true;
    }

    /// Gives the panel a height.
    pub fn set_height(&mut self, height: usize)
        ensures
            *final(self) == (TreeView { height, upd: true, ..*old(self) }),
    {
        self.height = height;
        self.upd = true;
    }

    /// Gives the panel its colours.
    pub fn set_colors(&mut self, colors: PanelColors)
        ensures
            *final(self) == (TreeView { colors, upd: true, ..*old(self) }),
    {
        self.colors = colors;
        self.upd = true;
    }

    /// Gives directories a colour.
    pub fn set_dir_color(&mut self, c: Color)
        ensures
            *final(self) == (TreeView {
                colors: PanelColors { dir: c, ..old(self).colors },
                upd: true,
                ..*old(self)
            }),
    {
        self.colors.dir = c;
        self.upd = true;
    }

    /// Gives files a colour.
    pub fn set_file_color(&mut self, c: Color)
        ensures
            *final(self) == (TreeView {
                colors: PanelColors { file: c, ..old(self).colors },
                upd: true,
                ..*old(self)
            }),
    {
        self.colors.file = c;
        self.upd = true;
    }

    /// Gives the file in view, and the row that is chosen, a colour.
    pub fn set_active_file_color(&mut self, c: Color)
        ensures
            *final(self) == (TreeView {
                colors: PanelColors { active_file: c, ..old(self).colors },
                upd: true,
                ..*old(self)
            }),
    {
        self.colors.active_file = c;
        self.upd = true;
    }

    /// Chooses the row that stands on row `i` of the screen.
    pub fn set_selected(&mut self, i: usize)
        ensures
            *final(self) == (TreeView {
                selected: above(i + old(self).x),
                upd: true,
                ..*old(self)
            }),
    {
        self.selected = i.saturating_add(self.x);
        self.upd = true;
    }

    /// Makes row `x` the first one in view.
    pub fn set_scroll(&mut self, x: usize)
        ensures
            *final(self) == (TreeView { x, upd: true, ..*old(self) }),
    {
        self.x = x;
        self.upd = true;
    }

    /// Takes note of the file that is in view in the editor.
    pub fn set_active(&mut self, fullpath: String)
        ensures
            *final(self) == (TreeView { active_file: fullpath, ..*old(self) }),
    {
        self.active_file = fullpath;
    }

    /// Whether the files are filtered.
    pub fn is_search(&self) -> (r: bool)
        ensures
            r == self.search.active,
    {
        self.search.active
    }

    /// Chooses the row before, where there is one.
    pub fn handle_up(&mut self)
        ensures
            *final(self) == if old(self).selected == 0 {
                *old(self)
            } else {
                TreeView { selected: (old(self).selected - 1) as usize, upd: true, ..*old(self) }
            },
    {
        if self.selected == 0 {
            return ;
        }
        self.selected -= 1;
        self.upd = true;
    }

    /// Chooses the next row, where there is one.
    pub fn handle_down(&mut self)
        ensures
            *final(self) == if old(self).selected >= old(self).below_root() {
                *old(self)
            } else {
                TreeView { selected: (old(self).selected + 1) as usize, upd: true, ..*old(self) }
            },
    {
        if self.selected >= row_count(&self.root) - 1 {
            return ;
        }
        self.selected += 1;
        self.upd = true;
    }

    /// Moves the view one row down, as long as rows lie below it.
    pub fn scroll_down(&mut self)
        ensures
            *final(self) == if old(self).x + old(self).height > old(self).below_root() {
                *old(self)
            } else {
                TreeView { x: (old(self).x + 1) as usize, upd: true, ..*old(self) }
            },
    {
        let below = row_count(&self.root) - 1;
        if self.height > below || self.x > below - self.height {
            return ;
        }
        self.x += 1;
        self.upd = true;
    }

    /// Moves the view one row up, where it is not at the top.
    pub fn scroll_up(&mut self)
        ensures
            *final(self) == if old(self).x == 0 {
                *old(self)
            } else {
                TreeView { x: (old(self).x - 1) as usize, upd: true, ..*old(self) }
            },
    {
        if self.x == 0 {
            return ;
        }
        self.x -= 1;
        self.upd = true;
    }

    /// The node on row `index` of the screen, and its depth.
    pub fn find(&self, index: usize) -> (row: Option<(&TreeNode, usize)>)
        ensures
            match row {
                Some((node, depth)) => above(index + self.x) < self.all_rows().len() && (
                    *node,
                    depth,
                ) == self.all_rows()[above(index + self.x) as int],
                None => above(index + self.x) >= self.all_rows().len(),
            },
    {
        row_at(&self.root, index.saturating_add(self.x))
    }

    /// The node that is chosen.
    pub fn get_selected(&self) -> (row: Option<&TreeNode>)
        ensures
            match row {
                Some(node) => self.selected < self.all_rows().len() && *node
                    == self.all_rows()[self.selected as int].0,
                None => self.selected >= self.all_rows().len(),
            },
    {
        match row_at(&self.root, self.selected) {
            Some((node, _)) => Some(node),
            None => None,
        }
    }
}

/// What a click on the panel hits.
pub struct Clicked {
    pub fullpath: String,
    pub is_file: bool,
}

/// The nodes with their entries hidden.
pub open spec fn folded(nodes: Seq<TreeNode>, after: Seq<TreeNode>) -> bool {
    &&& after.len() == nodes.len()
    &&& forall|i: int|
        0 <= i < nodes.len() ==> (#[trigger] after[i]).children is None && after[i].name
            == nodes[i].name && after[i].fullpath == nodes[i].fullpath && after[i].is_file
            == nodes[i].is_file
}

/// Hides what lies below the entries of a node, so that the node shows its
/// entries only.
pub fn fold_entries(node: &mut TreeNode)
    ensures
        final(node).name == old(node).name,
        final(node).fullpath == old(node).fullpath,
        final(node).is_file == old(node).is_file,
        match old(node).children {
            Some(entries) => final(node).children is Some && folded(
                entries@,
                final(node).children->0@,
            ),
            None => final(node).children is None,
        },
{
    let kids = node.children.take();
    if let Some(children) = kids {
        let ghost all = children@;
        let mut kept: Vec<TreeNode> = Vec::new();
        for child in it: children
            invariant
                it.seq() == all,
                kept@.len() == it.index(),
                forall|i: int|
                    0 <= i < kept@.len() ==> (#[trigger] kept@[i]).children is None && kept@[i].name
                        == all[i].name && kept@[i].fullpath == all[i].fullpath && kept@[i].is_file
                        == all[i].is_file,
        {
            let mut child = child;
            child.collapse();
            kept.push(child);
        }
        node.children = Some(kept);
    }
}

impl TreeView {
    /// The colour of the row at `index` that shows `node`: that of the file
    /// in view for the row that is chosen and for the file that is in view
    /// in the editor, else that of files or that of directories.
    pub open spec fn row_colour(&self, node: TreeNode, index: int) -> Color {
        if self.selected == index {
            self.colors.active_file
        } else if !node.is_file {
            self.colors.dir
        } else if node.fullpath@ == self.active_file@ {
            self.colors.active_file
        } else {
            self.colors.file
        }
    }

    /// The rows of the panel as they are painted, from the first row in view
    /// on: as many as the panel is high, those below the tree empty.  A
    /// panel without width has no rows.
    pub fn rows_to_paint(&self) -> (painted: Vec<PanelRow>)
        ensures
            painted@.len() == if self.width == 0 {
                0
            } else {
                self.height
            },
            forall|i: int|
                0 <= i < painted@.len() ==> if self.x + i < self.all_rows().len() {
                    let row = self.all_rows()[self.x + i];
                    (#[trigger] painted@[i]).text@ == row_text(row.0.name@, row.1, self.width)
                        && painted@[i].color == self.row_colour(row.0, self.x + i)
                } else {
                    (#[trigger] painted@[i]).text@ == row_text(Seq::empty(), 0, self.width)
                        && painted@[i].color == Color::Reset
                },
    {
        let mut painted: Vec<PanelRow> = Vec::new();
        if self.width == 0 {
            return painted;
        }
        let mut it = TreeNodeIterator::new(&self.root);
        let ghost all = self.all_rows();
        let mut skipped: usize = 0;
        let ghost mut seen: int = 0;
        while skipped < self.x
            invariant
                all == self.all_rows(),
                skipped <= self.x,
                0 <= seen <= all.len(),
                seen <= skipped,
                seen < skipped ==> seen == all.len(),
                it.remaining() == all.skip(seen),
            decreases self.x - skipped,
        {
            if let Some(_) = it.next() {
                proof {
                    assert(all.skip(seen).drop_first() =~= all.skip(seen + 1));
                    seen = seen + 1;
                }
            }
            skipped += 1;
        }
        while painted.len() < self.height
            invariant
                all == self.all_rows(),
                self.width > 0,
                painted@.len() <= self.height,
                0 <= seen <= all.len(),
                seen == all.len() || seen == self.x + painted@.len(),
                seen <= self.x + painted@.len(),
                it.remaining() == all.skip(seen),
                forall|i: int|
                    0 <= i < painted@.len() ==> if self.x + i < all.len() {
                        let row = all[self.x + i];
                        (#[trigger] painted@[i]).text@ == row_text(row.0.name@, row.1, self.width)
                            && painted@[i].color == self.row_colour(row.0, self.x + i)
                    } else {
                        (#[trigger] painted@[i]).text@ == row_text(Seq::empty(), 0, self.width)
                            && painted@[i].color == Color::Reset
                    },
            decreases self.height - painted@.len(),
        {
            let chosen = match self.x.checked_add(painted.len()) {
                Some(index) => self.selected == index,
                None => false,
            };
            match it.next() {
                Some((node, depth)) => {
                    proof {
                        assert(all.skip(seen).drop_first() =~= all.skip(seen + 1));
                        assert(all.skip(seen)[0] == all[seen]);
                        seen = seen + 1;
                    }
                    let color = if chosen {
                        self.colors.active_file
                    } else if !node.is_file {
                        self.colors.dir
                    } else if crate::chars::same_text(
                        node.fullpath.as_str(),
                        self.active_file.as_str(),
                    ) {
                        self.colors.active_file
                    } else {
                        self.colors.file
                    };
                    painted.push(
                        PanelRow { text: text_of_row(node.name.as_str(), depth, self.width), color },
                    );
                },
                None => {
                    proof {
                        reveal_strlit("");
                    }
                    painted.push(
                        PanelRow { text: text_of_row("", 0, self.width), color: Color::Reset },
                    );
                },
            }
        }
        painted
    }

    /// Takes note that the panel was painted.
    pub fn painted(&mut self)
        ensures
            *final(self) == (TreeView { upd: false, ..*old(self) }),
    {
        self.upd = false;
    }

    /// What a click on row `row` and column `column` of the screen hits: the
    /// node of the row, where the click is on its name.
    pub fn clicked(&self, row: usize, column: u16) -> (hit: Option<Clicked>)
        ensures
            match hit {
                Some(c) => above(row + self.x) < self.all_rows().len() && ({
                    let at = self.all_rows()[above(row + self.x) as int];
                    &&& c.fullpath@ == at.0.fullpath@
                    &&& c.is_file == at.0.is_file
                    &&& 1 + at.1 <= column < 1 + at.1 + text_cells(at.0.name@)
                }),
                None => above(row + self.x) >= self.all_rows().len() || ({
                    let at = self.all_rows()[above(row + self.x) as int];
                    !(1 + at.1 <= column < 1 + at.1 + text_cells(at.0.name@))
                }),
            },
    {
        let (node, depth) = match self.find(row) {
            Some(found) => found,
            None => {
                return None;
            },
        };
        let width = text_width(node.name.as_str());
        let column = column as usize;
        if depth < column && column - depth - 1 < width {
            Some(Clicked { fullpath: node.fullpath.clone(), is_file: node.is_file })
        } else {
            None
        }
    }
}

impl TreeView {
    /// The text of the filter as the panel shows it on its last row, and
    /// the column of the cursor in it; nothing without a filter, or where
    /// the panel is too narrow for the text.
    pub fn search_row(&self) -> (shown: Option<(String, usize)>)
        ensures
            match shown {
                Some((text, column)) => {
                    let line = " search: "@ + self.search.pattern_chars();
                    &&& self.search.active
                    &&& encode_utf8(line).len() < self.width
                    &&& text@ == line + spaces((self.width - 1 - encode_utf8(line).len()) as nat)
                    &&& column == above(" search: "@.len() + self.search.index)
                },
                None => !self.search.active || self.width == 0 || encode_utf8(
                    " search: "@ + self.search.pattern_chars(),
                ).len() >= self.width,
            },
    {
        if !self.search.active || self.width == 0 {
            return None;
        }
        let len = rope_len_chars(&self.search.pattern);
        let pattern = rope_substring(&self.search.pattern, 0, len);
        assert(pattern@ =~= self.search.pattern_chars());
        let line = crate::chars::joined(" search: ", pattern.as_str());
        let bytes = line.as_str().as_bytes().len();
        if bytes >= self.width {
            return None;
        }
        let mut out = str_chars(line.as_str());
        let mut rest = blanks(self.width - 1 - bytes);
        out.append(&mut rest);
        let prefix = str_chars(" search: ").len();
        Some((chars_to_string(&out), prefix.saturating_add(self.search.index)))
    }

    /// Puts `tree`, which shows all that lies below the panel's directory,
    /// in place of the tree, filtered by `pattern`, and chooses the first
    /// file that is left.
    pub fn filter_files_by_pattern(&mut self, tree: TreeNode, pattern: &str)
        ensures
            crate::tree::is_filtered(tree, final(self).root, pattern@),
            final(self).selected == above(first_file_from(final(self).all_rows(), 0)),
            *final(self) == (TreeView {
                root: final(self).root,
                selected: final(self).selected,
                ..*old(self)
            }),
    {
        let mut root = tree;
        let _ = root.filter_files_mutate(pattern);
        self.selected = first_file(&root);
        self.root = root;
    }

    /// Puts `tree` in place of the tree, showing the entries of the panel's
    /// directory and nothing below them.
    pub fn expand_root(&mut self, tree: TreeNode)
        ensures
            final(self).root.name == tree.name,
            final(self).root.fullpath == tree.fullpath,
            final(self).root.is_file == tree.is_file,
            match tree.children {
                Some(entries) => final(self).root.children is Some && folded(
                    entries@,
                    final(self).root.children->0@,
                ),
                None => final(self).root.children is None,
            },
            *final(self) == (TreeView { root: final(self).root, ..*old(self) }),
    {
        let mut root = tree;
        fold_entries(&mut root);
        self.root = root;
    }

    /// Types a character into the filter at its cursor and filters `tree`,
    /// which shows all that lies below the panel's directory, anew.
    /// Nothing is typed where the cursor lies behind the filter.
    pub fn insert_filter_char(&mut self, c: char, tree: TreeNode)
        ensures
            old(self).search.index > old(self).search.pattern_chars().len() ==> *final(self)
                == *old(self),
            old(self).search.index <= old(self).search.pattern_chars().len() ==> {
                &&& final(self).search.active
                &&& final(self).search.pattern_chars() == insert_at(
                    old(self).search.pattern_chars(),
                    old(self).search.index as int,
                    seq![c],
                )
                &&& final(self).search.index == old(self).search.index + 1
                &&& crate::tree::is_filtered(
                    tree,
                    final(self).root,
                    final(self).search.pattern_chars(),
                )
                &&& final(self).selected == above(first_file_from(final(self).all_rows(), 0))
                &&& *final(self) == (TreeView {
                    root: final(self).root,
                    selected: final(self).selected,
                    search: final(self).search,
                    upd: true,
                    ..*old(self)
                })
            },
    {
        let len = rope_len_chars(&self.search.pattern);
        if self.search.index > len {
            return ;
        }
        self.search.active = true;
        rope_insert_char(&mut self.search.pattern, self.search.index, c);
        let new_len = rope_len_chars(&self.search.pattern);
        self.search.index += 1;
        let pattern = rope_substring(&self.search.pattern, 0, new_len);
        assert(pattern@ =~= self.search.pattern_chars());
        self.filter_files_by_pattern(tree, pattern.as_str());
        self.upd = true;
    }

    /// Removes the character before the cursor from the filter and filters
    /// `tree`, which shows all that lies below the panel's directory, anew;
    /// without a filter the panel shows the entries of its directory.
    /// Nothing is removed at the start of the filter.
    pub fn remove_filter_char(&mut self, tree: TreeNode)
        ensures
            old(self).search.index == 0 || old(self).search.index > old(
                self,
            ).search.pattern_chars().len() ==> *final(self) == *old(self),
            0 < old(self).search.index <= old(self).search.pattern_chars().len() ==> {
                &&& final(self).search.active
                &&& final(self).search.pattern_chars() == remove_range(
                    old(self).search.pattern_chars(),
                    old(self).search.index - 1,
                    old(self).search.index as int,
                )
                &&& final(self).search.index == old(self).search.index - 1
                &&& if final(self).search.pattern_chars().len() == 0 {
                    final(self).selected == old(self).selected && final(self).root.children
                        is Some == tree.children is Some && (tree.children matches Some(entries)
                        ==> folded(entries@, final(self).root.children->0@))
                } else {
                    crate::tree::is_filtered(
                        tree,
                        final(self).root,
                        final(self).search.pattern_chars(),
                    ) && final(self).selected == above(
                        first_file_from(final(self).all_rows(), 0),
                    )
                }
                &&& *final(self) == (TreeView {
                    root: final(self).root,
                    selected: final(self).selected,
                    search: final(self).search,
                    upd: true,
                    ..*old(self)
                })
            },
    {
        let len = rope_len_chars(&self.search.pattern);
        if self.search.index == 0 || self.search.index > len {
            return ;
        }
        self.search.index -= 1;
        let x = self.search.index;
        self.search.active = true;
        rope_remove(&mut self.search.pattern, x, x + 1);
        let new_len = rope_len_chars(&self.search.pattern);
        if new_len == 0 {
            self.expand_root(tree);
        } else {
            let pattern = rope_substring(&self.search.pattern, 0, new_len);
            assert(pattern@ =~= self.search.pattern_chars());
            self.filter_files_by_pattern(tree, pattern.as_str());
        }
        self.upd = true;
    }

    /// Moves the cursor in the filter one character to the left.
    pub fn handle_left(&mut self)
        ensures
            old(self).search.index == 0 ==> *final(self) == *old(self),
            old(self).search.index > 0 ==> *final(self) == (TreeView {
                search: FileSearch {
                    index: (old(self).search.index - 1) as usize,
                    ..old(self).search
                },
                upd: true,
                ..*old(self)
            }),
    {
        if self.search.index > 0 {
            self.search.index -= 1;
            self.upd = true;
        }
    }

    /// Moves the cursor in the filter one character to the right.
    pub fn handle_right(&mut self)
        ensures
            old(self).search.index >= old(self).search.pattern_chars().len() ==> *final(self)
                == *old(self),
            old(self).search.index < old(self).search.pattern_chars().len() ==> *final(self) == (
            TreeView {
                search: FileSearch {
                    index: (old(self).search.index + 1) as usize,
                    ..old(self).search
                },
                upd: true,
                ..*old(self)
            }),
    {
        if self.search.index < rope_len_chars(&self.search.pattern) {
            self.search.index += 1;
            self.upd = true;
        }
    }

    /// Drops the filter: the panel shows the entries of its directory as
    /// `tree` has them.
    pub fn clear_search(&mut self, tree: TreeNode)
        ensures
            !final(self).search.active,
            final(self).search.pattern_chars().len() == 0,
            final(self).search.index == 0,
            final(self).root.children is Some == tree.children is Some,
            tree.children matches Some(entries) ==> folded(
                entries@,
                final(self).root.children->0@,
            ),
            *final(self) == (TreeView {
                root: final(self).root,
                search: final(self).search,
                upd: true,
                ..*old(self)
            }),
    {
        self.search = FileSearch::new();
        self.upd = true;
        self.expand_root(tree);
    }
}

/// The number of rows that a node takes with all that it shows, the largest
/// number where there are more.
pub open spec fn span(node: TreeNode) -> int {
    above(rows(node, 0).len() as int) as int
}

/// The rows that the first `n` of a list of nodes take.
pub open spec fn rows_before(nodes: Seq<TreeNode>, n: nat) -> int
    decreases n,
{
    if n == 0 || n > nodes.len() {
        0
    } else {
        rows_before(nodes, (n - 1) as nat) + span(nodes[n - 1])
    }
}

/// `after` is `before` with the node on its row `at`, counted from `before`
/// itself, toggled: a directory that shows its entries hides them, and one
/// that hides them shows `entries`.  Nothing changes where there is no such
/// row.
pub open spec fn toggles(before: TreeNode, at: int, entries: Seq<TreeNode>, after: TreeNode) -> bool
    decreases before,
{
    &&& after.name == before.name
    &&& after.fullpath == before.fullpath
    &&& after.is_file == before.is_file
    &&& match before.children {
        Some(b) => if at == 0 {
            after.children is None
        } else {
            after.children is Some && after.children->0@.len() == b@.len() && toggles_among(
                b@,
                at - 1,
                entries,
                after.children->0@,
                b@.len(),
            )
        },
        None => if at == 0 {
            after.children is Some && crate::tree::lists(after.children->0@, entries)
        } else {
            after.children is None
        },
    }
}

/// The first `n` of `after` are the first `n` of `before`, with the node
/// toggled that stands on row `at` of the rows that the nodes of `before`
/// take.
pub open spec fn toggles_among(
    before: Seq<TreeNode>,
    at: int,
    entries: Seq<TreeNode>,
    after: Seq<TreeNode>,
    n: nat,
) -> bool
    decreases before, n,
{
    if n == 0 {
        true
    } else if n > before.len() || n > after.len() {
        false
    } else {
        let start = rows_before(before, (n - 1) as nat);
        &&& toggles_among(before, at, entries, after, (n - 1) as nat)
        &&& if start <= at < start + span(before[n - 1]) {
            toggles(before[n - 1], at - start, entries, after[n - 1])
        } else {
            after[n - 1] == before[n - 1]
        }
    }
}

/// What the first nodes of a list are toggled to does not depend on what
/// follows them.
pub proof fn lemma_toggles_push(
    before: Seq<TreeNode>,
    at: int,
    entries: Seq<TreeNode>,
    after: Seq<TreeNode>,
    n: nat,
    x: TreeNode,
)
    requires
        n <= after.len(),
        toggles_among(before, at, entries, after, n),
    ensures
        toggles_among(before, at, entries, after.push(x), n),
    decreases n,
{
    if n > 0 {
        lemma_toggles_push(before, at, entries, after, (n - 1) as nat, x);
        assert(after.push(x)[n - 1] == after[n - 1]);
    }
}

/// Toggles the node on row `at` of a tree, counted from its root: a
/// directory that shows its entries hides them, and one that hides them
/// shows `entries`, which are what it holds.
pub fn toggle_row(node: &mut TreeNode, at: usize, entries: Vec<TreeNode>)
    ensures
        toggles(*old(node), at as int, entries@, *final(node)),
    decreases *old(node),
{
    if at == 0 {
        node.toggle(entries);
        return ;
    }
    let kids = node.children.take();
    if let Some(children) = kids {
        let ghost all = children@;
        let ghost given = entries@;
        let mut kept: Vec<TreeNode> = Vec::new();
        let mut rest: usize = at - 1;
        let mut hand: Option<Vec<TreeNode>> = Some(entries);
        for child in it: children
            invariant
                it.seq() == all,
                all == children@,
                old(node).children == Some(children),
                kept@.len() == it.index(),
                toggles_among(all, at - 1, given, kept@, it.index() as nat),
                match hand {
                    Some(e) => e@ == given && rest == at - 1 - rows_before(all, it.index() as nat),
                    None => at - 1 < rows_before(all, it.index() as nat),
                },
        {
            let ghost before = child;
            let ghost done = kept@;
            let ghost i = it.index() as nat;
            let mut child = child;
            proof {
                assert(before == children@[i as int]);
                assert(decreases_to!(children@ => children@[i as int]));
                assert(decreases_to!(children => children@));
                assert(decreases_to!(*old(node) => old(node).children));
                assert(decreases_to!(old(node).children => old(node).children->0));
                assert(old(node).children->0 == children);
                assert(rows_before(all, i + 1) == rows_before(all, i) + span(all[i as int]));
            }
            let count = row_count(&child);
            match hand {
                Some(e) => {
                    if rest < count {
                        toggle_row(&mut child, rest, e);
                        hand = None;
                    } else {
                        rest -= count;
                        hand = Some(e);
                    }
                },
                None => {},
            }
            proof {
                lemma_toggles_push(all, at - 1, given, done, i, child);
                assert(done.push(child)[i as int] == child);
            }
            kept.push(child);
        }
        node.children = Some(kept);
    }
}

impl TreeView {
    /// Toggles the node on row `index` of the tree, counted from its root;
    /// `entries` are what it holds.
    pub fn find_and_toggle(&mut self, index: usize, entries: Vec<TreeNode>)
        ensures
            toggles(old(self).root, index as int, entries@, final(self).root),
            *final(self) == (TreeView { root: final(self).root, ..*old(self) }),
    {
        toggle_row(&mut self.root, index, entries);
    }

    /// Makes the node on row `index` of the tree, counted from its root,
    /// show `entries`, which are what it holds, where it hides its entries.
    /// Nothing changes where it shows them, or where there is no such row.
    pub fn find_and_expand(&mut self, index: usize, entries: Vec<TreeNode>)
        ensures
            index < old(self).all_rows().len() && old(self).all_rows()[index as int].0.children
                is None ==> toggles(old(self).root, index as int, entries@, final(self).root),
            !(index < old(self).all_rows().len() && old(self).all_rows()[index as int].0.children
                is None) ==> final(self).root == old(self).root,
            *final(self) == (TreeView { root: final(self).root, ..*old(self) }),
    {
        let hidden = match row_at(&self.root, index) {
            Some((node, _)) => node.children.is_none(),
            None => false,
        };
        if hidden {
            toggle_row(&mut self.root, index, entries);
        }
    }

    /// Toggles the directory that is chosen; `entries` are what it holds.
    pub fn toggle_selected(&mut self, entries: Vec<TreeNode>)
        ensures
            toggles(old(self).root, old(self).selected as int, entries@, final(self).root),
            *final(self) == (TreeView { root: final(self).root, upd: true, ..*old(self) }),
    {
        toggle_row(&mut self.root, self.selected, entries);
        self.upd = true;
    }

    /// Toggles the directory on row `row` of the screen; `entries` are what
    /// it holds.
    pub fn toggle_on_row(&mut self, row: usize, entries: Vec<TreeNode>)
        ensures
            toggles(
                old(self).root,
                above(row + old(self).x) as int,
                entries@,
                final(self).root,
            ),
            *final(self) == (TreeView { root: final(self).root, upd: true, ..*old(self) }),
    {
        let at = row.saturating_add(self.x);
        toggle_row(&mut self.root, at, entries);
        self.upd = true;
    }
}

/// The bytes of `path` start with the bytes of `start`.
pub open spec fn begins(path: Seq<char>, start: Seq<char>) -> bool {
    encode_utf8(start).len() <= encode_utf8(path).len() && encode_utf8(path).subrange(
        0,
        encode_utf8(start).len() as int,
    ) == encode_utf8(start)
}

/// The index of the first of the rows from `i` on that shows a directory
/// which hides its entries and whose path the path `path` starts with.
pub open spec fn closed_on_path(all: Seq<(TreeNode, usize)>, path: Seq<char>, i: int) -> Option<int>
    decreases all.len() - i,
{
    if i < 0 || i >= all.len() {
        None
    } else if !all[i].0.is_file && all[i].0.children is None && begins(path, all[i].0.fullpath@) {
        Some(i)
    } else {
        closed_on_path(all, path, i + 1)
    }
}

/// A row that is found from row `i` on is not one before it.
pub proof fn lemma_closed_on_path(all: Seq<(TreeNode, usize)>, path: Seq<char>, i: int)
    ensures
        closed_on_path(all, path, i) matches Some(k) ==> i <= k < all.len(),
    decreases all.len() - i,
{
    if 0 <= i < all.len() {
        lemma_closed_on_path(all, path, i + 1);
    }
}

impl TreeView {
    /// The first row that has to show its entries for the file at `path` to
    /// be shown, and the path of its directory; nothing where all
    /// directories on the way show their entries.
    pub fn next_on_path(&self, path: &str) -> (next: Option<(usize, String)>)
        ensures
            match next {
                Some((at, dir)) => closed_on_path(self.all_rows(), path@, 0) == Some(at as int)
                    && at < self.all_rows().len() && dir@ == self.all_rows()[at as int].0.fullpath@,
                None => closed_on_path(self.all_rows(), path@, 0) is None || closed_on_path(
                    self.all_rows(),
                    path@,
                    0,
                )->0 > usize::MAX,
            },
    {
        let mut it = TreeNodeIterator::new(&self.root);
        let mut i: usize = 0;
        let ghost all = self.all_rows();
        loop
            invariant
                all == self.all_rows(),
                i <= all.len(),
                it.remaining() == all.skip(i as int),
                closed_on_path(all, path@, i as int) == closed_on_path(all, path@, 0),
            decreases it.remaining().len(),
        {
            match it.next() {
                Some((node, _)) => {
                    proof {
                        assert(all.skip(i as int)[0] == all[i as int]);
                        assert(all.skip(i as int).drop_first() =~= all.skip(i + 1));
                    }
                    if !node.is_file && node.children.is_none() && crate::popup::starts_with(
                        path,
                        node.fullpath.as_str(),
                    ) {
                        return Some((i, node.fullpath.clone()));
                    }
                    if i == usize::MAX {
                        proof {
                            lemma_closed_on_path(all, path@, i + 1);
                        }
                        return None;
                    }
                    i += 1;
                },
                None => {
                    return None;
                },
            }
        }
    }
}

/// What the panel needs before it can carry out a command.
#[derive(Debug)]
pub enum PanelAsk {
    /// Nothing: the command is carried out.
    Nothing,
    /// All that lies below the panel's directory, to be filtered.
    Tree,
    /// The file at this path is to be put in view.
    OpenFile(String),
    /// What the directory at this path holds, to be shown below the row
    /// that is chosen.
    Entries(String),
}

/// A text needed by the panel, as plain values.
pub open spec fn ask_view(ask: PanelAsk) -> (int, Seq<char>) {
    match ask {
        PanelAsk::Nothing => (0, Seq::empty()),
        PanelAsk::Tree => (1, Seq::empty()),
        PanelAsk::OpenFile(path) => (2, path@),
        PanelAsk::Entries(path) => (3, path@),
    }
}

impl TreeView {
    /// What the panel needs before it can carry out a command of its keys.
    /// The cursor keys need nothing.  The filter needs the tree where it
    /// changes.  Enter on a file asks for the file, on a directory that
    /// hides its entries for what it holds; on one that shows them it needs
    /// nothing.
    pub open spec fn asks(self, command: PanelCommand) -> (int, Seq<char>) {
        let chosen = self.all_rows()[self.selected as int].0;
        match command {
            PanelCommand::ClearSearch | PanelCommand::InsertFilterChar(_) => (1, Seq::empty()),
            PanelCommand::RemoveFilterChar => if self.search.index > 0 {
                (1, Seq::empty())
            } else {
                (0, Seq::empty())
            },
            PanelCommand::Open => if self.selected >= self.all_rows().len() {
                (0, Seq::empty())
            } else if chosen.is_file {
                (2, chosen.fullpath@)
            } else if chosen.children is None {
                (3, chosen.fullpath@)
            } else {
                (0, Seq::empty())
            },
            _ => (0, Seq::empty()),
        }
    }

    /// The panel after a command of its keys, as far as the command can be
    /// carried out without anything else: the cursor keys choose the row
    /// before or the next one and move the cursor in the filter.
    pub open spec fn moved(self, command: PanelCommand) -> TreeView {
        match command {
            PanelCommand::Up => if self.selected == 0 {
                self
            } else {
                TreeView { selected: (self.selected - 1) as usize, upd: true, ..self }
            },
            PanelCommand::Down => if self.selected >= self.below_root() {
                self
            } else {
                TreeView { selected: (self.selected + 1) as usize, upd: true, ..self }
            },
            PanelCommand::Left => if self.search.index == 0 {
                self
            } else {
                TreeView {
                    search: FileSearch { index: (self.search.index - 1) as usize, ..self.search },
                    upd: true,
                    ..self
                }
            },
            PanelCommand::Right => if self.search.index >= self.search.pattern_chars().len() {
                self
            } else {
                TreeView {
                    search: FileSearch { index: (self.search.index + 1) as usize, ..self.search },
                    upd: true,
                    ..self
                }
            },
            _ => self,
        }
    }

    /// Takes a command of the panel's keys: carries it out as far as that
    /// needs nothing else, and says what is needed for the rest.  Enter on
    /// a directory that shows its entries hides them.
    pub fn handle_key(&mut self, command: PanelCommand) -> (ask: PanelAsk)
        ensures
            ask_view(ask) == old(self).asks(command),
            command is Open && ask is Nothing && old(self).selected < old(self).all_rows().len()
                ==> toggles(
                old(self).root,
                old(self).selected as int,
                Seq::empty(),
                final(self).root,
            ) && *final(self) == (TreeView { root: final(self).root, upd: true, ..*old(self) }),
            !(command is Open && ask is Nothing && old(self).selected < old(
                self,
            ).all_rows().len()) ==> *final(self) == old(self).moved(command),
    {
        match command {
            PanelCommand::Up => {
                self.handle_up();
                PanelAsk::Nothing
            },
            PanelCommand::Down => {
                self.handle_down();
                PanelAsk::Nothing
            },
            PanelCommand::Left => {
                self.handle_left();
                PanelAsk::Nothing
            },
            PanelCommand::Right => {
                self.handle_right();
                PanelAsk::Nothing
            },
            PanelCommand::ClearSearch | PanelCommand::InsertFilterChar(_) => PanelAsk::Tree,
            PanelCommand::RemoveFilterChar => {
                if self.search.index > 0 {
                    PanelAsk::Tree
                } else {
                    PanelAsk::Nothing
                }
            },
            PanelCommand::Open => {
                let (is_file, hidden, path) = match self.get_selected() {
                    Some(node) => (node.is_file, node.children.is_none(), node.fullpath.clone()),
                    None => {
                        return PanelAsk::Nothing;
                    },
                };
                if is_file {
                    PanelAsk::OpenFile(path)
                } else if hidden {
                    PanelAsk::Entries(path)
                } else {
                    self.toggle_selected(Vec::new());
                    PanelAsk::Nothing
                }
            },
            _ => PanelAsk::Nothing,
        }
    }
}

} // verus!
