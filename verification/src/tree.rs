//! The tree of files and directories that the left panel shows.

use crate::chars::{lemma_lex_asym, lemma_lex_order, lex_less, str_chars, text_less};
use crate::code::matches_at;
use crate::order::{sorted_from, stable_sort, Ranked};
use crate::utils::{ignored_dir, ignored_file, is_ignored_dir, is_ignored_file};
use vstd::prelude::*;
use vstd::utf8::encode_utf8;

verus! {

/// A file or a directory.  A directory that is expanded holds its entries.
#[derive(Debug)]
pub struct TreeNode {
    pub name: String,
    pub fullpath: String,
    pub is_file: bool,
    pub children: Option<Vec<TreeNode>>,
}

impl TreeNode {
    /// The number of nodes below this one that are shown: the entries of
    /// each expanded directory.
    pub open spec fn size(self) -> nat
        decreases self,
    {
        match self.children {
            Some(children) => children@.len() + Self::size_of(children@, children@.len()),
            None => 0,
        }
    }

    /// The nodes shown below the first `n` of `nodes`.
    pub open spec fn size_of(nodes: Seq<TreeNode>, n: nat) -> nat
        decreases nodes, n,
    {
        if n == 0 || n > nodes.len() {
            0
        } else {
            Self::size_of(nodes, (n - 1) as nat) + nodes[n - 1].size()
        }
    }

    pub fn new(name: String, fullpath: String, is_file: bool) -> (node: Self)
        ensures
            node.name == name,
            node.fullpath == fullpath,
            node.is_file == is_file,
            node.children is None,
    {
        Self { name, fullpath, is_file, children: None }
    }

    /// Whether the node is a file.
    pub fn is_file(&mut self) -> (r: bool)
        ensures
            r == old(self).is_file,
            *final(self) == *old(self),
    {
        self.is_file
    }

    /// The path of the node.
    pub fn fullpath(&mut self) -> (path: String)
        ensures
            path@ == old(self).fullpath@,
            *final(self) == *old(self),
    {
        self.fullpath.clone()
    }

    /// Hides the entries of the node.
    pub fn collapse(&mut self)
        ensures
            final(self).children is None,
            final(self).name == old(self).name,
            final(self).fullpath == old(self).fullpath,
            final(self).is_file == old(self).is_file,
    {
        self.children = None;
    }

    /// The number of nodes shown below this one.
    pub fn len(&self) -> (count: usize)
        requires
            self.size() <= usize::MAX,
        ensures
            count == self.size(),
        decreases self,
    {
        match &self.children {
            Some(children) => {
                let mut count = children.len();
                let mut i: usize = 0;
                while i < children.len()
                    invariant
                        i <= children@.len(),
                        self.children == Some(*children),
                        self.size() <= usize::MAX,
                        count == children@.len() + Self::size_of(children@, i as nat),
                    decreases children@.len() - i,
                {
                    proof {
                        Self::lemma_size_of_monotone(children@, (i + 1) as nat, children@.len());
                    }
                    count += children[i].len();
                    i += 1;
                }
                count
            },
            None => 0,
        }
    }

    /// The nodes shown below a part of a list are no more than those below
    /// the whole list.
    pub proof fn lemma_size_of_monotone(nodes: Seq<TreeNode>, a: nat, b: nat)
        requires
            a <= b <= nodes.len(),
        ensures
            Self::size_of(nodes, a) <= Self::size_of(nodes, b),
        decreases b - a,
    {
        if a < b {
            Self::lemma_size_of_monotone(nodes, a, (b - 1) as nat);
        }
    }
}

impl Ranked for TreeNode {
    /// Nodes are put in the order of their names.
    open spec fn precedes(&self, other: &Self) -> bool {
        lex_less(encode_utf8(self.name@), encode_utf8(other.name@))
    }

    fn goes_before(&self, other: &Self) -> (r: bool) {
        text_less(self.name.as_str(), other.name.as_str())
    }

    proof fn lemma_asym(a: &Self, b: &Self) {
        lemma_lex_asym(encode_utf8(a.name@), encode_utf8(b.name@));
    }

    proof fn lemma_order(a: &Self, b: &Self, c: &Self) {
        lemma_lex_order(encode_utf8(a.name@), encode_utf8(b.name@), encode_utf8(c.name@));
    }
}

/// An entry of a directory is shown: its name is not one that is left out.
pub open spec fn shown(node: TreeNode) -> bool {
    if node.is_file {
        !ignored_file(node.name@)
    } else {
        !ignored_dir(node.name@)
    }
}

/// The entries that are shown and are files, or are directories, in the
/// order in which they stand.
pub open spec fn shown_of_kind(entries: Seq<TreeNode>, files: bool) -> Seq<TreeNode> {
    entries.filter(|n: TreeNode| shown(n) && n.is_file == files)
}

/// `children` is what a directory that holds `entries` shows: the entries
/// whose names are not left out, directories first, each kind in the order
/// of the names, entries of one name as they stood.
pub open spec fn lists(children: Seq<TreeNode>, entries: Seq<TreeNode>) -> bool {
    exists|dirs: Seq<TreeNode>, files: Seq<TreeNode>|
        #![trigger dirs + files]
        children == dirs + files && sorted_from(shown_of_kind(entries, false), dirs)
            && sorted_from(shown_of_kind(entries, true), files)
}

/// The name holds the pattern.
pub open spec fn holds(name: Seq<char>, pattern: Seq<char>) -> bool {
    exists|at: int|
        0 <= at && at + pattern.len() <= name.len() && #[trigger] name.subrange(
            at,
            at + pattern.len(),
        ) == pattern
}

/// Whether `name` holds `pattern` somewhere.
pub fn name_holds(name: &str, pattern: &str) -> (r: bool)
    ensures
        r == holds(name@, pattern@),
{
    let text = str_chars(name);
    let pat = str_chars(pattern);
    if pat.len() > text.len() {
        return false;
    }
    let last = text.len() - pat.len();
    let mut at: usize = 0;
    loop
        invariant
            pat@.len() <= text@.len(),
            last == text@.len() - pat@.len(),
            at <= last,
            text@ == name@,
            pat@ == pattern@,
            forall|k: int| 0 <= k < at ==> #[trigger] text@.subrange(k, k + pat@.len()) != pat@,
        decreases last - at,
    {
        if matches_at(&text, &pat, at) {
            return true;
        }
        if at == last {
            return false;
        }
        at += 1;
    }
}

impl TreeNode {
    /// Whether the node is a directory that shows its entries.
    pub fn is_expanded(&self) -> (r: bool)
        ensures
            r == self.children.is_some(),
    {
        self.children.is_some()
    }

    /// Makes the node show `entries`, which are what its directory holds:
    /// those whose names are not left out, directories first, each kind in
    /// the order of the names.
    pub fn expand_with(&mut self, entries: Vec<TreeNode>)
        ensures
            final(self).name == old(self).name,
            final(self).fullpath == old(self).fullpath,
            final(self).is_file == old(self).is_file,
            final(self).children is Some,
            lists(final(self).children->0@, entries@),
    {
        let ghost all = entries@;
        let mut rest = entries;
        // Entries are taken from the end, so the lists are built back to
        // front and turned round below.
        let mut back_dirs: Vec<TreeNode> = Vec::new();
        let mut back_files: Vec<TreeNode> = Vec::new();
        while rest.len() > 0
            invariant
                rest@ == all.take(rest@.len() as int),
                rest@.len() <= all.len(),
                back_dirs@.reverse() == shown_of_kind(
                    all.subrange(rest@.len() as int, all.len() as int),
                    false,
                ),
                back_files@.reverse() == shown_of_kind(
                    all.subrange(rest@.len() as int, all.len() as int),
                    true,
                ),
            decreases rest@.len(),
        {
            let ghost n = rest@.len() as int;
            let entry = rest.pop().unwrap();
            proof {
                assert(rest@ =~= all.take(n - 1));
                let tail = all.subrange(n, all.len() as int);
                let longer = all.subrange(n - 1, all.len() as int);
                assert(longer =~= seq![entry] + tail);
                lemma_filter_cons(entry, tail, false);
                lemma_filter_cons(entry, tail, true);
            }
            let keep = if entry.is_file {
                !is_ignored_file(entry.name.as_str())
            } else {
                !is_ignored_dir(entry.name.as_str())
            };
            if keep {
                if entry.is_file {
                    proof {
                        lemma_reverse_push(back_files@, entry);
                    }
                    back_files.push(entry);
                } else {
                    proof {
                        lemma_reverse_push(back_dirs@, entry);
                    }
                    back_dirs.push(entry);
                }
            }
        }
        assert(all.subrange(0, all.len() as int) =~= all);
        let directories = stable_sort(turned(back_dirs));
        let files = stable_sort(turned(back_files));
        let ghost d = directories@;
        let ghost f = files@;
        let mut children = directories;
        let mut files = files;
        children.append(&mut files);
        assert(children@ == d + f);
        self.children = Some(children);
    }

    /// Shows or hides the entries of a directory.  A node that shows none is
    /// made to show `entries`, which are what its directory holds; one that
    /// shows some hides them, and `entries` is not looked at.
    pub fn toggle(&mut self, entries: Vec<TreeNode>)
        ensures
            final(self).name == old(self).name,
            final(self).fullpath == old(self).fullpath,
            final(self).is_file == old(self).is_file,
            old(self).children is Some ==> final(self).children is None,
            old(self).children is None ==> final(self).children is Some && lists(
                final(self).children->0@,
                entries@,
            ),
    {
        if self.children.is_none() {
            self.expand_with(entries);
        } else {
            self.collapse();
        }
    }
}

/// The list turned round.
pub fn turned(items: Vec<TreeNode>) -> (r: Vec<TreeNode>)
    ensures
        r@ == items@.reverse(),
{
    let ghost all = items@;
    let mut rest = items;
    let mut r: Vec<TreeNode> = Vec::new();
    while rest.len() > 0
        invariant
            rest@ == all.take(rest@.len() as int),
            rest@.len() <= all.len(),
            r@.len() + rest@.len() == all.len(),
            forall|k: int| 0 <= k < r@.len() ==> r@[k] == all[all.len() - 1 - k],
        decreases rest@.len(),
    {
        let ghost n = rest@.len() as int;
        let item = rest.pop().unwrap();
        assert(rest@ =~= all.take(n - 1));
        r.push(item);
    }
    assert(r@ =~= all.reverse());
    r
}

/// Turning round a list with one more item at its end.
pub proof fn lemma_reverse_push(s: Seq<TreeNode>, x: TreeNode)
    ensures
        s.push(x).reverse() == seq![x] + s.reverse(),
{
    assert(s.push(x).reverse() =~= seq![x] + s.reverse());
}

/// What is shown of a list with one more entry at its front.
pub proof fn lemma_filter_cons(x: TreeNode, tail: Seq<TreeNode>, files: bool)
    ensures
        shown_of_kind(seq![x] + tail, files) == if shown(x) && x.is_file == files {
            seq![x] + shown_of_kind(tail, files)
        } else {
            shown_of_kind(tail, files)
        },
{
    let pred = |n: TreeNode| shown(n) && n.is_file == files;
    Seq::filter_distributes_over_add(seq![x], tail, pred);
    reveal(Seq::filter);
    assert(seq![x].drop_last() =~= Seq::<TreeNode>::empty());
    assert(Seq::<TreeNode>::empty().filter(pred) =~= Seq::<TreeNode>::empty());
    assert(seq![x].filter(pred) =~= if pred(x) {
        seq![x]
    } else {
        Seq::empty()
    });
    if !pred(x) {
        assert(Seq::<TreeNode>::empty() + tail.filter(pred) =~= tail.filter(pred));
    }
}

/// Below `node` a file is shown whose name holds `pattern`.
pub open spec fn has_match(node: TreeNode, pattern: Seq<char>) -> bool
    decreases node,
{
    match node.children {
        Some(children) => any_match(children@, pattern, children@.len()),
        None => false,
    }
}

/// Among the first `n` of `nodes` there is a file whose name holds
/// `pattern`, or a directory below which there is one.
pub open spec fn any_match(nodes: Seq<TreeNode>, pattern: Seq<char>, n: nat) -> bool
    decreases nodes, n,
{
    if n == 0 || n > nodes.len() {
        false
    } else {
        any_match(nodes, pattern, (n - 1) as nat) || stays(nodes[n - 1], pattern)
    }
}

/// A node stays when the tree is filtered: a file whose name holds the
/// pattern, or a directory below which such a file is shown.
pub open spec fn stays(node: TreeNode, pattern: Seq<char>) -> bool
    decreases node,
{
    if node.is_file {
        holds(node.name@, pattern)
    } else {
        match node.children {
            Some(children) => any_match(children@, pattern, children@.len()),
            None => false,
        }
    }
}

/// `after` is `before` with only those nodes below it that stay.
pub open spec fn is_filtered(before: TreeNode, after: TreeNode, pattern: Seq<char>) -> bool
    decreases before,
{
    &&& after.name == before.name
    &&& after.fullpath == before.fullpath
    &&& after.is_file == before.is_file
    &&& match before.children {
        Some(b) => after.children is Some && list_filtered(
            b@,
            after.children->0@,
            pattern,
            b@.len(),
            after.children->0@.len(),
        ),
        None => after.children is None,
    }
}

/// The first `m` of `after` are those of the first `n` of `before` that
/// stay, in their order: a file as it is, a directory filtered in turn.
pub open spec fn list_filtered(
    before: Seq<TreeNode>,
    after: Seq<TreeNode>,
    pattern: Seq<char>,
    n: nat,
    m: nat,
) -> bool
    decreases before, n,
{
    if n == 0 {
        m == 0
    } else if n > before.len() {
        false
    } else if stays(before[n - 1], pattern) {
        &&& 0 < m <= after.len()
        &&& if before[n - 1].is_file {
            after[m - 1] == before[n - 1]
        } else {
            is_filtered(before[n - 1], after[m - 1], pattern)
        }
        &&& list_filtered(before, after, pattern, (n - 1) as nat, (m - 1) as nat)
    } else {
        list_filtered(before, after, pattern, (n - 1) as nat, m)
    }
}

/// What was found to correspond still does when the filtered list grows.
pub proof fn lemma_list_filtered_push(
    before: Seq<TreeNode>,
    after: Seq<TreeNode>,
    pattern: Seq<char>,
    n: nat,
    m: nat,
    x: TreeNode,
)
    requires
        list_filtered(before, after, pattern, n, m),
        m <= after.len(),
    ensures
        list_filtered(before, after.push(x), pattern, n, m),
    decreases n,
{
    if n > 0 && n <= before.len() {
        if stays(before[n - 1], pattern) {
            lemma_list_filtered_push(before, after, pattern, (n - 1) as nat, (m - 1) as nat, x);
            assert(after.push(x)[m - 1] == after[m - 1]);
        } else {
            lemma_list_filtered_push(before, after, pattern, (n - 1) as nat, m, x);
        }
    }
}

impl TreeNode {
    /// Keeps of the nodes below this one the files whose names hold
    /// `pattern` and the directories below which such a file is shown.
    /// Returns whether any file is kept.  Directories that show no entries
    /// are dropped: the tree is to be expanded before it is filtered.
    pub fn filter_files_mutate(&mut self, pattern: &str) -> (found: bool)
        ensures
            is_filtered(*old(self), *final(self), pattern@),
            found == has_match(*old(self), pattern@),
        decreases *old(self),
    {
        let mut found = false;
        let kids = self.children.take();
        if let Some(children) = kids {
            let ghost all = children@;
            let mut filtered_children: Vec<TreeNode> = Vec::new();
            for child in it: children
                invariant
                    it.seq() == all,
                    all == children@,
                    old(self).children == Some(children),
                    found == any_match(all, pattern@, it.index() as nat),
                    list_filtered(
                        all,
                        filtered_children@,
                        pattern@,
                        it.index() as nat,
                        filtered_children@.len(),
                    ),
            {
                let ghost kept = filtered_children@;
                let mut child = child;
                let ghost before = child;
                proof {
                    assert(before == children@[it.index() as int]);
                    assert(decreases_to!(children@ => children@[it.index() as int]));
                    assert(decreases_to!(children => children@));
                    assert(decreases_to!(*old(self) => old(self).children));
                    assert(decreases_to!(old(self).children => old(self).children->0));
                    assert(old(self).children->0 == children);
                    assert(!before.is_file ==> stays(before, pattern@) == has_match(
                        before,
                        pattern@,
                    ));
                    assert(any_match(all, pattern@, (it.index() + 1) as nat) == (any_match(
                        all,
                        pattern@,
                        it.index() as nat,
                    ) || stays(before, pattern@)));
                }
                if child.is_file && name_holds(child.name.as_str(), pattern) {
                    found = true;
                    proof {
                        lemma_list_filtered_push(
                            all,
                            kept,
                            pattern@,
                            it.index() as nat,
                            kept.len(),
                            child,
                        );
                    }
                    filtered_children.push(child);
                } else if !child.is_file {
                    let is_any_found = child.filter_files_mutate(pattern);
                    if is_any_found {
                        proof {
                            lemma_list_filtered_push(
                                all,
                                kept,
                                pattern@,
                                it.index() as nat,
                                kept.len(),
                                child,
                            );
                        }
                        filtered_children.push(child);
                        found = true;
                    }
                }
            }
            self.children = Some(filtered_children);
        }
        found
    }
}

/// The depth of the entries of a node at depth `depth`.
pub open spec fn deeper(depth: usize) -> usize {
    if depth < usize::MAX {
        (depth + 1) as usize
    } else {
        depth
    }
}

/// A node and all that is shown below it, each with its depth, in the order
/// of the panel's rows: a directory before its entries.
pub open spec fn rows(node: TreeNode, depth: usize) -> Seq<(TreeNode, usize)>
    decreases node, 0nat,
{
    seq![(node, depth)] + match node.children {
        Some(children) => rows_of(children@, deeper(depth), 0),
        None => Seq::empty(),
    }
}

/// The rows of the nodes from `from` on.
pub open spec fn rows_of(nodes: Seq<TreeNode>, depth: usize, from: nat) -> Seq<(TreeNode, usize)>
    decreases nodes, nodes.len() - from,
{
    if from >= nodes.len() {
        Seq::empty()
    } else {
        rows(nodes[from as int], depth) + rows_of(nodes, depth, from + 1)
    }
}

/// The rows of the first `n` nodes of a stack, the top first.
pub open spec fn rows_left(stack: Seq<(&TreeNode, usize)>, n: nat) -> Seq<(TreeNode, usize)>
    decreases n,
{
    if n == 0 || n > stack.len() {
        Seq::empty()
    } else {
        rows(*stack[n - 1].0, stack[n - 1].1) + rows_left(stack, (n - 1) as nat)
    }
}

/// What lies below a part of a stack does not change when the stack grows.
pub proof fn lemma_rows_left_push(stack: Seq<(&TreeNode, usize)>, n: nat, x: (&TreeNode, usize))
    requires
        n <= stack.len(),
    ensures
        rows_left(stack.push(x), n) == rows_left(stack, n),
    decreases n,
{
    if n > 0 {
        lemma_rows_left_push(stack, (n - 1) as nat, x);
        assert(stack.push(x)[n - 1] == stack[n - 1]);
    }
}

/// Walks the rows of the tree, from the top.
pub struct TreeNodeIterator<'a> {
    pub stack: Vec<(&'a TreeNode, usize)>,
}

impl<'a> TreeNodeIterator<'a> {
    /// The rows that are still to come.
    pub open spec fn remaining(&self) -> Seq<(TreeNode, usize)> {
        rows_left(self.stack@, self.stack@.len())
    }

    pub fn new(root: &'a TreeNode) -> (it: Self)
        ensures
            it.remaining() == rows(*root, 0),
    {
        let mut stack = Vec::new();
        stack.push((root, 0usize));
        proof {
            assert(rows_left(stack@, 0) =~= Seq::empty());
            assert(rows(*root, 0) + Seq::<(TreeNode, usize)>::empty() =~= rows(*root, 0));
        }
        Self { stack }
    }

    /// The next row: a node and its depth.
    pub fn next(&mut self) -> (row: Option<(&'a TreeNode, usize)>)
        ensures
            match row {
                Some((node, depth)) => old(self).remaining().len() > 0 && (*node, depth) == old(
                    self,
                ).remaining()[0] && final(self).remaining() == old(self).remaining().drop_first(),
                None => old(self).remaining().len() == 0 && final(self).remaining().len() == 0,
            },
    {
        let ghost before = self.stack@;
        let (node, depth) = match self.stack.pop() {
            Some(top) => top,
            None => {
                return None;
            },
        };
        let ghost base = self.stack@;
        proof {
            assert(base =~= before.drop_last());
            lemma_rows_left_push(base, base.len(), (node, depth));
            assert(base.push((node, depth)) =~= before);
        }
        if let Some(children) = &node.children {
            let new_depth = depth.saturating_add(1);
            let mut i: usize = children.len();
            assert(rows_of(children@, new_depth, i as nat) =~= Seq::empty());
            assert(Seq::<(TreeNode, usize)>::empty() + rows_left(base, base.len()) =~= rows_left(
                base,
                base.len(),
            ));
            while i > 0
                invariant
                    i <= children@.len(),
                    new_depth == deeper(depth),
                    rows_left(self.stack@, self.stack@.len()) == rows_of(
                        children@,
                        new_depth,
                        i as nat,
                    ) + rows_left(base, base.len()),
                decreases i,
            {
                i -= 1;
                let ghost stack = self.stack@;
                proof {
                    lemma_rows_left_push(stack, stack.len(), (&children[i as int], new_depth));
                    assert(rows_of(children@, new_depth, i as nat) =~= rows(
                        children@[i as int],
                        new_depth,
                    ) + rows_of(children@, new_depth, (i + 1) as nat));
                    assert(rows(children@[i as int], new_depth) + (rows_of(
                        children@,
                        new_depth,
                        (i + 1) as nat,
                    ) + rows_left(base, base.len())) =~= rows_of(children@, new_depth, i as nat)
                        + rows_left(base, base.len()));
                }
                self.stack.push((&children[i], new_depth));
            }
        }
        proof {
            let all = rows(*node, depth) + rows_left(base, base.len());
            assert(old(self).remaining() == all);
            if node.children is Some {
                assert(all.drop_first() =~= rows_of(
                    node.children->0@,
                    deeper(depth),
                    0,
                ) + rows_left(base, base.len()));
            } else {
                assert(all.drop_first() =~= rows_left(base, base.len()));
            }
        }
        Some((node, depth))
    }
}

} // verus!
