//! The directory table and the shell as mathematical values: the
//! invariant, and what each command does to them.

use vstd::prelude::*;
use crate::command::{
    Command, argument, changed_text, created_text, cur_dir_text, error_text, parse,
    removed_text,
};
use crate::folder::{Folder, MAX_CHILDREN};
use crate::name::{logical_name, padded_name};

verus! {

/// Number of slots of the directory table.
pub const MAX_FOLDERS: usize = 20;

/// Physical size of the line buffer, in bytes.
pub const LINE_CAPACITY: usize = 80;

/// Why a command was refused.
#[derive(Copy, Clone, Debug, PartialEq, Eq, Structural)]
pub enum ShellError {
    /// The line starts with no keyword.
    UnknownCommand,
    /// Nothing follows the keyword of a command that takes a name.
    MissingArgument,
    /// The name after the keyword is longer than a name can be.
    ArgumentTooLong,
    /// The current folder has a child of that name already.
    NameCollision,
    /// The current folder has no free child link.
    ChildCapacityExceeded,
    /// Every slot of the table is in use.
    GlobalCapacityExceeded,
    /// The current folder is the root.
    NoParent,
    /// The current folder has no child of that name.
    DirectoryNotFound,
}

/// The logical name of the root folder, "root" in ASCII.
pub open spec fn root_name() -> Seq<u8> {
    seq![0x72u8, 0x6f, 0x6f, 0x74]
}

/// The shell as a mathematical value: the directory table, the index of the
/// current folder and the pending line.
pub struct ShellView {
    pub dirs: Seq<Folder>,
    pub current: int,
    pub line: Seq<u8>,
}

/// Whether `path` leads from the root to its last slot, each slot in use
/// and the parent of the next, with no slot twice.
pub open spec fn is_path(dirs: Seq<Folder>, path: Seq<int>) -> bool {
    &&& path.len() >= 1
    &&& path[0] == 0
    &&& forall|t: int|
        0 <= t < path.len() ==> 0 <= #[trigger] path[t] < MAX_FOLDERS && dirs[path[t]].exist
    &&& forall|t: int| 0 < t < path.len() ==> dirs[#[trigger] path[t]].parent == path[t - 1]
    &&& forall|s: int, t: int| 0 <= s < t < path.len() ==> #[trigger] path[s] != #[trigger] path[t]
}

/// Whether a link held in the table is "none" or the index of a slot.
pub open spec fn link_in_range(l: i32) -> bool {
    l < MAX_FOLDERS
}

impl ShellView {
    /// The shape every reachable shell has: a full table whose slot 0 is the
    /// root, links that stay inside the table and never point back at the
    /// root as a child, a current folder inside the table, and a line that
    /// fits its buffer.
    pub open spec fn shape(self) -> bool {
        &&& self.dirs.len() == MAX_FOLDERS
        &&& self.line.len() <= LINE_CAPACITY
        &&& 0 <= self.current < MAX_FOLDERS
        &&& self.dirs[0].exist
        &&& self.dirs[0].parent == -1
        &&& logical_name(self.dirs[0].name@) == root_name()
        &&& forall|i: int|
            0 <= i < MAX_FOLDERS ==> #[trigger] link_in_range(self.dirs[i].parent)
        &&& forall|i: int, j: int|
            0 <= i < MAX_FOLDERS && 0 <= j < MAX_CHILDREN ==> link_in_range(
                #[trigger] self.dirs[i].children@[j],
            ) && self.dirs[i].children@[j] != 0
    }

    /// How the folders in use hang together: each link of a folder in use
    /// leads to a folder in use whose parent is that folder, no folder links
    /// the same slot twice or two children of the same logical name, and the
    /// current folder is in use and reached
    /// from the root by a chain of parents that never repeats a slot.
    pub open spec fn linked(self) -> bool {
        &&& self.cur().exist
        &&& exists|path: Seq<int>| is_path(self.dirs, path) && path.last() == self.current
        &&& forall|i: int, j: int|
            0 <= i < MAX_FOLDERS && 0 <= j < MAX_CHILDREN && self.dirs[i].exist
                && #[trigger] self.dirs[i].children@[j] >= 0 ==> {
                &&& self.dirs[self.dirs[i].children@[j] as int].exist
                &&& self.dirs[self.dirs[i].children@[j] as int].parent == i
            }
        &&& forall|i: int, j1: int, j2: int|
            #![trigger self.dirs[i].children@[j1], self.dirs[i].children@[j2]]
            0 <= i < MAX_FOLDERS && 0 <= j1 < MAX_CHILDREN && 0 <= j2 < MAX_CHILDREN && j1
                != j2 && self.dirs[i].exist && self.dirs[i].children@[j1] >= 0
                ==> self.dirs[i].children@[j1] != self.dirs[i].children@[j2]
        &&& forall|i: int, j1: int, j2: int|
            #![trigger self.dirs[i].children@[j1], self.dirs[i].children@[j2]]
            0 <= i < MAX_FOLDERS && 0 <= j1 < MAX_CHILDREN && 0 <= j2 < MAX_CHILDREN && j1
                != j2 && self.dirs[i].exist && self.dirs[i].children@[j1] >= 0
                && self.dirs[i].children@[j2] >= 0 ==> logical_name(
                self.dirs[self.dirs[i].children@[j1] as int].name@,
            ) != logical_name(self.dirs[self.dirs[i].children@[j2] as int].name@)
    }

    /// The invariant of the shell.
    pub open spec fn wf(self) -> bool {
        self.shape() && self.linked()
    }

    /// This shell with its table replaced by `dirs`: the current folder and
    /// the line stay.
    pub open spec fn with_dirs(self, dirs: Seq<Folder>) -> ShellView {
        ShellView { dirs: dirs, current: self.current, line: self.line }
    }

    /// The folder the shell is in.
    pub open spec fn cur(self) -> Folder {
        self.dirs[self.current]
    }
}

/// The first free link of `kids` at or after `j`, or -1 when all are used.
pub open spec fn free_link_from(kids: Seq<i32>, j: int) -> int
    decreases kids.len() - j,
{
    if j >= kids.len() {
        -1
    } else if kids[j] < 0 {
        j
    } else {
        free_link_from(kids, j + 1)
    }
}

/// The first slot at or after `i` that is not in use, or -1 when all are.
pub open spec fn free_slot_from(dirs: Seq<Folder>, i: int) -> int
    decreases dirs.len() - i,
{
    if i >= dirs.len() {
        -1
    } else if !dirs[i].exist {
        i
    } else {
        free_slot_from(dirs, i + 1)
    }
}

/// The first link of `kids` at or after `j` to a folder whose logical name
/// is `name`, or -1 when there is none.
pub open spec fn named_link_from(dirs: Seq<Folder>, kids: Seq<i32>, name: Seq<u8>, j: int) -> int
    decreases kids.len() - j,
{
    if j >= kids.len() {
        -1
    } else if kids[j] >= 0 && logical_name(dirs[kids[j] as int].name@) == name {
        j
    } else {
        named_link_from(dirs, kids, name, j + 1)
    }
}

/// The first link of the current folder to a child named `name`, or -1.
pub open spec fn named_link(v: ShellView, name: Seq<u8>) -> int {
    named_link_from(v.dirs, v.cur().children@, logical_name(name), 0)
}

/// The first free link of the current folder, or -1.
pub open spec fn free_link(v: ShellView) -> int {
    free_link_from(v.cur().children@, 0)
}

/// What `make_dir` answers for a name buffer.
pub open spec fn make_dir_outcome(v: ShellView, name: Seq<u8>) -> Result<usize, ShellError> {
    if named_link(v, name) >= 0 {
        Err(ShellError::NameCollision)
    } else if free_link(v) < 0 {
        Err(ShellError::ChildCapacityExceeded)
    } else if free_slot_from(v.dirs, 0) < 0 {
        Err(ShellError::GlobalCapacityExceeded)
    } else {
        Ok(free_slot_from(v.dirs, 0) as usize)
    }
}

/// Whether `after` is the table of `v` once `make_dir` has placed a folder
/// named `name` in slot `k` and linked it from the current folder's first
/// free link. The new folder's slot is written last.
pub open spec fn placed_new_folder(v: ShellView, after: Seq<Folder>, name: Seq<u8>, k: int) -> bool {
    &&& after.len() == v.dirs.len()
    &&& forall|i: int|
        0 <= i < after.len() && i != k && i != v.current ==> #[trigger] after[i] == v.dirs[i]
    &&& v.current != k ==> {
        &&& after[v.current].exist == v.cur().exist
        &&& after[v.current].parent == v.cur().parent
        &&& after[v.current].name == v.cur().name
        &&& after[v.current].children@ == v.cur().children@.update(free_link(v), k as i32)
    }
    &&& after[k].exist
    &&& after[k].parent == v.current as i32
    &&& after[k].children@ == Seq::new(MAX_CHILDREN as nat, |j: int| -1i32)
    &&& after[k].name@ == name
}

/// Whether a name buffer holds the single byte `.`, which names the parent.
pub open spec fn is_dot(name: Seq<u8>) -> bool {
    logical_name(name) == seq![0x2eu8]
}

/// What `change_dir` answers for a name buffer: the slot it moves to, or
/// why it stays.
pub open spec fn change_dir_outcome(v: ShellView, name: Seq<u8>) -> Result<usize, ShellError> {
    if is_dot(name) {
        if v.cur().parent < 0 {
            Err(ShellError::NoParent)
        } else {
            Ok(v.cur().parent as usize)
        }
    } else if named_link(v, name) < 0 {
        Err(ShellError::DirectoryNotFound)
    } else {
        Ok(v.cur().children@[named_link(v, name)] as usize)
    }
}

/// What `remove_dir` answers for a name buffer.
pub open spec fn remove_dir_outcome(v: ShellView, name: Seq<u8>) -> Result<(), ShellError> {
    if named_link(v, name) < 0 {
        Err(ShellError::DirectoryNotFound)
    } else {
        Ok(())
    }
}

/// Whether one of the first `m` entries of `kids` is `i`.
pub open spec fn links_to(kids: Seq<i32>, m: int, i: int) -> bool {
    exists|q: int| 0 <= q < m && kids[q] as int == i
}

/// Whether `f` is `old` with its child link `j` cleared.
pub open spec fn unlinked(f: Folder, old: Folder, j: int) -> bool {
    &&& f.exist == old.exist
    &&& f.parent == old.parent
    &&& f.name == old.name
    &&& f.children@ == old.children@.update(j, -1i32)
}

/// The child links of the folder that link `j` of the current folder points
/// at, as they stand once that link is cleared.
pub open spec fn removal_kids(v: ShellView, j: int) -> Seq<i32> {
    let r = v.cur().children@[j] as int;
    if r == v.current {
        v.cur().children@.update(j, -1i32)
    } else {
        v.dirs[r].children@
    }
}

/// Whether `after` is the table of `v` once `remove_dir` has taken away the
/// folder that link `j` of the current folder points at: the link is cleared,
/// the slots of that folder's direct children are freed, then its own slot.
/// Deeper descendants are left as they were.
pub open spec fn removed_folder(v: ShellView, after: Seq<Folder>, j: int) -> bool {
    let r = v.cur().children@[j] as int;
    let kids = removal_kids(v, j);
    &&& after.len() == v.dirs.len()
    &&& crate::folder::is_vacant(after[r])
    &&& forall|i: int|
        0 <= i < after.len() && i != r ==> if links_to(kids, MAX_CHILDREN as int, i) {
            crate::folder::is_vacant(#[trigger] after[i])
        } else if i == v.current {
            unlinked(after[i], v.cur(), j)
        } else {
            after[i] == v.dirs[i]
        }
}

/// `n` spaces.
pub open spec fn spaces(n: nat) -> Seq<u8> {
    Seq::new(n, |i: int| 0x20u8)
}

/// The lines that `dir_tree` prints for the folder in `slot` at `depth` and
/// everything below it, depth first and in link order: each line is the
/// folder's name indented by one space per level. A link is followed only
/// when it is positive and its slot is in use. No chain of distinct folders
/// in the table is as deep as the table is large, which bounds the depth.
pub open spec fn tree_text(dirs: Seq<Folder>, slot: int, depth: int) -> Seq<u8>
    decreases MAX_FOLDERS - depth, 0int,
{
    if depth < 0 || depth >= MAX_FOLDERS {
        Seq::empty()
    } else {
        spaces(depth as nat) + logical_name(dirs[slot].name@) + seq![0x0au8] + subtrees_text(
            dirs,
            dirs[slot].children@,
            0,
            depth + 1,
        )
    }
}

/// The lines of the subtrees behind links `j` and after of `kids`.
pub open spec fn subtrees_text(dirs: Seq<Folder>, kids: Seq<i32>, j: int, depth: int) -> Seq<u8>
    decreases MAX_FOLDERS - depth, kids.len() - j,
{
    if j < 0 || j >= kids.len() || depth < 1 || depth > MAX_FOLDERS {
        Seq::empty()
    } else if kids[j] > 0 && dirs[kids[j] as int].exist {
        tree_text(dirs, kids[j] as int, depth) + subtrees_text(dirs, kids, j + 1, depth)
    } else {
        subtrees_text(dirs, kids, j + 1, depth)
    }
}

/// What `make_dir`, `change_dir` or `remove_dir` does with the name buffer
/// `name` taken from the line of `v`: `dirs` and `current` are the table and
/// current folder after it, `text` what it prints.
pub open spec fn edit_effect(
    v: ShellView,
    c: Command,
    name: Seq<u8>,
    dirs: Seq<Folder>,
    current: int,
    text: Seq<u8>,
) -> bool {
    match c {
        Command::MakeDir => current == v.current && match make_dir_outcome(v, name) {
            Ok(k) => placed_new_folder(v, dirs, name, k as int) && text == created_text(
                logical_name(name),
            ),
            Err(e) => dirs == v.dirs && text == error_text(e, v.line),
        },
        Command::ChangeDir => dirs == v.dirs && match change_dir_outcome(v, name) {
            Ok(k) => current == k && text == changed_text(logical_name(v.dirs[k as int].name@)),
            Err(e) => current == v.current && text == error_text(e, v.line),
        },
        _ => current == v.current && match remove_dir_outcome(v, name) {
            Ok(_) => removed_folder(v, dirs, named_link(v, name)) && text == removed_text(),
            Err(e) => dirs == v.dirs && text == error_text(e, v.line),
        },
    }
}

/// What running the pending line of `v` does: `dirs` and `current` are the
/// table and current folder after it, `clear` whether it clears the screen,
/// `text` what it prints. An empty line does nothing; a line that invokes no
/// command changes nothing and reports it.
pub open spec fn line_effect(
    v: ShellView,
    dirs: Seq<Folder>,
    current: int,
    clear: bool,
    text: Seq<u8>,
) -> bool {
    let same = dirs == v.dirs && current == v.current;
    if v.line.len() == 0 {
        same && !clear && text.len() == 0
    } else {
        match parse(v.line) {
            None => same && !clear && text == error_text(ShellError::UnknownCommand, v.line),
            Some(Command::CurDir) => same && !clear && text == cur_dir_text(
                logical_name(v.cur().name@),
            ),
            Some(Command::DirTree) => same && !clear && text == seq![0x0au8] + tree_text(
                v.dirs,
                0,
                0,
            ),
            Some(Command::Clear) => same && clear && text.len() == 0,
            Some(c) => !clear && match argument(v.line, c) {
                Err(e) => same && text == error_text(e, v.line),
                Ok(s) => edit_effect(v, c, padded_name(s), dirs, current, text),
            },
        }
    }
}

pub proof fn lemma_no_named_link(dirs: Seq<Folder>, kids: Seq<i32>, name: Seq<u8>, j: int)
    requires
        0 <= j <= kids.len(),
        named_link_from(dirs, kids, name, j) < 0,
    ensures
        forall|q: int|
            j <= q < kids.len() && kids[q] >= 0 ==> logical_name(dirs[kids[q] as int].name@)
                != name,
    decreases kids.len() - j,
{
    if j < kids.len() {
        lemma_no_named_link(dirs, kids, name, j + 1);
    }
}

/// `make_dir` keeps the folders in use linked together.
pub proof fn lemma_placement_keeps_links(v: ShellView, after: Seq<Folder>, name: Seq<u8>, k: int)
    requires
        v.wf(),
        0 < k < MAX_FOLDERS,
        !v.dirs[k].exist,
        0 <= free_link(v) < MAX_CHILDREN,
        v.cur().children@[free_link(v)] < 0,
        named_link(v, name) < 0,
        placed_new_folder(v, after, name, k),
        v.with_dirs(after).shape(),
    ensures
        v.with_dirs(after).linked(),
{
    let w = v.with_dirs(after);
    let c = free_link(v);
    assert(k != v.current);
    let path = choose|path: Seq<int>| is_path(v.dirs, path) && path.last() == v.current;
    assert(is_path(after, path));
    assert forall|i: int, j: int|
        0 <= i < MAX_FOLDERS && 0 <= j < MAX_CHILDREN && after[i].exist
            && #[trigger] after[i].children@[j] >= 0 implies {
        &&& after[after[i].children@[j] as int].exist
        &&& after[after[i].children@[j] as int].parent == i
    } by {
        if i == k {
        } else if i == v.current {
            if j != c {
                assert(after[i].children@[j] == v.dirs[i].children@[j]);
            }
        } else {
            assert(after[i] == v.dirs[i]);
        }
    }
    assert forall|i: int, j1: int, j2: int|
        0 <= i < MAX_FOLDERS && 0 <= j1 < MAX_CHILDREN && 0 <= j2 < MAX_CHILDREN && j1 != j2
            && after[i].exist && after[i].children@[j1] >= 0 implies #[trigger] after[i].children@[j1]
        != #[trigger] after[i].children@[j2] by {
        if i == k {
        } else if i == v.current {
            if j1 != c && j2 != c {
                assert(v.dirs[i].children@[j1] != v.dirs[i].children@[j2]);
            } else if j1 == c {
                if v.dirs[i].children@[j2] >= 0 {
                    assert(v.dirs[v.dirs[i].children@[j2] as int].exist);
                }
            } else {
                assert(v.dirs[v.dirs[i].children@[j1] as int].exist);
            }
        } else {
            assert(after[i] == v.dirs[i]);
            assert(v.dirs[i].children@[j1] != v.dirs[i].children@[j2]);
        }
    }
    lemma_no_named_link(v.dirs, v.cur().children@, logical_name(name), 0);
    assert forall|i: int, j1: int, j2: int|
        0 <= i < MAX_FOLDERS && 0 <= j1 < MAX_CHILDREN && 0 <= j2 < MAX_CHILDREN && j1 != j2
            && after[i].exist && #[trigger] after[i].children@[j1] >= 0
            && #[trigger] after[i].children@[j2] >= 0 implies logical_name(
        after[after[i].children@[j1] as int].name@,
    ) != logical_name(after[after[i].children@[j2] as int].name@) by {
        if i == k {
        } else {
            let vi = v.dirs[i];
            if i != v.current {
                assert(after[i] == vi);
            }
            if i == v.current && (j1 == c || j2 == c) {
                let o = if j1 == c { j2 } else { j1 };
                let t = vi.children@[o] as int;
                assert(after[i].children@[o] == t);
                assert(v.dirs[t].exist);
                assert(t != k);
                if t != v.current {
                    assert(after[t] == v.dirs[t]);
                }
                assert(logical_name(after[t].name@) != logical_name(name));
            } else {
                let t1 = vi.children@[j1] as int;
                let t2 = vi.children@[j2] as int;
                assert(after[i].children@[j1] == t1 && after[i].children@[j2] == t2);
                assert(v.dirs[t1].exist && v.dirs[t2].exist);
                if t1 != v.current {
                    assert(after[t1] == v.dirs[t1]);
                }
                if t2 != v.current {
                    assert(after[t2] == v.dirs[t2]);
                }
                assert(logical_name(v.dirs[t1].name@) != logical_name(v.dirs[t2].name@));
            }
        }
    }
    assert(w.linked());
}

/// `remove_dir` keeps the folders in use linked together: the chain from
/// the root to the current folder passes through none of the slots it
/// frees.
pub proof fn lemma_removal_keeps_links(v: ShellView, after: Seq<Folder>, j: int)
    requires
        v.wf(),
        0 <= j < MAX_CHILDREN,
        v.cur().children@[j] >= 0,
        removed_folder(v, after, j),
        v.with_dirs(after).shape(),
    ensures
        v.with_dirs(after).linked(),
{
    let w = v.with_dirs(after);
    let r = v.cur().children@[j] as int;
    let kids = removal_kids(v, j);
    let path = choose|path: Seq<int>| is_path(v.dirs, path) && path.last() == v.current;
    let last = path.len() - 1;
    assert(v.dirs[r].exist && v.dirs[r].parent == v.current);
    assert(r != v.current) by {
        if r == v.current {
            if last > 0 {
                assert(path[last - 1] == path[last]);
            }
        }
    }
    assert(kids == v.dirs[r].children@);
    assert forall|t: int| 0 <= t < path.len() implies #[trigger] path[t] != r && !links_to(
        kids,
        MAX_CHILDREN as int,
        path[t],
    ) by {
        if path[t] == r {
            assert(t > 0);
            assert(path[t - 1] == path[last]);
        }
        if links_to(kids, MAX_CHILDREN as int, path[t]) {
            let q = choose|q: int| 0 <= q < MAX_CHILDREN && kids[q] as int == path[t];
            assert(v.dirs[r].children@[q] >= 0);
            assert(v.dirs[path[t]].parent == r);
            assert(t > 0);
            assert(path[t - 1] == r);
            assert(path[t - 1] == path[last]);
        }
    }
    assert forall|t: int| 0 <= t < path.len() implies after[#[trigger] path[t]].exist
        && after[path[t]].parent == v.dirs[path[t]].parent by {
        assert(path[t] != r);
    }
    assert(is_path(after, path));
    assert forall|i: int, q: int|
        0 <= i < MAX_FOLDERS && 0 <= q < MAX_CHILDREN && after[i].exist
            && #[trigger] after[i].children@[q] >= 0 implies {
        &&& after[after[i].children@[q] as int].exist
        &&& after[after[i].children@[q] as int].parent == i
    } by {
        assert(i != r);
        assert(!links_to(kids, MAX_CHILDREN as int, i));
        let c = after[i].children@[q] as int;
        if i == v.current {
            assert(q != j);
            assert(c == v.dirs[i].children@[q]);
        } else {
            assert(after[i] == v.dirs[i]);
        }
        assert(v.dirs[c].exist && v.dirs[c].parent == i);
        assert(c != r) by {
            if c == r && i == v.current {
                assert(v.dirs[i].children@[q] != v.dirs[i].children@[j]);
            }
        }
        assert(!links_to(kids, MAX_CHILDREN as int, c)) by {
            if links_to(kids, MAX_CHILDREN as int, c) {
                let p = choose|p: int| 0 <= p < MAX_CHILDREN && kids[p] as int == c;
                assert(v.dirs[r].children@[p] >= 0);
            }
        }
    }
    assert forall|i: int, j1: int, j2: int|
        0 <= i < MAX_FOLDERS && 0 <= j1 < MAX_CHILDREN && 0 <= j2 < MAX_CHILDREN && j1 != j2
            && after[i].exist && after[i].children@[j1] >= 0 implies #[trigger] after[i].children@[j1]
        != #[trigger] after[i].children@[j2] by {
        assert(i != r);
        assert(!links_to(kids, MAX_CHILDREN as int, i));
        if i == v.current {
            assert(v.dirs[i].children@[j1] != v.dirs[i].children@[j2]);
        } else {
            assert(after[i] == v.dirs[i]);
            assert(v.dirs[i].children@[j1] != v.dirs[i].children@[j2]);
        }
    }
    assert forall|i: int, j1: int, j2: int|
        0 <= i < MAX_FOLDERS && 0 <= j1 < MAX_CHILDREN && 0 <= j2 < MAX_CHILDREN && j1 != j2
            && after[i].exist && #[trigger] after[i].children@[j1] >= 0
            && #[trigger] after[i].children@[j2] >= 0 implies logical_name(
        after[after[i].children@[j1] as int].name@,
    ) != logical_name(after[after[i].children@[j2] as int].name@) by {
        let t1 = after[i].children@[j1] as int;
        let t2 = after[i].children@[j2] as int;
        assert(after[t1].exist && after[t1].parent == i);
        assert(after[t2].exist && after[t2].parent == i);
        assert(i != r);
        assert(!links_to(kids, MAX_CHILDREN as int, i));
        if i != v.current {
            assert(after[i] == v.dirs[i]);
        }
        assert(v.dirs[i].children@[j1] == t1 && v.dirs[i].children@[j2] == t2);
        assert(t1 != r && !links_to(kids, MAX_CHILDREN as int, t1));
        assert(t2 != r && !links_to(kids, MAX_CHILDREN as int, t2));
        if t1 != v.current {
            assert(after[t1] == v.dirs[t1]);
        }
        if t2 != v.current {
            assert(after[t2] == v.dirs[t2]);
        }
        assert(logical_name(v.dirs[t1].name@) != logical_name(v.dirs[t2].name@));
    }
    assert(w.linked());
}

} // verus!
