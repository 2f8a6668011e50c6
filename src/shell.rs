//! The shell that executes commands against the directory table.

use vstd::prelude::*;
use crate::command::Command;
use crate::folder::{Folder, MAX_CHILDREN};
use crate::model::{
    LINE_CAPACITY, MAX_FOLDERS, ShellError, ShellView, change_dir_outcome, free_link,
    free_link_from, free_slot_from, is_dot, is_path, lemma_placement_keeps_links,
    lemma_removal_keeps_links, line_effect, edit_effect, link_in_range, links_to,
    make_dir_outcome, named_link, named_link_from, placed_new_folder, remove_dir_outcome,
    removal_kids, removed_folder, root_name, spaces, subtrees_text, tree_text,
};
use crate::name::{NAME_CAPACITY, logical_name, same_name};

verus! {

/// What handling one character asks of the display.
pub struct Output {
    /// The screen is cleared first.
    pub clear_screen: bool,
    /// Bytes to print.
    pub text: Vec<u8>,
}

/// The shell: the directory table, the current folder and the line typed
/// so far.
pub struct Shell {
    line: Vec<u8>,
    current_dir: usize,
    dirs: Vec<Folder>,
}

impl View for Shell {
    type V = ShellView;

    closed spec fn view(&self) -> ShellView {
        ShellView { dirs: self.dirs@, current: self.current_dir as int, line: self.line@ }
    }
}

impl Shell {
    /// A shell at the root of a table that holds the root alone, with an
    /// empty line.
    pub fn new() -> (r: Shell)
        ensures
            r@.wf(),
            r@.current == 0,
            r@.line.len() == 0,
            r@.dirs[0].exist,
            r@.dirs[0].parent == -1,
            logical_name(r@.dirs[0].name@) == root_name(),
            forall|j: int| 0 <= j < MAX_CHILDREN ==> r@.dirs[0].children@[j] == -1,
            forall|i: int| 1 <= i < MAX_FOLDERS ==> !(#[trigger] r@.dirs[i]).exist,
    {
        let mut dirs: Vec<Folder> = Vec::new();
        let mut root = Folder::vacant();
        root.set_exist(true);
        root.set_name([0x72u8, 0x6f, 0x6f, 0x74, 0, 0, 0, 0, 0, 0]);
        dirs.push(root);
        while dirs.len() < MAX_FOLDERS
            invariant
                1 <= dirs@.len() <= MAX_FOLDERS,
                dirs@[0] == root,
                forall|i: int| 1 <= i < dirs@.len() ==> crate::folder::is_vacant(#[trigger] dirs@[i]),
            decreases MAX_FOLDERS - dirs@.len(),
        {
            dirs.push(Folder::vacant());
        }
        assert(logical_name(root.name@) =~= root_name()) by {
            reveal_with_fuel(crate::name::terminator_from, 6);
        }
        let r = Shell { line: Vec::new(), current_dir: 0, dirs };
        assert(is_path(r@.dirs, seq![0int]));
        assert(seq![0int].last() == r@.current);
        assert(forall|i: int| 0 < i < MAX_FOLDERS ==> !r@.dirs[i].exist);
        assert(forall|j: int| 0 <= j < MAX_CHILDREN ==> r@.dirs[0].children@[j] == -1);
        r
    }

    /// The first free link of the current folder, or -1 when it has
    /// `MAX_CHILDREN` children already.
    pub fn find_empty_subfolder(&self) -> (r: i8)
        requires
            self@.wf(),
        ensures
            r as int == free_link(self@),
            -1 <= r < MAX_CHILDREN,
            r >= 0 ==> self@.cur().children@[r as int] < 0,
    {
        let kids = self.dirs[self.current_dir].children;
        let mut j: usize = 0;
        while j < MAX_CHILDREN
            invariant
                kids@ == self@.cur().children@,
                kids@.len() == MAX_CHILDREN,
                free_link(self@) == free_link_from(kids@, j as int),
            decreases MAX_CHILDREN - j,
        {
            if kids[j] < 0 {
                return j as i8;
            }
            j = j + 1;
        }
        -1
    }

    /// The first slot of the table that is not in use, or -1 when all are.
    pub fn find_empty_folder(&self) -> (r: i32)
        requires
            self@.wf(),
        ensures
            r as int == free_slot_from(self@.dirs, 0),
            -1 <= r < MAX_FOLDERS,
            r >= 0 ==> !self@.dirs[r as int].exist,
    {
        let mut i: usize = 0;
        while i < MAX_FOLDERS
            invariant
                self@.wf(),
                free_slot_from(self@.dirs, 0) == free_slot_from(self@.dirs, i as int),
            decreases MAX_FOLDERS - i,
        {
            if !self.dirs[i].exist {
                return i as i32;
            }
            i = i + 1;
        }
        -1
    }

    /// The first link of the current folder to a child whose logical name is
    /// that of `name`, or -1.
    fn find_child_link(&self, name: &[u8; NAME_CAPACITY]) -> (r: i32)
        requires
            self@.wf(),
        ensures
            r as int == named_link(self@, name@),
            -1 <= r < MAX_CHILDREN,
            r >= 0 ==> self@.cur().children@[r as int] >= 0,
    {
        let kids = self.dirs[self.current_dir].children;
        let mut j: usize = 0;
        while j < MAX_CHILDREN
            invariant
                self@.wf(),
                kids@ == self@.cur().children@,
                named_link(self@, name@) == named_link_from(
                    self@.dirs,
                    kids@,
                    logical_name(name@),
                    j as int,
                ),
            decreases MAX_CHILDREN - j,
        {
            let c = kids[j];
            if c >= 0 {
                assert(link_in_range(self@.cur().children@[j as int]));
                if same_name(&self.dirs[c as usize].name, name) {
                    return j as i32;
                }
            }
            j = j + 1;
        }
        -1
    }

    /// The slot of the current folder's child whose logical name is that of
    /// `name`, or -1 when it has none.
    pub fn find_child_dir_by_name(&self, name: [u8; NAME_CAPACITY]) -> (r: i32)
        requires
            self@.wf(),
        ensures
            named_link(self@, name@) < 0 ==> r == -1,
            named_link(self@, name@) >= 0 ==> r == self@.cur().children@[named_link(self@, name@)],
    {
        let j = self.find_child_link(&name);
        if j < 0 {
            -1
        } else {
            self.dirs[self.current_dir].children[j as usize]
        }
    }

    /// Creates a folder named `name` under the current folder.
    pub fn make_dir(&mut self, name: [u8; NAME_CAPACITY]) -> (r: Result<usize, ShellError>)
        requires
            old(self)@.wf(),
        ensures
            final(self)@.wf(),
            final(self)@.current == old(self)@.current,
            final(self)@.line == old(self)@.line,
            r == make_dir_outcome(old(self)@, name@),
            r is Ok ==> r->Ok_0 < MAX_FOLDERS,
            match r {
                Ok(k) => placed_new_folder(old(self)@, final(self)@.dirs, name@, k as int),
                Err(_) => final(self)@.dirs == old(self)@.dirs,
            },
    {
        if self.find_child_link(&name) >= 0 {
            return Err(ShellError::NameCollision);
        }
        let c = self.find_empty_subfolder();
        if c < 0 {
            return Err(ShellError::ChildCapacityExceeded);
        }
        let k = self.find_empty_folder();
        if k < 0 {
            return Err(ShellError::GlobalCapacityExceeded);
        }
        let ghost v = self@;
        let cur = self.current_dir;
        let mut parent = self.dirs[cur];
        parent.children[c as usize] = k;
        self.dirs.set(cur, parent);
        let mut f = Folder::vacant();
        f.set_exist(true);
        f.set_parent(cur as i32);
        f.set_name(name);
        self.dirs.set(k as usize, f);
        assert(f.children@ =~= Seq::new(MAX_CHILDREN as nat, |j: int| -1i32));
        assert forall|i: int, j: int|
            0 <= i < MAX_FOLDERS && 0 <= j < MAX_CHILDREN implies link_in_range(
                #[trigger] self@.dirs[i].children@[j],
            ) && self@.dirs[i].children@[j] != 0 by {
            if i != k && i != cur {
                assert(self@.dirs[i] == v.dirs[i]);
            }
        }
        proof {
            lemma_placement_keeps_links(v, self@.dirs, name@, k as int);
        }
        Ok(k as usize)
    }

    /// Moves to the parent folder when `name` is `.`, else to the child of
    /// the current folder named `name`.
    pub fn change_dir(&mut self, name: [u8; NAME_CAPACITY]) -> (r: Result<usize, ShellError>)
        requires
            old(self)@.wf(),
        ensures
            final(self)@.wf(),
            final(self)@.dirs == old(self)@.dirs,
            final(self)@.line == old(self)@.line,
            r == change_dir_outcome(old(self)@, name@),
            final(self)@.current == match r {
                Ok(k) => k as int,
                Err(_) => old(self)@.current,
            },
    {
        let ghost v = self@;
        let len = crate::name::name_len(&name);
        if len == 1 && name[0] == 0x2e {
            assert(logical_name(name@) =~= seq![0x2eu8]);
            let p = self.dirs[self.current_dir].parent;
            assert(link_in_range(self@.cur().parent));
            if p < 0 {
                return Err(ShellError::NoParent);
            }
            proof {
                let path = choose|path: Seq<int>| is_path(v.dirs, path) && path.last() == v.current;
                assert(path.len() >= 2) by {
                    if path.len() == 1 {
                        assert(path[0] == v.current);
                    }
                }
                let up = path.drop_last();
                assert(up.last() == path[path.len() - 2]);
                assert(is_path(v.dirs, up));
            }
            self.current_dir = p as usize;
            return Ok(p as usize);
        }
        assert(!is_dot(name@)) by {
            if is_dot(name@) {
                assert(logical_name(name@).len() == 1);
                assert(logical_name(name@)[0] == name@[0]);
            }
        }
        let j = self.find_child_link(&name);
        if j < 0 {
            return Err(ShellError::DirectoryNotFound);
        }
        let c = self.dirs[self.current_dir].children[j as usize];
        assert(link_in_range(self@.cur().children@[j as int]));
        proof {
            let path = choose|path: Seq<int>| is_path(v.dirs, path) && path.last() == v.current;
            let down = path.push(c as int);
            let last = path.len() - 1;
            assert(v.dirs[c as int].exist && v.dirs[c as int].parent == v.current);
            assert forall|s: int, t: int| 0 <= s < t < down.len() implies #[trigger] down[s]
                != #[trigger] down[t] by {
                if t == path.len() && s > 0 && path[s] == c as int {
                    assert(path[s - 1] == v.current);
                    assert(s - 1 < last);
                    assert(path[s - 1] != path[last]);
                }
                if t < path.len() {
                    assert(path[s] != path[t]);
                }
            }
            assert(is_path(v.dirs, down));
            assert(down.last() == c as int);
        }
        self.current_dir = c as usize;
        assert(self@.dirs == v.dirs);
        assert(self@.shape());
        assert(self@.cur().exist);
        Ok(c as usize)
    }

    /// Removes the child of the current folder named `name`, with the slots
    /// of its direct children.
    pub fn remove_dir(&mut self, name: [u8; NAME_CAPACITY]) -> (r: Result<(), ShellError>)
        requires
            old(self)@.wf(),
        ensures
            final(self)@.wf(),
            final(self)@.current == old(self)@.current,
            final(self)@.line == old(self)@.line,
            r == remove_dir_outcome(old(self)@, name@),
            r is Ok ==> removed_folder(old(self)@, final(self)@.dirs, named_link(old(self)@, name@)),
            r is Err ==> final(self)@.dirs == old(self)@.dirs,
    {
        let j = self.find_child_link(&name);
        if j < 0 {
            return Err(ShellError::DirectoryNotFound);
        }
        let ghost v = self@;
        let cur = self.current_dir;
        let ju = j as usize;
        let r = self.dirs[cur].children[ju];
        assert(link_in_range(v.cur().children@[j as int]));
        let mut parent = self.dirs[cur];
        parent.children[ju] = -1;
        self.dirs.set(cur, parent);
        let ghost s1 = self@.dirs;
        let kids = self.dirs[r as usize].children;
        assert(kids@ == removal_kids(v, j as int));
        let mut m: usize = 0;
        while m < MAX_CHILDREN
            invariant
                0 <= m <= MAX_CHILDREN,
                self@.shape(),
                self.current_dir == cur,
                self@.line == v.line,
                kids@ == removal_kids(v, j as int),
                kids@.len() == MAX_CHILDREN,
                s1.len() == MAX_FOLDERS,
                forall|q: int| 0 <= q < MAX_CHILDREN ==> link_in_range(#[trigger] kids@[q]) && kids@[q] != 0,
                forall|i: int|
                    0 <= i < MAX_FOLDERS ==> if links_to(kids@, m as int, i) {
                        crate::folder::is_vacant(#[trigger] self@.dirs[i])
                    } else {
                        self@.dirs[i] == s1[i]
                    },
            decreases MAX_CHILDREN - m,
        {
            let d = kids[m];
            if d >= 0 {
                self.dirs.set(d as usize, Folder::vacant());
            }
            assert forall|i: int| 0 <= i < MAX_FOLDERS implies if links_to(kids@, m + 1, i) {
                crate::folder::is_vacant(#[trigger] self@.dirs[i])
            } else {
                self@.dirs[i] == s1[i]
            } by {
                if links_to(kids@, m as int, i) {
                    assert(links_to(kids@, m + 1, i));
                } else if i == d as int {
                    assert(links_to(kids@, m + 1, i));
                } else if links_to(kids@, m + 1, i) {
                    let q = choose|q: int| 0 <= q < m + 1 && kids@[q] as int == i;
                    if q < m {
                        assert(links_to(kids@, m as int, i));
                    }
                }
            }
            m = m + 1;
        }
        self.dirs.set(r as usize, Folder::vacant());
        proof {
            lemma_removal_keeps_links(v, self@.dirs, j as int);
        }
        Ok(())
    }


    /// Appends to `out` the tree below the folder in `start_folder`, which
    /// stands at `depth`.
    fn print_dir_tree(&self, start_folder: usize, depth: usize, out: &mut Vec<u8>)
        requires
            self@.wf(),
            start_folder < MAX_FOLDERS,
            depth <= MAX_FOLDERS,
        ensures
            final(out)@ == old(out)@ + tree_text(self@.dirs, start_folder as int, depth as int),
        decreases MAX_FOLDERS - depth,
    {
        if depth >= MAX_FOLDERS {
            assert(old(out)@ + tree_text(self@.dirs, start_folder as int, depth as int) =~= old(out)@);
            return;
        }
        let ghost base = out@;
        let mut i: usize = 0;
        while i < depth
            invariant
                0 <= i <= depth,
                out@ == base + spaces(i as nat),
            decreases depth - i,
        {
            out.push(0x20u8);
            assert(spaces((i + 1) as nat) =~= spaces(i as nat).push(0x20u8));
            i = i + 1;
        }
        crate::name::push_name(out, &self.dirs[start_folder].name);
        out.push(0x0au8);
        let ghost head = out@;
        let kids = self.dirs[start_folder].children;
        let mut j: usize = 0;
        while j < MAX_CHILDREN
            invariant
                self@.wf(),
                start_folder < MAX_FOLDERS,
                depth < MAX_FOLDERS,
                kids@ == self@.dirs[start_folder as int].children@,
                0 <= j <= MAX_CHILDREN,
                out@ + subtrees_text(self@.dirs, kids@, j as int, depth + 1) == head
                    + subtrees_text(self@.dirs, kids@, 0, depth + 1),
            decreases MAX_CHILDREN - j,
        {
            let c = kids[j];
            let ghost before = out@;
            assert(link_in_range(self@.dirs[start_folder as int].children@[j as int]));
            if c > 0 && self.dirs[c as usize].exist {
                self.print_dir_tree(c as usize, depth + 1, out);
                assert(before + subtrees_text(self@.dirs, kids@, j as int, depth + 1) =~= out@
                    + subtrees_text(self@.dirs, kids@, j + 1, depth + 1));
            }
            j = j + 1;
        }
        assert(subtrees_text(self@.dirs, kids@, MAX_CHILDREN as int, depth + 1) =~= Seq::empty());
        assert(out@ =~= old(out)@ + tree_text(self@.dirs, start_folder as int, depth as int));
    }


    /// Runs the pending line and reports what to display; the line stays.
    pub fn execute_command(&mut self) -> (r: Output)
        requires
            old(self)@.wf(),
        ensures
            final(self)@.wf(),
            final(self)@.line == old(self)@.line,
            line_effect(
                old(self)@,
                final(self)@.dirs,
                final(self)@.current,
                r.clear_screen,
                r.text@,
            ),
    {
        let mut text: Vec<u8> = Vec::new();
        if self.line.len() == 0 {
            return Output { clear_screen: false, text };
        }
        let command = crate::command::parse_command(&self.line);
        match command {
            None => {
                crate::command::push_error(&mut text, ShellError::UnknownCommand, &self.line);
                Output { clear_screen: false, text }
            },
            Some(Command::CurDir) => {
                crate::command::push_str(&mut text, "\n/");
                crate::name::push_name(&mut text, &self.dirs[self.current_dir].name);
                crate::command::push_str(&mut text, "\n");
                Output { clear_screen: false, text }
            },
            Some(Command::DirTree) => {
                text.push(0x0au8);
                self.print_dir_tree(0, 0, &mut text);
                Output { clear_screen: false, text }
            },
            Some(Command::Clear) => Output { clear_screen: true, text },
            Some(c) => {
                match crate::command::get_command_args(&self.line, c) {
                    Err(e) => {
                        crate::command::push_error(&mut text, e, &self.line);
                        Output { clear_screen: false, text }
                    },
                    Ok(name) => {
                        self.edit(c, name, &mut text);
                        Output { clear_screen: false, text }
                    },
                }
            },
        }
    }

    /// Runs `make_dir`, `change_dir` or `remove_dir` on `name` and appends
    /// its report to `out`.
    fn edit(&mut self, c: Command, name: [u8; NAME_CAPACITY], out: &mut Vec<u8>)
        requires
            old(self)@.wf(),
            old(out)@.len() == 0,
            c != Command::CurDir && c != Command::DirTree && c != Command::Clear,
        ensures
            final(self)@.wf(),
            final(self)@.line == old(self)@.line,
            edit_effect(
                old(self)@,
                c,
                name@,
                final(self)@.dirs,
                final(self)@.current,
                final(out)@,
            ),
    {
        match c {
            Command::MakeDir => match self.make_dir(name) {
                Ok(k) => {
                    crate::command::push_str(out, "\n[ok] Created new dir '");
                    crate::name::push_name(out, &self.dirs[k].name);
                    crate::command::push_str(out, "'\n");
                },
                Err(e) => crate::command::push_error(out, e, &self.line),
            },
            Command::ChangeDir => match self.change_dir(name) {
                Ok(_) => {
                    crate::command::push_str(out, "\n[ok] Changed current dir to '");
                    crate::name::push_name(out, &self.dirs[self.current_dir].name);
                    crate::command::push_str(out, "'\n");
                },
                Err(e) => crate::command::push_error(out, e, &self.line),
            },
            _ => match self.remove_dir(name) {
                Ok(_) => crate::command::push_str(out, "\n[ok] Successful deleted\n"),
                Err(e) => crate::command::push_error(out, e, &self.line),
            },
        }
    }

    /// Takes one character of input. A line feed runs the pending line and
    /// empties it; any other byte joins the line and is echoed, unless the
    /// line is full, in which case it is dropped and nothing is echoed.
    pub fn on_key_pressed(&mut self, key: u8) -> (r: Output)
        requires
            old(self)@.wf(),
        ensures
            final(self)@.wf(),
            key == 0x0a ==> final(self)@.line.len() == 0 && line_effect(
                old(self)@,
                final(self)@.dirs,
                final(self)@.current,
                r.clear_screen,
                r.text@,
            ),
            key != 0x0a ==> {
                &&& final(self)@.dirs == old(self)@.dirs
                &&& final(self)@.current == old(self)@.current
                &&& !r.clear_screen
                &&& if old(self)@.line.len() < LINE_CAPACITY {
                    final(self)@.line == old(self)@.line.push(key) && r.text@ == seq![key]
                } else {
                    final(self)@.line == old(self)@.line && r.text@.len() == 0
                }
            },
    {
        if key == 0x0a {
            let out = self.execute_command();
            self.line.clear();
            out
        } else if self.line.len() < LINE_CAPACITY {
            self.line.push(key);
            let mut text: Vec<u8> = Vec::new();
            text.push(key);
            Output { clear_screen: false, text }
        } else {
            Output { clear_screen: false, text: Vec::new() }
        }
    }

}

} // verus!
