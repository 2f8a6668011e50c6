//! Properties that relate several commands, proved over the model.

use vstd::prelude::*;
use crate::folder::{Folder, MAX_CHILDREN, is_vacant};
use crate::name::logical_name;
use crate::model::{
    MAX_FOLDERS, ShellError, ShellView, change_dir_outcome, free_link, free_link_from,
    free_slot_from, is_dot, make_dir_outcome, named_link, named_link_from, placed_new_folder,
    remove_dir_outcome, removed_folder,
};

verus! {

proof fn lemma_free_link_from(kids: Seq<i32>, j: int)
    requires
        0 <= j <= kids.len(),
    ensures
        free_link_from(kids, j) == -1 || (j <= free_link_from(kids, j) < kids.len() && kids[free_link_from(kids, j)] < 0),
        forall|i: int| j <= i < kids.len() && kids[i] < 0 ==> 0 <= free_link_from(kids, j) <= i,
        forall|i: int| j <= i < free_link_from(kids, j) ==> kids[i] >= 0,
    decreases kids.len() - j,
{
    if j < kids.len() && kids[j] >= 0 {
        lemma_free_link_from(kids, j + 1);
    }
}

proof fn lemma_free_slot_from(dirs: Seq<Folder>, j: int)
    requires
        0 <= j <= dirs.len(),
    ensures
        free_slot_from(dirs, j) == -1 || (j <= free_slot_from(dirs, j) < dirs.len() && !dirs[free_slot_from(dirs, j)].exist),
        forall|i: int| j <= i < dirs.len() && !dirs[i].exist ==> 0 <= free_slot_from(dirs, j) <= i,
        free_slot_from(dirs, j) == -1 ==> forall|i: int| j <= i < dirs.len() ==> dirs[i].exist,
    decreases dirs.len() - j,
{
    if j < dirs.len() && dirs[j].exist {
        lemma_free_slot_from(dirs, j + 1);
    }
}

proof fn lemma_named_link_from(dirs: Seq<Folder>, kids: Seq<i32>, name: Seq<u8>, j: int)
    requires
        0 <= j <= kids.len(),
    ensures
        named_link_from(dirs, kids, name, j) == -1 || ({
            let r = named_link_from(dirs, kids, name, j);
            j <= r < kids.len() && kids[r] >= 0
        }),
    decreases kids.len() - j,
{
    if j < kids.len() && !(kids[j] >= 0 && logical_name(dirs[kids[j] as int].name@) == name) {
        lemma_named_link_from(dirs, kids, name, j + 1);
    }
}

/// Once a folder named `name` has been placed in slot `k`, the search for
/// `name` among the current folder's links, started at `j`, finds a link to
/// `k`.
proof fn lemma_finds_new_folder(v: ShellView, after: Seq<Folder>, name: Seq<u8>, k: usize, j: int)
    requires
        v.wf(),
        make_dir_outcome(v, name) == Ok::<usize, ShellError>(k),
        placed_new_folder(v, after, name, k as int),
        0 <= j <= free_link(v),
        named_link_from(v.dirs, v.cur().children@, logical_name(name), j) == -1,
    ensures
        ({
            let r = named_link_from(after, after[v.current].children@, logical_name(name), j);
            0 <= r < MAX_CHILDREN && after[v.current].children@[r] == k as int
        }),
    decreases free_link(v) - j,
{
    let kids = v.cur().children@;
    let c = free_link(v);
    lemma_free_link_from(kids, 0);
    lemma_free_slot_from(v.dirs, 0);
    assert(k != v.current);
    let nk = after[v.current].children@;
    if j < c {
        let cj = kids[j];
        assert(nk[j] == cj);
        assert(cj >= 0);
        assert(v.dirs.len() == MAX_FOLDERS);
        assert(crate::model::link_in_range(v.dirs[v.current].children@[j]));
        if cj as int == k as int {
        } else if cj as int == v.current {
            assert(after[cj as int].name == v.dirs[cj as int].name);
            lemma_finds_new_folder(v, after, name, k, j + 1);
        } else {
            assert(after[cj as int] == v.dirs[cj as int]);
            lemma_finds_new_folder(v, after, name, k, j + 1);
        }
    } else {
        assert(nk[c] == k as i32);
    }
}

/// A shell starts at the root, which has no parent; asking the root for its
/// parent fails with `NoParent` and leaves the current folder where it is.
pub proof fn law_root_has_no_parent(v: ShellView, name: Seq<u8>)
    requires
        v.wf(),
        v.current == 0,
        is_dot(name),
    ensures
        change_dir_outcome(v, name) == Err::<usize, ShellError>(ShellError::NoParent),
{
}

/// A folder that `make_dir` has just created under the current folder is the
/// one `change_dir` moves to under the same name.
pub proof fn law_make_then_change(v: ShellView, after: Seq<Folder>, name: Seq<u8>, k: usize)
    requires
        v.wf(),
        !is_dot(name),
        make_dir_outcome(v, name) == Ok::<usize, ShellError>(k),
        placed_new_folder(v, after, name, k as int),
    ensures
        change_dir_outcome(v.with_dirs(after), name) == Ok::<usize, ShellError>(k),
{
    lemma_named_link_from(v.dirs, v.cur().children@, logical_name(name), 0);
    lemma_finds_new_folder(v, after, name, k, 0);
}

/// Creating the same name twice under one folder fails the second time with
/// `NameCollision`.
pub proof fn law_make_twice_collides(v: ShellView, after: Seq<Folder>, name: Seq<u8>, k: usize)
    requires
        v.wf(),
        make_dir_outcome(v, name) == Ok::<usize, ShellError>(k),
        placed_new_folder(v, after, name, k as int),
    ensures
        make_dir_outcome(v.with_dirs(after), name) == Err::<usize, ShellError>(
            ShellError::NameCollision,
        ),
{
    lemma_named_link_from(v.dirs, v.cur().children@, logical_name(name), 0);
    lemma_finds_new_folder(v, after, name, k, 0);
}

/// A folder whose links are all in use takes no new name: `make_dir` fails
/// with `ChildCapacityExceeded`.
pub proof fn law_children_full(v: ShellView, name: Seq<u8>)
    requires
        v.wf(),
        named_link(v, name) < 0,
        forall|j: int| 0 <= j < MAX_CHILDREN ==> v.cur().children@[j] >= 0,
    ensures
        make_dir_outcome(v, name) == Err::<usize, ShellError>(ShellError::ChildCapacityExceeded),
{
    lemma_free_link_from(v.cur().children@, 0);
}

/// When every slot of the table is in use, `make_dir` of a new name in a
/// folder with a free link fails with `GlobalCapacityExceeded`.
pub proof fn law_table_full(v: ShellView, name: Seq<u8>)
    requires
        v.wf(),
        named_link(v, name) < 0,
        free_link(v) >= 0,
        forall|i: int| 0 <= i < MAX_FOLDERS ==> v.dirs[i].exist,
    ensures
        make_dir_outcome(v, name) == Err::<usize, ShellError>(ShellError::GlobalCapacityExceeded),
{
    lemma_free_slot_from(v.dirs, 0);
}

/// `remove_dir` frees the slot of the folder it removes, and the next
/// `make_dir` of a name that is not taken succeeds in that slot or in a
/// lower free one.
pub proof fn law_remove_frees_slot(v: ShellView, after: Seq<Folder>, name: Seq<u8>, other: Seq<u8>)
    requires
        v.wf(),
        remove_dir_outcome(v, name) == Ok::<(), ShellError>(()),
        removed_folder(v, after, named_link(v, name)),
        named_link(v.with_dirs(after), other) < 0,
    ensures
        ({
            let r = v.cur().children@[named_link(v, name)] as int;
            &&& !after[r].exist
            &&& make_dir_outcome(v.with_dirs(after), other) is Ok
            &&& make_dir_outcome(v.with_dirs(after), other)->Ok_0 <= r
        }),
{
    let j = named_link(v, name);
    let r = v.cur().children@[j] as int;
    lemma_named_link_from(v.dirs, v.cur().children@, logical_name(name), 0);
    assert(crate::model::link_in_range(v.cur().children@[j]));
    let nk = after[v.current].children@;
    if v.current == r || crate::model::links_to(
        crate::model::removal_kids(v, j),
        MAX_CHILDREN as int,
        v.current,
    ) {
        assert(is_vacant(after[v.current]));
        assert(nk[0] < 0);
        lemma_free_link_from(nk, 0);
    } else {
        assert(nk[j] < 0);
        lemma_free_link_from(nk, 0);
    }
    lemma_free_slot_from(after, 0);
}

} // verus!
