//! Recognising commands on a line, taking their argument, and the texts
//! the shell prints.

use vstd::prelude::*;
use vstd::string::StringSliceAdditionalSpecFns;
use crate::name::{NAME_CAPACITY, padded_name};
use crate::model::ShellError;

verus! {

/// Longest argument a command takes: one byte of a name buffer is kept for
/// its terminator.
pub const MAX_NAME_LEN: usize = NAME_CAPACITY - 1;

/// The commands the shell knows.
#[derive(Copy, Clone, Debug, PartialEq, Eq, Structural)]
pub enum Command {
    CurDir,
    MakeDir,
    ChangeDir,
    RemoveDir,
    DirTree,
    Clear,
}

/// The bytes a line starts with to invoke `c`. The three commands that take
/// an argument end their keyword with a space.
pub open spec fn keyword(c: Command) -> Seq<u8> {
    match c {
        Command::CurDir => "cur_dir".spec_bytes(),
        Command::MakeDir => "make_dir ".spec_bytes(),
        Command::ChangeDir => "change_dir ".spec_bytes(),
        Command::RemoveDir => "remove_dir ".spec_bytes(),
        Command::DirTree => "dir_tree".spec_bytes(),
        Command::Clear => "clear".spec_bytes(),
    }
}

/// Whether `line` starts with the bytes of `kw`.
pub open spec fn starts_with(line: Seq<u8>, kw: Seq<u8>) -> bool {
    kw.len() <= line.len() && line.take(kw.len() as int) == kw
}

/// The command a line invokes: the first keyword, in table order, that the
/// line starts with.
pub open spec fn parse(line: Seq<u8>) -> Option<Command> {
    if starts_with(line, keyword(Command::CurDir)) {
        Some(Command::CurDir)
    } else if starts_with(line, keyword(Command::MakeDir)) {
        Some(Command::MakeDir)
    } else if starts_with(line, keyword(Command::ChangeDir)) {
        Some(Command::ChangeDir)
    } else if starts_with(line, keyword(Command::RemoveDir)) {
        Some(Command::RemoveDir)
    } else if starts_with(line, keyword(Command::DirTree)) {
        Some(Command::DirTree)
    } else if starts_with(line, keyword(Command::Clear)) {
        Some(Command::Clear)
    } else {
        None
    }
}

/// The argument of `c` on `line`: what follows the keyword, when there is
/// something and it fits a name.
pub open spec fn argument(line: Seq<u8>, c: Command) -> Result<Seq<u8>, ShellError> {
    let n = keyword(c).len();
    if line.len() <= n {
        Err(ShellError::MissingArgument)
    } else if line.len() - n > MAX_NAME_LEN {
        Err(ShellError::ArgumentTooLong)
    } else {
        Ok(line.subrange(n as int, line.len() as int))
    }
}

/// The keyword of `c`.
pub fn keyword_bytes(c: Command) -> (r: &'static [u8])
    ensures
        r@ == keyword(c),
{
    match c {
        Command::CurDir => "cur_dir".as_bytes(),
        Command::MakeDir => "make_dir ".as_bytes(),
        Command::ChangeDir => "change_dir ".as_bytes(),
        Command::RemoveDir => "remove_dir ".as_bytes(),
        Command::DirTree => "dir_tree".as_bytes(),
        Command::Clear => "clear".as_bytes(),
    }
}

/// Whether `line` starts with the bytes of `kw`.
fn line_starts_with(line: &Vec<u8>, kw: &[u8]) -> (r: bool)
    ensures
        r == starts_with(line@, kw@),
{
    if kw.len() > line.len() {
        return false;
    }
    let mut i: usize = 0;
    while i < kw.len()
        invariant
            0 <= i <= kw@.len() <= line@.len(),
            forall|j: int| 0 <= j < i ==> line@[j] == kw@[j],
        decreases kw@.len() - i,
    {
        if line[i] != kw[i] {
            assert(line@.take(kw@.len() as int)[i as int] != kw@[i as int]);
            return false;
        }
        i = i + 1;
    }
    assert(line@.take(kw@.len() as int) =~= kw@);
    true
}

/// The command that `line` invokes, or `None`.
pub fn parse_command(line: &Vec<u8>) -> (r: Option<Command>)
    ensures
        r == parse(line@),
{
    if line_starts_with(line, keyword_bytes(Command::CurDir)) {
        Some(Command::CurDir)
    } else if line_starts_with(line, keyword_bytes(Command::MakeDir)) {
        Some(Command::MakeDir)
    } else if line_starts_with(line, keyword_bytes(Command::ChangeDir)) {
        Some(Command::ChangeDir)
    } else if line_starts_with(line, keyword_bytes(Command::RemoveDir)) {
        Some(Command::RemoveDir)
    } else if line_starts_with(line, keyword_bytes(Command::DirTree)) {
        Some(Command::DirTree)
    } else if line_starts_with(line, keyword_bytes(Command::Clear)) {
        Some(Command::Clear)
    } else {
        None
    }
}

/// The argument of `command` on `line`, as a zero-padded name buffer.
pub fn get_command_args(line: &Vec<u8>, command: Command) -> (r: Result<[u8; NAME_CAPACITY], ShellError>)
    ensures
        match argument(line@, command) {
            Ok(s) => r is Ok && r->Ok_0@ == padded_name(s),
            Err(e) => r == Err::<[u8; NAME_CAPACITY], ShellError>(e),
        },
{
    let n = keyword_bytes(command).len();
    if line.len() <= n {
        return Err(ShellError::MissingArgument);
    }
    if line.len() - n > MAX_NAME_LEN {
        return Err(ShellError::ArgumentTooLong);
    }
    let ghost s = line@.subrange(n as int, line@.len() as int);
    let mut result: [u8; NAME_CAPACITY] = [0u8; NAME_CAPACITY];
    let mut i: usize = 0;
    let total = line.len();
    let len = total - n;
    while i < len
        invariant
            total == line@.len(),
            len == line@.len() - n,
            s.len() == len,
            n < line@.len() <= n + MAX_NAME_LEN,
            s == line@.subrange(n as int, line@.len() as int),
            0 <= i <= s.len(),
            result@.len() == NAME_CAPACITY,
            forall|j: int| 0 <= j < i ==> result@[j] == s[j],
            forall|j: int| i <= j < NAME_CAPACITY ==> result@[j] == 0,
        decreases len - i,
    {
        result[i] = line[n + i];
        i = i + 1;
    }
    assert(result@ =~= padded_name(s));
    Ok(result)
}

/// What the shell prints when a line fails with `e`; `line` is the line.
pub open spec fn error_text(e: ShellError, line: Seq<u8>) -> Seq<u8> {
    match e {
        ShellError::UnknownCommand => "\n[err] There is no such command '".spec_bytes() + line
            + "'\n".spec_bytes(),
        ShellError::MissingArgument => "\n[err] This command require args\n".spec_bytes(),
        ShellError::ArgumentTooLong => "\n[err] This args too large, max length is 9\n".spec_bytes(),
        ShellError::NameCollision => "\n[err] Directory with same name is already existed\n".spec_bytes(),
        ShellError::ChildCapacityExceeded =>
            "\n[err] You can't create more than 10 subfolders, try create subfolder in other directory\n".spec_bytes(),
        ShellError::GlobalCapacityExceeded => "\n[err] You can't create more than 20 folders\n".spec_bytes(),
        ShellError::NoParent => "\n[err] There is no parent folder\n".spec_bytes(),
        ShellError::DirectoryNotFound => "\n[err] There is no such directory\n".spec_bytes(),
    }
}

/// What `cur_dir` prints for a folder named `name`.
pub open spec fn cur_dir_text(name: Seq<u8>) -> Seq<u8> {
    "\n/".spec_bytes() + name + "\n".spec_bytes()
}

/// What `make_dir` prints once it created a folder named `name`.
pub open spec fn created_text(name: Seq<u8>) -> Seq<u8> {
    "\n[ok] Created new dir '".spec_bytes() + name + "'\n".spec_bytes()
}

/// What `change_dir` prints once it moved to a folder named `name`.
pub open spec fn changed_text(name: Seq<u8>) -> Seq<u8> {
    "\n[ok] Changed current dir to '".spec_bytes() + name + "'\n".spec_bytes()
}

/// What `remove_dir` prints once it removed a folder.
pub open spec fn removed_text() -> Seq<u8> {
    "\n[ok] Successful deleted\n".spec_bytes()
}

/// Appends the bytes of `s` to `out`.
pub fn push_str(out: &mut Vec<u8>, s: &str)
    ensures
        final(out)@ == old(out)@ + s.spec_bytes(),
{
    let b = s.as_bytes();
    let ghost base = out@;
    let mut i: usize = 0;
    while i < b.len()
        invariant
            0 <= i <= b@.len(),
            b@ == s.spec_bytes(),
            out@ == base + b@.take(i as int),
        decreases b@.len() - i,
    {
        out.push(b[i]);
        assert(b@.take(i + 1) =~= b@.take(i as int).push(b@[i as int]));
        i = i + 1;
    }
    assert(b@.take(b@.len() as int) =~= b@);
}

/// Appends the bytes of `s` to `out`.
pub fn push_bytes(out: &mut Vec<u8>, s: &Vec<u8>)
    ensures
        final(out)@ == old(out)@ + s@,
{
    let ghost base = out@;
    let mut i: usize = 0;
    while i < s.len()
        invariant
            0 <= i <= s@.len(),
            out@ == base + s@.take(i as int),
        decreases s@.len() - i,
    {
        out.push(s[i]);
        assert(s@.take(i + 1) =~= s@.take(i as int).push(s@[i as int]));
        i = i + 1;
    }
    assert(s@.take(s@.len() as int) =~= s@);
}

/// Appends to `out` what the shell prints when `line` fails with `e`.
pub fn push_error(out: &mut Vec<u8>, e: ShellError, line: &Vec<u8>)
    ensures
        final(out)@ == old(out)@ + error_text(e, line@),
{
    match e {
        ShellError::UnknownCommand => {
            push_str(out, "\n[err] There is no such command '");
            push_bytes(out, line);
            push_str(out, "'\n");
            assert(out@ =~= old(out)@ + error_text(e, line@));
        },
        ShellError::MissingArgument => push_str(out, "\n[err] This command require args\n"),
        ShellError::ArgumentTooLong => push_str(out, "\n[err] This args too large, max length is 9\n"),
        ShellError::NameCollision => push_str(out, "\n[err] Directory with same name is already existed\n"),
        ShellError::ChildCapacityExceeded => push_str(
            out,
            "\n[err] You can't create more than 10 subfolders, try create subfolder in other directory\n",
        ),
        ShellError::GlobalCapacityExceeded => push_str(out, "\n[err] You can't create more than 20 folders\n"),
        ShellError::NoParent => push_str(out, "\n[err] There is no parent folder\n"),
        ShellError::DirectoryNotFound => push_str(out, "\n[err] There is no such directory\n"),
    }
}

} // verus!
