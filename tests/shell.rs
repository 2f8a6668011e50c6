use dir_shell::command::{get_command_args, parse_command, Command};
use dir_shell::folder::Folder;
use dir_shell::name::{name_len, same_name};
use dir_shell::{Output, Shell, ShellError};

/// Types `line` followed by a line feed; returns what the line feed printed.
fn run(sh: &mut Shell, line: &str) -> Output {
    for b in line.bytes() {
        let echo = sh.on_key_pressed(b);
        assert!(!echo.clear_screen);
        assert_eq!(echo.text, vec![b]);
    }
    sh.on_key_pressed(b'\n')
}

fn text(sh: &mut Shell, line: &str) -> String {
    String::from_utf8(run(sh, line).text).unwrap()
}

fn name(s: &str) -> [u8; 10] {
    let mut n = [0u8; 10];
    n[..s.len()].copy_from_slice(s.as_bytes());
    n
}

#[test]
fn root_exists_and_has_no_parent() {
    let mut sh = Shell::new();
    assert_eq!(text(&mut sh, "cur_dir"), "\n/root\n");
    assert_eq!(text(&mut sh, "change_dir ."), "\n[err] There is no parent folder\n");
    assert_eq!(text(&mut sh, "cur_dir"), "\n/root\n");
    assert_eq!(sh.change_dir(name(".")), Err(ShellError::NoParent));
    assert_eq!(text(&mut sh, "dir_tree"), "\nroot\n");
}

#[test]
fn make_then_change_moves_into_new_folder() {
    let mut sh = Shell::new();
    assert_eq!(text(&mut sh, "make_dir a"), "\n[ok] Created new dir 'a'\n");
    assert_eq!(text(&mut sh, "change_dir a"), "\n[ok] Changed current dir to 'a'\n");
    assert_eq!(text(&mut sh, "cur_dir"), "\n/a\n");
    assert_eq!(text(&mut sh, "change_dir ."), "\n[ok] Changed current dir to 'root'\n");
    assert_eq!(text(&mut sh, "cur_dir"), "\n/root\n");
}

#[test]
fn make_twice_collides() {
    let mut sh = Shell::new();
    assert_eq!(text(&mut sh, "make_dir a"), "\n[ok] Created new dir 'a'\n");
    let before = text(&mut sh, "dir_tree");
    assert_eq!(
        text(&mut sh, "make_dir a"),
        "\n[err] Directory with same name is already existed\n"
    );
    assert_eq!(text(&mut sh, "dir_tree"), before);
    assert_eq!(sh.make_dir(name("a")), Err(ShellError::NameCollision));
    assert_eq!(sh.find_empty_folder(), 2);
}

#[test]
fn eleventh_child_is_refused() {
    let mut sh = Shell::new();
    for i in 0..10 {
        let out = text(&mut sh, &format!("make_dir d{}", i));
        assert_eq!(out, format!("\n[ok] Created new dir 'd{}'\n", i));
    }
    assert_eq!(sh.find_empty_subfolder(), -1);
    assert_eq!(
        text(&mut sh, "make_dir d10"),
        "\n[err] You can't create more than 10 subfolders, try create subfolder in other directory\n"
    );
    assert_eq!(sh.make_dir(name("x")), Err(ShellError::ChildCapacityExceeded));
}

#[test]
fn twenty_first_folder_is_refused() {
    let mut sh = Shell::new();
    for i in 0..10 {
        assert_eq!(sh.make_dir(name(&format!("r{}", i))), Ok(i + 1));
    }
    assert_eq!(text(&mut sh, "change_dir r0"), "\n[ok] Changed current dir to 'r0'\n");
    for i in 0..9 {
        assert_eq!(sh.make_dir(name(&format!("s{}", i))), Ok(i + 11));
    }
    assert_eq!(sh.find_empty_folder(), -1);
    assert_eq!(
        text(&mut sh, "make_dir s9"),
        "\n[err] You can't create more than 20 folders\n"
    );
    assert_eq!(sh.make_dir(name("s9")), Err(ShellError::GlobalCapacityExceeded));
}

#[test]
fn removed_slot_is_reused() {
    let mut sh = Shell::new();
    assert_eq!(sh.make_dir(name("a")), Ok(1));
    assert_eq!(sh.make_dir(name("b")), Ok(2));
    assert_eq!(text(&mut sh, "remove_dir a"), "\n[ok] Successful deleted\n");
    assert_eq!(sh.find_empty_folder(), 1);
    assert_eq!(sh.find_empty_subfolder(), 0);
    assert_eq!(sh.find_child_dir_by_name(name("a")), -1);
    assert_eq!(sh.make_dir(name("c")), Ok(1));
    assert_eq!(sh.find_child_dir_by_name(name("c")), 1);
    assert_eq!(text(&mut sh, "dir_tree"), "\nroot\n c\n b\n");
}

#[test]
fn dir_tree_indents_by_depth() {
    let mut sh = Shell::new();
    text(&mut sh, "make_dir a");
    text(&mut sh, "change_dir a");
    text(&mut sh, "make_dir b");
    let out = text(&mut sh, "dir_tree");
    let lines: Vec<&str> = out.lines().collect();
    assert_eq!(lines, vec!["", "root", " a", "  b"]);
}

#[test]
fn unknown_command_is_reported() {
    let mut sh = Shell::new();
    text(&mut sh, "make_dir a");
    let before = text(&mut sh, "dir_tree");
    let out = run(&mut sh, "foo");
    assert!(!out.clear_screen);
    assert_eq!(
        String::from_utf8(out.text).unwrap(),
        "\n[err] There is no such command 'foo'\n"
    );
    assert_eq!(text(&mut sh, "dir_tree"), before);
    assert_eq!(text(&mut sh, "cur_dir"), "\n/root\n");
    assert_eq!(
        text(&mut sh, "make_dir"),
        "\n[err] There is no such command 'make_dir'\n"
    );
}

#[test]
fn missing_and_long_arguments() {
    let mut sh = Shell::new();
    assert_eq!(text(&mut sh, "make_dir "), "\n[err] This command require args\n");
    assert_eq!(text(&mut sh, "change_dir "), "\n[err] This command require args\n");
    assert_eq!(text(&mut sh, "remove_dir "), "\n[err] This command require args\n");
    assert_eq!(
        text(&mut sh, "make_dir abcdefghij"),
        "\n[err] This args too large, max length is 9\n"
    );
    assert_eq!(text(&mut sh, "make_dir abcdefghi"), "\n[ok] Created new dir 'abcdefghi'\n");
    assert_eq!(text(&mut sh, "dir_tree"), "\nroot\n abcdefghi\n");
}

#[test]
fn missing_directories_are_reported() {
    let mut sh = Shell::new();
    assert_eq!(text(&mut sh, "change_dir x"), "\n[err] There is no such directory\n");
    assert_eq!(text(&mut sh, "remove_dir x"), "\n[err] There is no such directory\n");
    assert_eq!(sh.remove_dir(name("x")), Err(ShellError::DirectoryNotFound));
    assert_eq!(sh.change_dir(name("x")), Err(ShellError::DirectoryNotFound));
}

#[test]
fn remove_frees_direct_children() {
    let mut sh = Shell::new();
    text(&mut sh, "make_dir a");
    text(&mut sh, "change_dir a");
    text(&mut sh, "make_dir b");
    text(&mut sh, "change_dir b");
    text(&mut sh, "make_dir c");
    text(&mut sh, "change_dir .");
    text(&mut sh, "change_dir .");
    assert_eq!(text(&mut sh, "dir_tree"), "\nroot\n a\n  b\n   c\n");
    assert_eq!(text(&mut sh, "remove_dir a"), "\n[ok] Successful deleted\n");
    assert_eq!(text(&mut sh, "dir_tree"), "\nroot\n");
    // the slots of `a` and `b` are free again; `c` keeps its slot
    assert_eq!(sh.make_dir(name("x")), Ok(1));
    assert_eq!(sh.make_dir(name("y")), Ok(2));
    assert_eq!(sh.make_dir(name("z")), Ok(4));
}

#[test]
fn clear_asks_for_a_clear_screen() {
    let mut sh = Shell::new();
    let out = run(&mut sh, "clear");
    assert!(out.clear_screen);
    assert!(out.text.is_empty());
}

#[test]
fn empty_line_prints_nothing() {
    let mut sh = Shell::new();
    let out = sh.on_key_pressed(b'\n');
    assert!(!out.clear_screen);
    assert!(out.text.is_empty());
}

#[test]
fn full_line_drops_further_bytes() {
    let mut sh = Shell::new();
    for _ in 0..80 {
        assert_eq!(sh.on_key_pressed(b'q').text, vec![b'q']);
    }
    let dropped = sh.on_key_pressed(b'q');
    assert!(dropped.text.is_empty());
    let out = String::from_utf8(sh.on_key_pressed(b'\n').text).unwrap();
    assert_eq!(out, format!("\n[err] There is no such command '{}'\n", "q".repeat(80)));
    assert_eq!(text(&mut sh, "cur_dir"), "\n/root\n");
}

#[test]
fn execute_keeps_the_line() {
    let mut sh = Shell::new();
    for b in "cur_dir".bytes() {
        sh.on_key_pressed(b);
    }
    let first = sh.execute_command();
    let second = sh.execute_command();
    assert_eq!(first.text, b"\n/root\n".to_vec());
    assert_eq!(second.text, first.text);
}

#[test]
fn keyword_matching_and_arguments() {
    assert_eq!(parse_command(&b"cur_dirx".to_vec()), Some(Command::CurDir));
    assert_eq!(parse_command(&b"make_dir a".to_vec()), Some(Command::MakeDir));
    assert_eq!(parse_command(&b"change_dir ..".to_vec()), Some(Command::ChangeDir));
    assert_eq!(parse_command(&b"remove_dir a".to_vec()), Some(Command::RemoveDir));
    assert_eq!(parse_command(&b"dir_tree".to_vec()), Some(Command::DirTree));
    assert_eq!(parse_command(&b"clear".to_vec()), Some(Command::Clear));
    assert_eq!(parse_command(&b"cur_di".to_vec()), None);
    assert_eq!(parse_command(&Vec::new()), None);
    assert_eq!(get_command_args(&b"make_dir ab".to_vec(), Command::MakeDir), Ok(name("ab")));
    assert_eq!(
        get_command_args(&b"make_dir ".to_vec(), Command::MakeDir),
        Err(ShellError::MissingArgument)
    );
    assert_eq!(
        get_command_args(&b"remove_dir 0123456789".to_vec(), Command::RemoveDir),
        Err(ShellError::ArgumentTooLong)
    );
}

#[test]
fn dot_prefixed_name_is_a_child() {
    let mut sh = Shell::new();
    assert_eq!(text(&mut sh, "make_dir .."), "\n[ok] Created new dir '..'\n");
    assert_eq!(text(&mut sh, "change_dir .."), "\n[ok] Changed current dir to '..'\n");
    assert_eq!(text(&mut sh, "cur_dir"), "\n/..\n");
}

#[test]
fn names_compare_by_logical_content() {
    let a = [b'a', b'b', 0, b'x', b'y', 0, 0, 0, 0, 0];
    let b = [b'a', b'b', 0, 0, 0, 0, 0, 0, 0, 0];
    let c = [b'a', b'c', 0, 0, 0, 0, 0, 0, 0, 0];
    let full = [b'q'; 10];
    assert_eq!(name_len(&a), 2);
    assert_eq!(name_len(&full), 10);
    assert!(same_name(&a, &b));
    assert!(!same_name(&a, &c));
    assert!(!same_name(&full, &b));
}

#[test]
fn folder_setters() {
    let mut f = Folder::vacant();
    assert!(!f.exist);
    assert_eq!(f.parent, -1);
    f.set_exist(true);
    f.set_parent(3);
    f.set_name(name("n"));
    assert!(f.exist);
    assert_eq!(f.parent, 3);
    assert_eq!(f.name, name("n"));
    assert_eq!(f.children, [-1; 10]);
}
