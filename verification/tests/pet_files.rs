use home_dir::HomeDirExt;
use std::io::BufRead;
use pets::actions::package_manager::PackageManager;
use pets::actions::{Action, Cause, Outcome, Package};
use pets::pet_files::mode::Mode;
use pets::pet_files::{
    extract_modeline, is_found_under, is_git_dir, is_walked, load, takes_up, parse_key_value, parse_multiple_key_value,
    process_pets_file, read_modelines, Destination, DirectoryWalker, Facts, Identity, Modelines,
    Observed, PackageFacts, ParseError, PathState, PetsFile, SourceFile, Stat,
};

fn strings(words: &[&str]) -> Vec<String> {
    words.iter().map(|w| w.to_string()).collect()
}

fn file(path: &str, content: &str) -> SourceFile {
    SourceFile { path: Ok(path.to_string()), content: Ok(content.as_bytes().to_vec()) }
}

fn absent() -> Observed {
    Observed {
        directory: PathState::Missing,
        link: PathState::Missing,
        stat: Stat::Missing,
        sha_source: None,
        sha_dest: None,
    }
}

fn spec(dest: &str, link: bool) -> PetsFile {
    PetsFile {
        source: "/cfg/vimrc".to_string(),
        dest: Destination::at(dest.to_string(), Some("/home/u".to_string()), link, false),
        pkgs: Vec::new(),
        user: None,
        group: None,
        mode: Mode::default(),
        pre: None,
        post: None,
    }
}

fn ran(code: i32) -> Outcome {
    Outcome::Exited { code: Some(code), stdout: Vec::new(), stderr: Vec::new() }
}

// ---- mode ----

#[test]
fn test_mode_try_from_valid() {
    let input = "644".to_string();
    let mode = Mode::try_from(&input);
    assert!(mode.is_ok());
    assert_eq!(mode.unwrap().0, 0o644);
}

#[test]
fn test_mode_try_from_invalid() {
    let input = "999".to_string();
    let mode = Mode::try_from(&input);
    assert!(mode.is_err());
    match mode.unwrap_err() {
        ParseError::InvalidFileMode(m) => assert_eq!(m, "999"),
        _ => panic!("Expected InvalidFileMode error"),
    }
}

#[test]
fn test_mode_is_empty() {
    let empty_mode = Mode::default();
    let non_empty_mode = Mode::try_from(&"644".to_string());

    assert!(empty_mode.is_empty());
    assert!(!non_empty_mode.unwrap().is_empty());
}

#[test]
fn test_mode_leading_zero() {
    let mode = Mode::try_from(&"0644".to_string());
    assert!(mode.is_ok());
    assert_eq!(mode.unwrap().0, 0o644);
}

#[test]
fn mode_edges() {
    assert_eq!(Mode::try_from(&"777".to_string()).unwrap().0, 0o777);
    assert_eq!(Mode::try_from(&"0007".to_string()).unwrap().0, 7);
    assert_eq!(Mode::try_from(&"00000755".to_string()).unwrap().0, 0o755);
    assert_eq!(Mode::try_from(&"+644".to_string()).unwrap().0, 0o644);
    assert_eq!(Mode::try_from(&"+0644".to_string()).unwrap().0, 0o644);
    assert_eq!(Mode::try_from(&"00+7".to_string()).unwrap().0, 7);
    assert_eq!(Mode::try_from(&"+000000000000000000000000000000755".to_string()).unwrap().0, 0o755);
    assert!(Mode::try_from(&"+0".to_string()).unwrap().is_empty());
    for bad in ["", "0", "000", "1000", "0o644", "64a", " 644", "8", "-1", "+", "0+", "++1", "+-1",
        "+1000", "644+", "77777777777777777777777777777777", "+ 7"] {
        assert_eq!(
            Mode::try_from(&bad.to_string()).unwrap_err(),
            ParseError::InvalidFileMode(bad.to_string())
        );
    }
}

#[test]
fn mode_is_rendered_as_four_octal_digits() {
    assert_eq!(Mode(0o644).to_string(), "0644");
    assert_eq!(Mode(0o755).to_string(), "0755");
    assert_eq!(Mode(0o7).to_string(), "0007");
    assert_eq!(Mode(0o777).to_string(), "0777");
    assert_eq!(Mode(0).to_string(), "0000");
}

#[test]
fn mode_compares_the_lowest_nine_bits() {
    assert!(Mode(0o644).eq(&0o100644));
    assert!(Mode(0o644).eq(&0o644));
    assert!(!Mode(0o644).eq(&0o100755));
    assert!(Mode(0o755).eq(&0o40755));
}

// ---- parser ----

#[test]
fn test_parse_key_value() {
    assert_eq!(
        parse_key_value("key = value").unwrap(),
        ("key".to_string(), "value".to_string())
    );
}

#[test]
fn test_extract_modeline() {
    assert_eq!(
        extract_modeline("# pets: key=value".to_string()).unwrap(),
        " key=value".to_string()
    );
}

#[test]
fn test_parse_multiple_key_value() {
    let content = "key1=value1, key2=value2";
    let expected = vec![
        ("key1".to_string(), "value1".to_string()),
        ("key2".to_string(), "value2".to_string()),
    ];
    assert_eq!(
        parse_multiple_key_value(content)
            .into_iter()
            .collect::<Result<Vec<_>, _>>()
            .unwrap(),
        expected
    );
}

#[test]
fn test_multiple_modelines() {
    let content = "# pets: package=yay:i3lock-color\n# pets: symlink=~/.config/i3/i3lock.sh, owner=butlerx, group=butlerx, mode=0755 \n";
    let actual = read_modelines(&content.as_bytes().to_vec()).unwrap();
    assert_eq!(actual.get("package"), vec!["yay:i3lock-color".to_string()]);
    assert_eq!(actual.get("symlink"), vec!["~/.config/i3/i3lock.sh".to_string()]);
    assert_eq!(actual.get("owner"), vec!["butlerx".to_string()]);
    assert_eq!(actual.get("group"), vec!["butlerx".to_string()]);
    assert_eq!(actual.get("mode"), vec!["0755".to_string()]);
    assert_eq!(actual.pairs.len(), 5);
}

#[test]
fn test_invalid_modeline() {
    let actual = read_modelines(&b"pets: foo=bar, invalid modeline\n".to_vec()).unwrap_err();
    assert!(matches!(actual, ParseError::InvalidKeyword(_)));
    assert_eq!(actual, ParseError::InvalidKeyword("invalid modeline".to_string()));
}

#[test]
fn key_value_splits_at_the_first_equals_sign() {
    assert_eq!(
        parse_key_value("pre = /usr/sbin/sshd -t -o a=b -f ").unwrap(),
        ("pre".to_string(), "/usr/sbin/sshd -t -o a=b -f".to_string())
    );
    assert_eq!(parse_key_value("=").unwrap(), (String::new(), String::new()));
    assert_eq!(
        parse_key_value("no separator"),
        Err(ParseError::InvalidKeyword("no separator".to_string()))
    );
}

#[test]
fn modeline_without_marker_is_invalid() {
    assert_eq!(
        extract_modeline("# vim: set ft=sh".to_string()),
        Err(ParseError::InvalidModeline("# vim: set ft=sh".to_string()))
    );
    assert_eq!(extract_modeline("pets:pets: x".to_string()).unwrap(), "pets: x");
}

#[test]
fn empty_directives_are_passed_over() {
    let items = parse_multiple_key_value(" a=1,, \t ,b = 2 ,");
    assert_eq!(
        items,
        vec![
            Ok(("a".to_string(), "1".to_string())),
            Ok(("b".to_string(), "2".to_string())),
        ]
    );
    let mixed = parse_multiple_key_value("a=1, oops, b=2");
    assert_eq!(mixed.len(), 3);
    assert_eq!(mixed[1], Err(ParseError::InvalidKeyword("oops".to_string())));
    assert_eq!(mixed[2], Ok(("b".to_string(), "2".to_string())));
    assert!(parse_multiple_key_value("").is_empty());
}

#[test]
fn modelines_keep_their_order_and_repeat_keys() {
    let content = "#!/bin/sh\n# pets: package=vim, destfile=/etc/a\r\nbody\n; pets: package=cargo:exa\nlast pets: mode=644";
    let found = read_modelines(&content.as_bytes().to_vec()).unwrap();
    assert_eq!(
        found.pairs,
        vec![
            ("package".to_string(), "vim".to_string()),
            ("destfile".to_string(), "/etc/a".to_string()),
            ("package".to_string(), "cargo:exa".to_string()),
            ("mode".to_string(), "644".to_string()),
        ]
    );
    assert_eq!(found.get("package"), vec!["vim", "cargo:exa"]);
    assert_eq!(found.first("package"), Some("vim".to_string()));
    assert_eq!(found.first("owner"), None);
    assert!(found.get("owner").is_empty());
    assert!(!found.is_empty());
}

#[test]
fn file_without_modelines_is_empty() {
    assert!(read_modelines(&b"just text\nand more\n".to_vec()).unwrap().is_empty());
    assert!(read_modelines(&Vec::new()).unwrap().is_empty());
    assert_eq!(read_modelines(&Vec::new()).unwrap(), Modelines { pairs: Vec::new() });
}

#[test]
fn reading_stops_at_a_line_that_is_not_utf8() {
    let mut content = b"# pets: destfile=/etc/a\n".to_vec();
    content.extend_from_slice(&[0xff, 0xfe, b'\n']);
    content.extend_from_slice(b"# pets: mode=644\n");
    let found = read_modelines(&content).unwrap();
    assert_eq!(found.pairs, vec![("destfile".to_string(), "/etc/a".to_string())]);

    let mut broken = vec![0xc3, b'\n'];
    broken.extend_from_slice(b"# pets: destfile=/etc/a, oops\n");
    assert!(read_modelines(&broken).unwrap().is_empty());
}

#[test]
fn first_invalid_directive_is_the_error() {
    let content = b"# pets: a=1\n# pets: b=2, bad one, worse\n# pets: also bad\n".to_vec();
    assert_eq!(
        read_modelines(&content),
        Err(ParseError::InvalidKeyword("bad one".to_string()))
    );
}

// ---- destination ----

#[test]
fn test_destination_from_string_conversion() {
    let dest_path = "test/path".to_string();
    let dest = Destination::new(&dest_path, false, false);

    assert_eq!(dest.to_string(), dest_path);
    assert_eq!(dest.directory(), "test");
    assert!(!dest.is_symlink());
}

#[test]
fn test_destination_needs_link_creation() {
    let dest_path = "/tmp/pets/link_path".to_string();
    let source_path = "/tmp/pets/source_file".to_string();

    let dest = Destination::new(&dest_path, true, false);

    assert_eq!(
        dest.needs_link(&source_path, &PathState::Missing).unwrap(),
        Action::new(
            Cause::Link,
            vec![
                String::from("ln"),
                String::from("-s"),
                source_path.clone(),
                dest_path.clone()
            ]
        )
    );
}

#[test]
fn test_destination_needs_link_exists() {
    let dest_path = "/tmp/pets/link_path".to_string();
    let source_path = "/tmp/pets/source_file";

    let dest = Destination::new(&dest_path, true, false);
    let found = PathState::Symlink(Some(source_path.to_string()));
    assert_eq!(dest.needs_link(source_path, &found), None);
}

#[test]
fn test_destination_needs_dir_creation() {
    let dest_path = "/tmp/pets/non_existing_dir/path".to_string();
    let dest = Destination::new(&dest_path, false, false);

    assert_eq!(
        dest.needs_dir(&PathState::Missing).unwrap(),
        Action::new(
            Cause::Dir,
            vec![
                String::from("mkdir"),
                String::from("-p"),
                "/tmp/pets/non_existing_dir".to_string()
            ]
        )
    );
}

#[test]
fn test_destination_needs_dir_exists() {
    let dest = Destination::new(&"/tmp/pets/existing_dir/file".to_string(), false, false);
    assert_eq!(dest.needs_dir(&PathState::Directory), None);
}

#[test]
fn test_destination_needs_copy_creation() {
    let source_file = "/tmp/pets/source_file.txt";
    let dest_file = "/tmp/pets/dest_file.txt".to_string();
    let dest = Destination::new(&dest_file, false, false);

    assert_eq!(
        dest.needs_copy(source_file, false, &None, &None).unwrap(),
        Action::new(
            Cause::Create,
            vec![String::from("cp"), source_file.to_string(), dest_file.clone()]
        )
    );
}

#[test]
fn test_destination_needs_copy_update() {
    let source_file = "/tmp/pets/source_file.txt";
    let dest_file = "/tmp/pets/dest_file.txt".to_string();
    let dest = Destination::new(&dest_file, false, false);
    let new_content = Some(b"new content".to_vec());
    let old_content = Some(b"old content".to_vec());

    assert_eq!(
        dest.needs_copy(source_file, true, &new_content, &old_content).unwrap(),
        Action::new(
            Cause::Update,
            vec![String::from("cp"), source_file.to_string(), dest_file.clone()]
        )
    );
}

#[test]
fn test_destination_needs_copy_no_update_needed() {
    let source_file = "/tmp/pets/source_file.txt";
    let dest_file = "/tmp/pets/dest_file.txt".to_string();
    let dest = Destination::new(&dest_file, false, false);
    let same = Some(b"same content".to_vec());

    assert_eq!(dest.needs_copy(source_file, true, &same, &same.clone()), None);
}

#[test]
fn copy_follows_the_content_alone() {
    let dest = Destination::at("/etc/x".to_string(), Some("/etc".to_string()), false, false);
    let a = Some(vec![1u8, 2, 3]);
    let one_byte_off = Some(vec![1u8, 2, 4]);
    let longer = Some(vec![1u8, 2, 3, 0]);
    assert_eq!(dest.needs_copy("/cfg/x", true, &a, &a.clone()), None);
    assert_eq!(dest.needs_copy("/cfg/x", true, &a, &one_byte_off).unwrap().cause, Cause::Update);
    assert_eq!(dest.needs_copy("/cfg/x", true, &a, &longer).unwrap().cause, Cause::Update);
    assert_eq!(dest.needs_copy("/cfg/x", false, &a, &a.clone()).unwrap().cause, Cause::Create);
    assert_eq!(dest.needs_copy("/cfg/x", true, &None, &a), None);
    assert_eq!(dest.needs_copy("/cfg/x", true, &a, &None), None);
    let link = Destination::at("/etc/x".to_string(), Some("/etc".to_string()), true, false);
    assert_eq!(link.needs_copy("/cfg/x", false, &None, &None), None);
    assert_eq!(link.needs_copy("/cfg/x", true, &a, &one_byte_off), None);
}

#[test]
fn link_conflicts_are_left_alone() {
    let dest = Destination::at("/etc/x".to_string(), Some("/etc".to_string()), true, false);
    let elsewhere = PathState::Symlink(Some("/somewhere/else".to_string()));
    assert_eq!(dest.needs_link("/cfg/x", &elsewhere), None);
    assert_eq!(dest.needs_link("/cfg/x", &PathState::Symlink(None)), None);
    assert_eq!(dest.needs_link("/cfg/x", &PathState::File), None);
    assert_eq!(dest.needs_link("/cfg/x", &PathState::Directory), None);
    assert_eq!(dest.needs_link("/cfg/x", &PathState::Unreadable), None);
    let copy = Destination::at("/etc/x".to_string(), Some("/etc".to_string()), false, false);
    assert_eq!(copy.needs_link("/cfg/x", &PathState::Missing), None);
    let nowhere = Destination::at(String::new(), None, true, false);
    assert_eq!(nowhere.needs_link("/cfg/x", &PathState::Missing), None);
}

#[test]
fn directory_conflicts_are_left_alone() {
    let dest = Destination::at("/etc/x".to_string(), Some("/etc".to_string()), false, false);
    assert_eq!(dest.needs_dir(&PathState::File), None);
    assert_eq!(dest.needs_dir(&PathState::Symlink(None)), None);
    assert_eq!(dest.needs_dir(&PathState::Unreadable), None);
    let bare = Destination::at("x".to_string(), Some(String::new()), false, false);
    assert_eq!(bare.needs_dir(&PathState::Missing), None);
    assert_eq!(bare.directory(), "");
    let root = Destination::at("/".to_string(), None, false, false);
    assert_eq!(root.directory(), "");
}

#[test]
fn directory_source_is_the_parent_of_the_file() {
    let dest = Destination::at("/etc/app".to_string(), Some("/etc".to_string()), true, true);
    assert_eq!(dest.origin_of("/cfg/app/app.conf"), "/cfg/app");
    assert_eq!(dest.origin_of("/"), "/");
    assert_eq!(
        dest.needs_link("/cfg/app/app.conf", &PathState::Missing).unwrap().command,
        vec!["ln", "-s", "/cfg/app", "/etc/app"]
    );
    let copy = Destination::at("/etc/app".to_string(), Some("/etc".to_string()), false, true);
    assert_eq!(
        copy.needs_copy("/cfg/app/app.conf", false, &None, &None).unwrap().command,
        vec!["cp", "/cfg/app", "/etc/app"]
    );
    let plain = Destination::at("/etc/app".to_string(), Some("/etc".to_string()), true, false);
    assert_eq!(plain.origin_of("/cfg/app/app.conf"), "/cfg/app/app.conf");
}

#[test]
fn home_is_expanded() {
    let expected = "~/.vimrc".expand_home().unwrap();
    let dest = Destination::new(&"~/.vimrc".to_string(), false, false);
    assert_eq!(dest.to_string(), expected.to_string_lossy());
    assert_ne!(dest.to_string(), "~/.vimrc");
    assert_eq!(dest.directory(), expected.parent().unwrap().to_string_lossy());
    let nul = Destination::new(&"~ro\0ot/x".to_string(), false, false);
    assert_eq!(nul.to_string(), "~ro\0ot/x");
    assert_eq!(nul.directory(), "~ro\0ot");
    let unknown = Destination::new(&"~no-such-user-here/x".to_string(), true, false);
    assert_eq!(unknown.to_string(), "~no-such-user-here/x");
    assert_eq!(unknown.directory(), "~no-such-user-here");
    assert!(unknown.is_symlink());
}

// ---- owner and mode ----

#[test]
fn owner_argument_forms() {
    let mut pf = spec("/home/u/.vimrc", false);
    assert_eq!(pf.chown(&Stat::Missing), None);
    pf.user = Some(Identity { name: "root".to_string(), id: 0 });
    assert_eq!(
        pf.chown(&Stat::Missing).unwrap(),
        Action::new(Cause::Owner, strings(&["chown", "root", "/home/u/.vimrc"]))
    );
    pf.group = Some(Identity { name: "staff".to_string(), id: 50 });
    assert_eq!(
        pf.chown(&Stat::Missing).unwrap().command,
        vec!["chown", "root:staff", "/home/u/.vimrc"]
    );
    pf.user = None;
    assert_eq!(
        pf.chown(&Stat::Missing).unwrap().command,
        vec!["chown", "staff", "/home/u/.vimrc"]
    );
    pf.user = Some(Identity { name: String::new(), id: 7 });
    assert_eq!(
        pf.chown(&Stat::Missing).unwrap().command,
        vec!["chown", "staff", "/home/u/.vimrc"]
    );
    pf.group = None;
    assert_eq!(pf.chown(&Stat::Missing), None);
}

#[test]
fn owner_is_set_only_where_it_differs() {
    let mut pf = spec("/home/u/.vimrc", false);
    pf.user = Some(Identity { name: "root".to_string(), id: 0 });
    pf.group = Some(Identity { name: "staff".to_string(), id: 50 });
    assert_eq!(pf.chown(&Stat::Present { uid: 0, gid: 50, mode: 0o100644 }), None);
    assert!(pf.chown(&Stat::Present { uid: 1000, gid: 50, mode: 0o100644 }).is_some());
    assert!(pf.chown(&Stat::Present { uid: 0, gid: 0, mode: 0o100644 }).is_some());
    assert_eq!(pf.chown(&Stat::Unreadable), None);
    pf.group = None;
    assert_eq!(pf.chown(&Stat::Present { uid: 0, gid: 7, mode: 0 }), None);
}

#[test]
fn mode_is_set_only_where_it_differs() {
    let mut pf = spec("/home/u/.vimrc", false);
    assert_eq!(pf.chmod(&Stat::Missing), None);
    pf.mode = Mode(0o644);
    assert_eq!(
        pf.chmod(&Stat::Missing).unwrap(),
        Action::new(Cause::Mode, strings(&["chmod", "0644", "/home/u/.vimrc"]))
    );
    assert_eq!(pf.chmod(&Stat::Present { uid: 0, gid: 0, mode: 0o100644 }), None);
    assert!(pf.chmod(&Stat::Present { uid: 0, gid: 0, mode: 0o100600 }).is_some());
    assert_eq!(pf.chmod(&Stat::Unreadable), None);
}

// ---- per-file plan ----

#[test]
fn end_to_end_example() {
    let mut pf = spec("/home/u/.vimrc", false);
    pf.mode = Mode::try_from(&"0644".to_string()).unwrap();
    assert_eq!(
        pf.actions(&absent()),
        vec![
            Action::new(Cause::Dir, strings(&["mkdir", "-p", "/home/u"])),
            Action::new(Cause::Create, strings(&["cp", "/cfg/vimrc", "/home/u/.vimrc"])),
            Action::new(Cause::Mode, strings(&["chmod", "0644", "/home/u/.vimrc"])),
        ]
    );
}

#[test]
fn post_comes_first_and_only_with_a_change() {
    let mut pf = spec("/home/u/.vimrc", false);
    pf.post = Some(strings(&["systemctl", "reload", "x"]));
    pf.user = Some(Identity { name: "u".to_string(), id: 1000 });
    pf.mode = Mode(0o600);
    let causes: Vec<Cause> = pf.actions(&absent()).iter().map(|a| a.cause).collect();
    assert_eq!(causes, vec![Cause::Post, Cause::Dir, Cause::Create, Cause::Owner, Cause::Mode]);
    assert_eq!(pf.actions(&absent())[0].command, vec!["systemctl", "reload", "x"]);

    let converged = Observed {
        directory: PathState::Directory,
        link: PathState::File,
        stat: Stat::Present { uid: 1000, gid: 1000, mode: 0o100600 },
        sha_source: Some(vec![9, 9]),
        sha_dest: Some(vec![9, 9]),
    };
    assert!(pf.actions(&converged).is_empty());
}

#[test]
fn converged_link_needs_nothing() {
    let mut pf = spec("/home/u/.vimrc", true);
    pf.post = Some(strings(&["true"]));
    pf.mode = Mode(0o644);
    let causes: Vec<Cause> = pf.actions(&absent()).iter().map(|a| a.cause).collect();
    assert_eq!(causes, vec![Cause::Post, Cause::Dir, Cause::Link, Cause::Mode]);
    let converged = Observed {
        directory: PathState::Directory,
        link: PathState::Symlink(Some("/cfg/vimrc".to_string())),
        stat: Stat::Present { uid: 0, gid: 0, mode: 0o100644 },
        sha_source: None,
        sha_dest: None,
    };
    assert!(pf.actions(&converged).is_empty());
}

#[test]
fn symlink_conflict_plans_no_link() {
    let pf = spec("/home/u/.vimrc", true);
    let conflict = Observed {
        directory: PathState::Directory,
        link: PathState::Symlink(Some("/other/target".to_string())),
        stat: Stat::Missing,
        sha_source: None,
        sha_dest: None,
    };
    assert_eq!(pf.dest.needs_link(&pf.source, &conflict.link), None);
    assert!(pf.actions(&conflict).iter().all(|a| a.cause != Cause::Link));
    assert!(pf.actions(&conflict).is_empty());
}

// ---- validation of one file ----

#[test]
fn pre_command_gets_the_source_appended() {
    let mut pf = spec("/etc/ssh/sshd_config", false);
    assert_eq!(pf.pre_command(), None);
    pf.pre = Some(strings(&["/usr/sbin/sshd", "-t", "-f"]));
    assert_eq!(pf.pre_command().unwrap(), vec!["/usr/sbin/sshd", "-t", "-f", "/cfg/vimrc"]);
}

#[test]
fn pre_check_outcomes() {
    let mut pf = spec("/etc/ssh/sshd_config", false);
    assert!(pf.run_pre(true, &None));
    assert!(pf.run_pre(false, &Some(ran(1))));
    pf.pre = Some(strings(&["sshd", "-t", "-f"]));
    assert!(pf.run_pre(true, &Some(ran(0))));
    assert!(!pf.run_pre(true, &Some(ran(1))));
    assert!(!pf.run_pre(true, &None));
    let missing = Outcome::SpawnFailed { not_found: true, message: "not found".to_string() };
    let denied = Outcome::SpawnFailed { not_found: false, message: "denied".to_string() };
    assert!(pf.run_pre(true, &Some(missing.clone())));
    assert!(!pf.run_pre(false, &Some(missing)));
    assert!(!pf.run_pre(true, &Some(denied)));
}

#[test]
fn file_is_valid_with_known_packages_and_passing_pre() {
    let mut pf = spec("/etc/x", false);
    pf.pkgs = vec![Package::new("vim".to_string(), &PackageManager::Apt)];
    pf.pre = Some(strings(&["check"]));
    let known = Outcome::Exited { code: Some(0), stdout: b"vim:\n".to_vec(), stderr: Vec::new() };
    let unknown = Outcome::Exited { code: Some(0), stdout: Vec::new(), stderr: Vec::new() };
    let facts = |info: &Outcome, pre: Option<Outcome>| Facts {
        packages: vec![PackageFacts { info: info.clone(), installed: ran(0) }],
        observed: absent(),
        pre,
    };
    assert!(pf.wants_pre(&absent()));
    assert!(pf.is_valid(&facts(&known, Some(ran(0)))));
    assert!(!pf.is_valid(&facts(&known, Some(ran(2)))));
    assert!(!pf.is_valid(&facts(&unknown, Some(ran(0)))));
    let no_answers = Facts { packages: Vec::new(), observed: absent(), pre: Some(ran(0)) };
    assert!(!pf.is_valid(&no_answers));

    let unchanged = Observed {
        directory: PathState::Directory,
        link: PathState::File,
        stat: Stat::Present { uid: 0, gid: 0, mode: 0o644 },
        sha_source: Some(vec![1]),
        sha_dest: Some(vec![1]),
    };
    assert!(!pf.wants_pre(&unchanged));
    let failing_pre_unneeded = Facts {
        packages: vec![PackageFacts { info: known, installed: ran(0) }],
        observed: unchanged,
        pre: Some(ran(2)),
    };
    assert!(pf.is_valid(&failing_pre_unneeded));
}

#[test]
fn accessors_give_what_was_declared() {
    let mut pf = spec("/home/u/.vimrc", false);
    pf.pkgs = vec![Package::new("cargo:exa".to_string(), &PackageManager::Apt)];
    assert_eq!(pf.destination(), "/home/u/.vimrc");
    assert_eq!(pf.source(), "/cfg/vimrc");
    assert_eq!(pf.packages().len(), 1);
    assert_eq!(pf.packages()[0].name, "exa");
}

// ---- loading ----

#[test]
fn configuration_file_is_assembled_from_its_directives() {
    let content = "# pets: destfile=/etc/ssh/sshd_config, owner=root, group=root, mode=0644\n# pets: package=ssh  apt:openssh-server, package=cargo:exa\n# pets: pre=/usr/sbin/sshd -t -f, post= systemctl  reload ssh \n";
    let pf = PetsFile::try_from(&file("/cfg/ssh/sshd_config", content), &PackageManager::Yum).unwrap();
    assert_eq!(pf.source, "/cfg/ssh/sshd_config");
    assert_eq!(pf.dest.dest, "/etc/ssh/sshd_config");
    assert_eq!(pf.dest.directory, "/etc/ssh");
    assert!(!pf.dest.link);
    assert!(!pf.dest.is_dir);
    assert_eq!(pf.mode.0, 0o644);
    assert_eq!(
        pf.pkgs,
        vec![
            Package { name: "ssh".to_string(), package_manager: PackageManager::Yum },
            Package { name: "openssh-server".to_string(), package_manager: PackageManager::Apt },
            Package { name: "exa".to_string(), package_manager: PackageManager::Cargo },
        ]
    );
    assert_eq!(pf.pre, Some(strings(&["/usr/sbin/sshd", "-t", "-f"])));
    assert_eq!(pf.post, Some(strings(&["systemctl", "reload", "ssh"])));
    assert_eq!(pf.user, Some(Identity { name: "root".to_string(), id: 0 }));
    assert_eq!(pf.group.unwrap().id, 0);
}

#[test]
fn symlink_is_taken_where_no_destfile_is_given() {
    let pf = PetsFile::try_from(
        &file("/cfg/vimrc", "\" pets: symlink=/root/.vimrc\nsyntax on\n"),
        &PackageManager::Apt,
    )
    .unwrap();
    assert!(pf.dest.link);
    assert_eq!(pf.dest.dest, "/root/.vimrc");
    assert!(pf.mode.is_empty());
    assert!(pf.pkgs.is_empty());
    assert_eq!(pf.pre, None);
    assert_eq!(pf.post, None);
    assert_eq!(pf.user, None);
    assert_eq!(pf.group, None);

    let both = PetsFile::try_from(
        &file("/cfg/x", "# pets: symlink=/a/b, destfile=/c/d\n"),
        &PackageManager::Apt,
    )
    .unwrap();
    assert!(!both.dest.link);
    assert_eq!(both.dest.dest, "/c/d");
}

#[test]
fn owner_alone_gets_the_group_of_the_process() {
    let pf = PetsFile::try_from(
        &file("/cfg/x", "# pets: destfile=/etc/x, owner=root\n"),
        &PackageManager::Apt,
    )
    .unwrap();
    assert_eq!(pf.user, Some(Identity { name: "root".to_string(), id: 0 }));
    let mine = users::get_group_by_gid(users::get_current_gid());
    assert_eq!(
        pf.group.map(|g| (g.name, g.id)),
        mine.map(|g| (g.name().to_string_lossy().to_string(), g.gid()))
    );

    let pf = PetsFile::try_from(
        &file("/cfg/x", "# pets: destfile=/etc/x, group=root\n"),
        &PackageManager::Apt,
    )
    .unwrap();
    assert_eq!(pf.group.map(|g| g.id), Some(0));
    let me = users::get_user_by_uid(users::get_current_uid());
    assert_eq!(
        pf.user.map(|u| (u.name, u.id)),
        me.map(|u| (u.name().to_string_lossy().to_string(), u.uid()))
    );
}

#[test]
fn loaded_example_plans_directory_copy_and_mode() {
    let pf = PetsFile::try_from(
        &file("/cfg/vimrc", "\" pets: destfile=~/.vimrc, mode=0644\n"),
        &PackageManager::Apt,
    )
    .unwrap();
    let home = "~".expand_home().unwrap().to_string_lossy().to_string();
    let target = format!("{home}/.vimrc");
    assert_eq!(
        pf.actions(&absent()),
        vec![
            Action::new(Cause::Dir, vec!["mkdir".to_string(), "-p".to_string(), home.clone()]),
            Action::new(Cause::Create, vec!["cp".to_string(), "/cfg/vimrc".to_string(), target.clone()]),
            Action::new(Cause::Mode, vec!["chmod".to_string(), "0644".to_string(), target.clone()]),
        ]
    );
}

#[test]
fn unknown_owner_is_dropped_and_empty_commands_are_none() {
    let pf = PetsFile::try_from(
        &file("/cfg/x", "# pets: destfile=/etc/x, owner=no-such-user-here, group=no-such-group-here, pre= , post=\n"),
        &PackageManager::Apt,
    )
    .unwrap();
    assert_eq!(pf.user, None);
    assert_eq!(pf.group, None);
    assert_eq!(pf.pre, None);
    assert_eq!(pf.post, None);
}

#[test]
fn loading_errors() {
    let pm = PackageManager::Apt;
    let unreadable =
        SourceFile { path: Ok("/cfg/x".to_string()), content: Err("denied".to_string()) };
    assert_eq!(
        PetsFile::try_from(&unreadable, &pm).err(),
        Some(ParseError::FileError("denied".to_string()))
    );
    assert_eq!(
        PetsFile::try_from(&file("/cfg/x", "# pets: destfile\n"), &pm).err(),
        Some(ParseError::InvalidKeyword("destfile".to_string()))
    );
    assert_eq!(
        PetsFile::try_from(&file("/cfg/x", "no modeline\n"), &pm).err(),
        Some(ParseError::NotPetsFile)
    );
    assert_eq!(
        PetsFile::try_from(&file("/cfg/x", "# pets: mode=999\n"), &pm).err(),
        Some(ParseError::MissingDestFile("/cfg/x".to_string()))
    );
    assert_eq!(
        PetsFile::try_from(&file("/cfg/x", "# pets: destfile=/etc/x, mode=999\n"), &pm).err(),
        Some(ParseError::InvalidFileMode("999".to_string()))
    );
}

#[test]
fn test_directory_walker_collects_pets_files() {
    let files = vec![
        file("/conf/valid1.pets", "; pets: symlink=/root/.vimrc\nsyntax on\n"),
        file("/conf/nested/valid2.pets", "# pets: destfile=/root/.bashrc\nalias ll='ls -alF'\n"),
        file("/conf/invalid1.txt", "not a pets file\n"),
        file("/conf/nested/invalid2.conf", "also not a pets file\n"),
    ];
    let walker = DirectoryWalker::new("/conf".to_string());

    let result = walker.collect(&files, &PackageManager::Apt).unwrap();

    assert_eq!(result.len(), 2);
    assert_eq!(result[0].source, "/conf/valid1.pets");
    assert_eq!(result[1].source, "/conf/nested/valid2.pets");
}

#[test]
fn test_directory_walker_handles_empty_directory() {
    let walker = DirectoryWalker::new("/conf".to_string());

    let result = walker.collect(&Vec::new(), &PackageManager::Apt).unwrap();
    assert!(result.is_empty());
}

#[test]
fn test_directory_walker_ignores_non_pets_files() {
    let files = vec![file("/conf/not_pets.txt", "not a pets file\n")];
    let walker = DirectoryWalker::new("/conf".to_string());
    let result = walker.collect(&files, &PackageManager::Apt).unwrap();

    assert!(result.is_empty());
}

#[test]
fn files_without_destination_are_passed_over_and_errors_end_the_walk() {
    let pm = PackageManager::Apt;
    let no_dest = file("/conf/a", "# pets: owner=root\n");
    assert!(matches!(process_pets_file(&no_dest, &pm), Ok(None)));
    assert!(matches!(process_pets_file(&file("/conf/b", "text"), &pm), Ok(None)));
    assert!(matches!(process_pets_file(&file("/conf/c", "# pets: destfile=/c"), &pm), Ok(Some(_))));

    let files = vec![
        file("/conf/a", "# pets: destfile=/etc/a\n"),
        no_dest,
        file("/conf/bad", "# pets: destfile=/etc/b, mode=abc\n"),
        file("/conf/worse", "# pets: nonsense\n"),
    ];
    assert_eq!(
        load("/conf".to_string(), &files, &pm).err(),
        Some(ParseError::InvalidFileMode("abc".to_string()))
    );
    let fine = vec![
        file("/conf/a", "# pets: destfile=/etc/a\n"),
        file("/conf/b", "# pets: destfile=/etc/b\n"),
    ];
    assert_eq!(load("/conf".to_string(), &fine, &pm).unwrap().len(), 2);
}

#[test]
fn version_control_directories_are_not_entered() {
    assert!(is_git_dir(".git"));
    assert!(is_git_dir(".github"));
    assert!(is_git_dir(".gitignore"));
    assert!(!is_git_dir("git"));
    assert!(!is_git_dir(".gi"));
    assert!(!is_git_dir("a.git"));
    assert!(!is_git_dir(""));
}

#[test]
fn modes_agree_with_octal_numbers() {
    for bits in 1u32..=0o777 {
        for text in [format!("{bits:o}"), format!("0{bits:o}"), format!("000{bits:o}")] {
            assert_eq!(Mode::try_from(&text).unwrap().0, bits);
        }
        assert_eq!(Mode(bits).to_string(), format!("{bits:04o}"));
        assert_eq!(Mode::try_from(&Mode(bits).to_string()).unwrap().0, bits);
    }
    for bits in 0o1000u32..0o2000 {
        assert!(Mode::try_from(&format!("{bits:o}")).is_err());
    }
}

#[test]
fn lines_of_a_file_are_read_as_a_reader_reads_them() {
    let contents: [&[u8]; 8] = [
        b"# pets: a=1\n# pets: b=2",
        b"# pets: a=1\r\n\r\n# pets: b=2\r\n",
        b"x\n\n# pets: a = 1 , b=2\n\n",
        b"# pets: a=1\r",
        b"",
        b"\n",
        b"# pets: a=\xc3\xa9\n# pets: b=2\n",
        b"# pets:\n# pets: ,\n",
    ];
    for content in contents {
        let mut expected = Vec::new();
        for line in std::io::Cursor::new(content).lines() {
            let line = line.unwrap();
            if let Some((_, rest)) = line.split_once("pets:") {
                for part in rest.split(',').map(str::trim).filter(|s| !s.is_empty()) {
                    let (k, v) = part.split_once('=').unwrap();
                    expected.push((k.trim().to_string(), v.trim().to_string()));
                }
            }
        }
        assert_eq!(read_modelines(&content.to_vec()).unwrap().pairs, expected);
    }
}

#[test]
fn walker_gives_the_paths_that_are_there() {
    assert_eq!(DirectoryWalker::new("/dev/null".to_string()).paths(), vec!["/dev/null"]);
    assert!(DirectoryWalker::new("/no/such/directory/here".to_string()).paths().is_empty());
    assert!(is_walked("conf.d"));
    assert!(is_walked("git"));
    assert!(!is_walked(".git"));
    assert!(!is_walked(".gitmodules"));
}

#[test]
fn paths_lie_under_the_directory_and_outside_version_control() {
    assert!(is_found_under("conf", "conf"));
    assert!(is_found_under("conf", "conf/nested/valid2.pets"));
    assert!(is_found_under("conf/", "conf/valid1.pets"));
    assert!(is_found_under("/", "/etc/x"));
    assert!(is_found_under("/home/u/.github/pets", "/home/u/.github/pets/a"));
    assert!(is_found_under("conf", "conf/a.git/x"));
    assert!(is_found_under("conf", "conf/git/x"));
    assert!(!is_found_under("conf", "conf/.git"));
    assert!(!is_found_under("conf", "conf/.git/config"));
    assert!(!is_found_under("conf", "conf/a/.github/workflows/x.yml"));
    assert!(!is_found_under("conf", "conf/a/.gitignore"));
    assert!(!is_found_under("conf", "other/a"));
    assert!(!is_found_under("conf/a", "conf"));
    assert!(!is_found_under("conf", ""));
}

#[test]
fn walk_keeps_what_is_there() {
    let found = DirectoryWalker::new("/dev".to_string()).paths();
    assert!(found.contains(&"/dev".to_string()));
    assert!(found.contains(&"/dev/null".to_string()));
    assert!(found.iter().all(|path| path.starts_with("/dev")));
    assert!(found.iter().all(|path| is_found_under("/dev", path)));
}

#[test]
fn paths_without_tilde_are_put_together_again() {
    let dest = Destination::new(&"a//b/./c/".to_string(), false, false);
    assert_eq!(dest.to_string(), "a/b/c");
    assert_eq!(dest.directory(), "a/b");
    let dest = Destination::new(&"/etc//ssh/sshd_config".to_string(), true, true);
    assert_eq!(dest.to_string(), "/etc/ssh/sshd_config");
    assert_eq!(dest.directory(), "/etc/ssh");
    assert!(dest.is_symlink());
    let dest = Destination::new(&"./x".to_string(), false, false);
    assert_eq!(dest.to_string(), "./x");
    let dest = Destination::new(&"x/~y".to_string(), false, false);
    assert_eq!(dest.to_string(), "x/~y");
    let dest = Destination::new(&String::new(), false, false);
    assert_eq!(dest.to_string(), "");
    assert_eq!(dest.directory(), "");
    let dest = Destination::new(&"a/\0b//c".to_string(), false, false);
    assert_eq!(dest.to_string(), "a/\0b/c");
}

#[test]
fn resolved_takes_the_expansion_or_the_path_as_written() {
    let written = "~someone/x".to_string();
    let expanded = Destination::resolved(&written, Some("/home/someone/x".to_string()), false, false);
    assert_eq!(expanded.to_string(), "/home/someone/x");
    assert_eq!(expanded.directory(), "/home/someone");
    let kept = Destination::resolved(&written, None, true, false);
    assert_eq!(kept.to_string(), "~someone/x");
    assert_eq!(kept.directory(), "~someone");
    assert!(kept.is_symlink());
    assert!(!kept.is_dir);
}

#[test]
fn names_that_are_no_text_are_taken_up() {
    assert!(takes_up(None));
    assert!(takes_up(Some("conf.d")));
    assert!(takes_up(Some("")));
    assert!(!takes_up(Some(".git")));
    assert!(!takes_up(Some(".github")));
}

#[test]
fn file_without_absolute_path_is_an_error_only_where_it_declares_something() {
    let pm = PackageManager::Apt;
    let lost = |content: &str| SourceFile {
        path: Err("no such file".to_string()),
        content: Ok(content.as_bytes().to_vec()),
    };
    assert_eq!(
        PetsFile::try_from(&lost("# pets: destfile=/etc/x\n"), &pm).err(),
        Some(ParseError::FileError("no such file".to_string()))
    );
    assert_eq!(
        PetsFile::try_from(&lost("# pets: mode=644\n"), &pm).err(),
        Some(ParseError::FileError("no such file".to_string()))
    );
    assert_eq!(
        PetsFile::try_from(&lost("no modeline\n"), &pm).err(),
        Some(ParseError::NotPetsFile)
    );
    assert_eq!(
        PetsFile::try_from(&lost("# pets: oops\n"), &pm).err(),
        Some(ParseError::InvalidKeyword("oops".to_string()))
    );
    assert!(matches!(process_pets_file(&lost("text"), &pm), Ok(None)));
}

#[test]
fn modes_are_read_as_octal_numbers_are_parsed() {
    let alphabet = ['0', '0', '1', '7', '8', '+', '-', ' ', '6', '4'];
    let mut state: u64 = 0x9e37_79b9_7f4a_7c15;
    for round in 0..3000 {
        let len = round % 7;
        let mut text = String::new();
        for _ in 0..len {
            state = state.wrapping_mul(6364136223846793005).wrapping_add(1442695040888963407);
            text.push(alphabet[((state >> 33) % alphabet.len() as u64) as usize]);
        }
        let expected = match u32::from_str_radix(text.trim_start_matches('0'), 8) {
            Ok(bits) if bits <= 0o777 => Ok(bits),
            _ => Err(ParseError::InvalidFileMode(text.clone())),
        };
        assert_eq!(Mode::try_from(&text).map(|mode| mode.0), expected);
    }
}
