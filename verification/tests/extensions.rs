use librcut::util::extensions::{
    can_take_suffix, checked_with_suffix, has_no_separator, suffix_extension, CommandOutputExt,
    PathExt,
};

#[test]
fn path_ext_prefix_test() {
    // absolute path
    assert_eq!("/etc/file.txt".with_prefix("temp."), "/etc/temp.file.txt");

    // no path / parent
    assert_eq!("file.txt".with_prefix("temp."), "temp.file.txt");

    // root
    assert_eq!("/file.txt".with_prefix("temp."), "/temp.file.txt");

    // no extension
    assert_eq!("file".with_prefix("temp."), "temp.file");
}

#[test]
fn path_ext_suffix_test() {
    // file without absolute path
    assert_eq!("file.txt".with_suffix("temp"), "file.temp.txt");

    // file with absolute path
    assert_eq!("/etc/file.txt".with_suffix("temp"), "/etc/file.temp.txt");

    // file without extension
    assert_eq!("/etc/file".with_suffix("temp"), "/etc/file.temp");

    // multiple existing extensions
    assert_eq!("/file.txt.txt".with_suffix("temp"), "/file.txt.temp.txt");
}

#[test]
fn path_ext_on_owned_strings() {
    assert_eq!(String::from("/etc/file.txt").with_prefix("temp."), "/etc/temp.file.txt");
    assert_eq!(String::from("/etc/file.txt").with_suffix("temp"), "/etc/file.temp.txt");
}

#[test]
fn prefix_of_a_path_without_file_name() {
    // `..` has no file name: the prefix becomes one
    assert_eq!("/etc/..".with_prefix("temp."), "/etc/../temp.");
}

#[test]
fn checked_suffix_refuses_separators() {
    assert_eq!(checked_with_suffix("/etc/file.txt", "temp"), Some(String::from("/etc/file.temp.txt")));
    assert_eq!(checked_with_suffix("/etc/file.txt", "te/mp"), None);
    assert!(has_no_separator("temp.txt"));
    assert!(!has_no_separator("a/b"));
    assert!(has_no_separator(""));
}

#[test]
fn exit_codes() {
    assert_eq!(Some(0).to_exitcode(), Ok(()));
    assert_eq!(Some(2).to_exitcode(), Err(2));
    assert_eq!(Some(255).to_exitcode(), Err(255));
    assert_eq!(Some(256).to_exitcode(), Err(1));
    assert_eq!(Some(-1).to_exitcode(), Err(1));
    assert_eq!(None.to_exitcode(), Err(1));
}

#[test]
fn suffix_goes_before_what_std_takes_for_the_extension() {
    // a dot in front begins no extension
    assert_eq!(".bashrc".with_suffix("temp"), ".bashrc.temp");
    assert_eq!("/home/.config.d".with_suffix("temp"), "/home/.config.temp.d");
    // an empty extension is one
    assert_eq!("file.".with_suffix("temp"), "file.temp.");
    // the dots of other components do not count
    assert_eq!("/etc.d/file".with_suffix("temp"), "/etc.d/file.temp");
    // a path that ends in a separator still has its file name
    assert_eq!("/etc/file.txt/".with_suffix("temp"), "/etc/file.temp.txt");
}

#[test]
fn the_extension_that_a_suffix_makes() {
    assert_eq!(suffix_extension("/etc/file.txt", "temp"), "temp.txt");
    assert_eq!(suffix_extension("/etc/file", "temp"), "temp");
    assert_eq!(suffix_extension("/etc/.hidden", "temp"), "temp");
    assert_eq!(suffix_extension("/etc/a.b.c", "7"), "7.c");
    assert!(can_take_suffix("/etc/file.txt", "temp"));
    assert!(!can_take_suffix("/etc/file.txt", "a/b"));
}
