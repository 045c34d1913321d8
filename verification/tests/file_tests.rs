use kernel::file::open_target;

fn parts(p: &[&str]) -> Vec<String> {
    p.iter().map(|s| s.to_string()).collect()
}

#[test]
fn open_target_under_files() {
    assert_eq!(
        open_target(&parts(&["Files", "Boot", "bin", "init"])),
        Some(("Files/Boot".to_string(), "/bin/init".to_string()))
    );
    assert_eq!(open_target(&parts(&["Files", "Boot"])), Some(("Files/Boot".to_string(), String::new())));
}

#[test]
fn open_target_of_other_paths_is_none() {
    assert_eq!(open_target(&parts(&["Files"])), None);
    assert_eq!(open_target(&parts(&["Devices", "Boot", "x"])), None);
    assert_eq!(open_target(&parts(&[])), None);
}
