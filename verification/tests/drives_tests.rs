use whiplash::drives::{
    drive_from_volume, drive_letter_roots, drives_from_df_output, drives_from_roots,
    drives_from_volume_listing, drives_from_volumes, folder_entry, sort_folders_by_name,
    split_pieces, text_le_exec, Folder, VolumeOutcome,
};

#[test]
fn df_output_lists_file_systems() {
    let out = "Filesystem      Size  Used Avail Use% Mounted on\n/dev/sda1        50G   20G   28G  42% /\ntmpfs           1.1G     0  1.1G   0% /dev/shm\n\n";
    let drives = drives_from_df_output(out);
    assert_eq!(drives.len(), 2);
    assert_eq!(drives[0].letter, "/dev/sda1");
    assert_eq!(drives[0].name.as_deref(), Some("/dev/sda1"));
    assert_eq!(drives[1].letter, "tmpfs");
}

#[test]
fn df_output_with_crlf_and_blank_lines() {
    let drives = drives_from_df_output("header\r\n  disk1 x\r\n\r\n   \r\ndisk2");
    let letters: Vec<&str> = drives.iter().map(|d| d.letter.as_str()).collect();
    assert_eq!(letters, vec!["disk1", "disk2"]);
}

#[test]
fn df_output_header_only() {
    assert!(drives_from_df_output("").is_empty());
    assert!(drives_from_df_output("Filesystem Size").is_empty());
    assert!(drives_from_df_output("Filesystem Size\n").is_empty());
}

#[test]
fn pieces_between_separators() {
    assert_eq!(split_pieces("a\nb\n", '\n'), vec!["a".to_string(), "b".to_string(), String::new()]);
    assert_eq!(split_pieces("", '\n'), vec![String::new()]);
}

#[test]
fn windows_volume_drive() {
    let d = drive_from_volume("C", Some("System".to_string()));
    assert_eq!(d.letter, "C:\\");
    assert_eq!(d.name.as_deref(), Some("System"));
    let e = drive_from_volume("D", Some(String::new()));
    assert_eq!(e.letter, "D:\\");
    assert_eq!(e.name, None);
    assert_eq!(drive_from_volume("E", None).name, None);
}

#[test]
fn drive_roots_a_to_z() {
    let roots = drive_letter_roots();
    assert_eq!(roots.len(), 26);
    assert_eq!(roots[0], "A:\\");
    assert_eq!(roots[2], "C:\\");
    assert_eq!(roots[25], "Z:\\");
}

#[test]
fn folder_without_text_name_is_unknown() {
    let f = folder_entry("/x/y".to_string(), None);
    assert_eq!(f.name, "Unknown");
    assert_eq!(f.path, "/x/y");
    assert_eq!(folder_entry("/x/z".to_string(), Some("z".to_string())).name, "z");
}

fn folder(name: &str, path: &str) -> Folder {
    Folder { path: path.to_string(), name: name.to_string() }
}

#[test]
fn folders_sorted_by_name_stably() {
    let folders = vec![
        folder("beta", "/1"),
        folder("Alpha", "/2"),
        folder("alpha", "/3"),
        folder("Unknown", "/4"),
        folder("Unknown", "/5"),
        folder("", "/6"),
    ];
    let sorted = sort_folders_by_name(folders);
    let paths: Vec<&str> = sorted.iter().map(|f| f.path.as_str()).collect();
    assert_eq!(paths, vec!["/6", "/2", "/4", "/5", "/3", "/1"]);
}

#[test]
fn folders_sorted_like_string_order() {
    let names = ["é", "z", "ab", "a", "Z", "ä"];
    let folders: Vec<Folder> = names.iter().map(|n| folder(n, n)).collect();
    let sorted: Vec<String> = sort_folders_by_name(folders).into_iter().map(|f| f.name).collect();
    let mut expected: Vec<String> = names.iter().map(|n| n.to_string()).collect();
    expected.sort();
    assert_eq!(sorted, expected);
}

#[test]
fn text_order() {
    assert!(text_le_exec("a", "b"));
    assert!(text_le_exec("a", "a"));
    assert!(text_le_exec("", "a"));
    assert!(!text_le_exec("b", "a"));
    assert!(!text_le_exec("ab", "a"));
}

#[test]
fn volume_listing_gives_lettered_drives() {
    let json = r#"[
        {"DriveLetter": "C", "FileSystemLabel": "Windows"},
        {"DriveLetter": null, "FileSystemLabel": "Recovery"},
        {"DriveLetter": "D", "FileSystemLabel": ""},
        {"DriveLetter": "E"}
    ]"#;
    match drives_from_volume_listing(json) {
        VolumeOutcome::Listed(d) => {
            assert_eq!(d.len(), 3);
            assert_eq!(d[0].letter, "C:\\");
            assert_eq!(d[0].name.as_deref(), Some("Windows"));
            assert_eq!(d[1].letter, "D:\\");
            assert_eq!(d[1].name, None);
            assert_eq!(d[2].letter, "E:\\");
            assert_eq!(d[2].name, None);
        }
        VolumeOutcome::ProbeRoots(_) => panic!("expected listed drives"),
    }
}

#[test]
fn unreadable_volume_listing_asks_for_probing() {
    for text in ["", "not json", r#"{"DriveLetter": "C", "FileSystemLabel": "Windows"}"#, "[]", r#"[{"FileSystemLabel": "x"}]"#] {
        match drives_from_volume_listing(text) {
            VolumeOutcome::ProbeRoots(roots) => {
                assert_eq!(roots.len(), 26);
                assert_eq!(roots[0], "A:\\");
                assert_eq!(roots[25], "Z:\\");
            }
            VolumeOutcome::Listed(_) => panic!("expected probing for {:?}", text),
        }
    }
}

#[test]
fn drives_from_parsed_volumes() {
    assert!(drives_from_volumes(None).is_empty());
    let d = drives_from_volumes(Some(vec![
        (Some("F".to_string()), Some("USB".to_string())),
        (None, Some("hidden".to_string())),
    ]));
    assert_eq!(d.len(), 1);
    assert_eq!(d[0].letter, "F:\\");
    assert_eq!(d[0].name.as_deref(), Some("USB"));
}

#[test]
fn probed_roots_that_exist_become_drives() {
    let roots = vec!["A:\\".to_string(), "C:\\".to_string(), "D:\\".to_string()];
    let d = drives_from_roots(roots, vec![false, true, true]);
    assert_eq!(d.len(), 2);
    assert_eq!(d[0].letter, "C:\\");
    assert_eq!(d[0].name, None);
    assert_eq!(d[1].letter, "D:\\");
    assert!(drives_from_roots(vec![], vec![]).is_empty());
}
