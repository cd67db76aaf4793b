use rc::viewer::{archive_tool, capped_output, detect_file_type, hex_lines, is_likely_text, json_lines, FileType, FileViewer, ViewMode};

#[test]
fn mode_labels_and_keys() {
    assert_eq!(ViewMode::ElfHeader.label(), "ELF Header");
    assert_eq!(ViewMode::Ldd.label(), "Libraries");
    assert_eq!(ViewMode::Json.shortcut(), "J");
    assert_eq!(ViewMode::Sections.shortcut(), "S");
    assert_eq!(FileType::Json.available_modes(), vec![ViewMode::Json, ViewMode::Text, ViewMode::Hex, ViewMode::FileInfo]);
    assert_eq!(FileType::Unknown.available_modes(), vec![ViewMode::Hex, ViewMode::Strings, ViewMode::FileInfo]);
    assert_eq!(FileType::Elf.available_modes().len(), 8);
}

#[test]
fn file_kinds() {
    assert_eq!(detect_file_type(&"a.bin".to_string(), &vec![0x7f, b'E', b'L', b'F', 0]), FileType::Elf);
    assert_eq!(detect_file_type(&"/x/photo.JPG".to_string(), &vec![0, 1]), FileType::Image);
    assert_eq!(detect_file_type(&"/x/a.tar.gz".to_string(), &vec![0]), FileType::Archive);
    assert_eq!(detect_file_type(&"/x/data.Json".to_string(), &vec![]), FileType::Json);
    assert_eq!(detect_file_type(&"/x/main.rs".to_string(), &vec![0, 0]), FileType::Text);
    assert_eq!(detect_file_type(&"/x/notes".to_string(), &b"hello\n".to_vec()), FileType::Text);
    assert_eq!(detect_file_type(&"/x/blob".to_string(), &vec![1, 0, 2]), FileType::Binary);
    assert!(is_likely_text(&vec![]));
    assert!(!is_likely_text(&vec![b'a', 0]));
    let mut v = vec![b'a'; 19];
    v.push(1);
    assert!(!is_likely_text(&v));
    v.push(b'b');
    assert!(is_likely_text(&v));
}

#[test]
fn hex_dump_lines() {
    let bytes: Vec<u8> = (0u8..20).chain(b"Hi!".iter().copied()).collect();
    let lines = hex_lines(&bytes);
    assert_eq!(lines.len(), 2);
    assert_eq!(lines[0], "00000000  00 01 02 03 04 05 06 07  08 09 0a 0b 0c 0d 0e 0f  |................|");
    assert_eq!(lines[1], "00000010  10 11 12 13 48 69 21                              |....Hi!|");
    assert!(hex_lines(&vec![]).is_empty());
}

#[test]
fn viewer_text_and_scrolling() {
    let text = b"one\ntwo\r\nthree\nfour\nfive\n".to_vec();
    let mut v = FileViewer::new("/x/notes.txt".to_string(), Ok(text.len() as u64), Ok(text));
    assert_eq!(v.mode, ViewMode::Text);
    assert_eq!(v.content, vec!["one", "two", "three", "four", "five"]);
    assert_eq!(v.position_info(2), "1-2/5 (0%)");
    v.scroll_down(10, 2);
    assert_eq!(v.scroll_offset, 3);
    assert_eq!(v.visible_lines(2), &["four".to_string(), "five".to_string()][..]);
    assert_eq!(v.position_info(2), "4-5/5 (100%)");
    v.scroll_up(1);
    assert_eq!(v.position_info(2), "3-4/5 (66%)");
    v.scroll_to_top();
    assert_eq!(v.scroll_offset, 0);
    v.scroll_to_bottom(10);
    assert_eq!(v.scroll_offset, 0);
    assert_eq!(v.file_size(), 25);
    v.set_mode(ViewMode::Hex);
    assert_eq!(v.content.len(), 2);
    assert_eq!(v.load_hex(), v.content);
    assert_eq!(v.load_text().len(), 5);
    v.set_mode(ViewMode::FileInfo);
    assert_eq!(v.pending_command(), Some(vec!["file".to_string(), "-b".to_string()]));
    v.apply_tool_output(Ok(vec!["ASCII text".to_string()]));
    assert_eq!(v.content, vec!["ASCII text"]);
    v.set_mode(ViewMode::Text);
    v.set_mode(ViewMode::FileInfo);
    assert_eq!(v.pending_command(), None);
    assert_eq!(v.content, vec!["ASCII text"]);
}

#[test]
fn viewer_read_errors_and_archives() {
    let v = FileViewer::new("/x/a".to_string(), Err("No such file".to_string()), Err("unused".to_string()));
    assert_eq!(v.error, Some("Failed to read file: No such file".to_string()));
    let v = FileViewer::new("/x/a.zip".to_string(), Ok(3), Ok(vec![1, 2, 3]));
    assert_eq!(v.mode, ViewMode::Archive);
    assert_eq!(v.pending_command(), Some(vec!["unzip".to_string(), "-l".to_string()]));
    let mut v = FileViewer::new("/x/a.bz2".to_string(), Ok(3), Ok(vec![1, 2, 3]));
    assert_eq!(v.error, Some("Unknown archive format".to_string()));
    v.apply_tool_output(Err("ignored".to_string()));
    assert_eq!(v.error, Some("Unknown archive format".to_string()));
    assert_eq!(FileViewer::new("/x/e".to_string(), Ok(0), Ok(vec![])).position_info(5), "Empty");
    assert_eq!(archive_tool(&"/x/b.tgz".to_string()), Some(vec!["tar".to_string(), "-tvf".to_string()]));
    assert_eq!(archive_tool(&"/x/b.gz".to_string()), Some(vec!["gzip".to_string(), "-l".to_string()]));
    assert_eq!(archive_tool(&"/x/b.7z".to_string()), Some(vec!["7z".to_string(), "l".to_string()]));
    assert_eq!(archive_tool(&"/x/b.txt".to_string()), None);
}

#[test]
fn json_fallback_without_jq() {
    let bad = b"{\"a\": ".to_vec();
    let lines = json_lines(&bad);
    assert!(lines[0].starts_with("JSON parse error: "));
    assert_eq!(lines[1], "");
    assert_eq!(lines[2], "--- Raw content ---");
    assert_eq!(lines[3], "{\"a\": ");
    let good = b"{\"a\":[1,2]}".to_vec();
    let mut v = FileViewer::new("/x/d.json".to_string(), Ok(good.len() as u64), Ok(good.clone()));
    assert_eq!(v.pending_command(), Some(vec!["jq".to_string(), ".".to_string()]));
    v.apply_tool_output(Err("'jq' not found".to_string()));
    assert_eq!(v.error, None);
    assert_eq!(v.content, json_lines(&good));
    assert!(v.content.len() > 1);
}

#[test]
fn tool_output_is_capped() {
    let many: Vec<String> = (0..50002).map(|i| i.to_string()).collect();
    let r = capped_output(many);
    assert_eq!(r.len(), 50002);
    assert_eq!(r[49999], "49999");
    assert_eq!(r[50000], "");
    assert_eq!(r[50001], "--- Output truncated (50000 of 50002 lines shown) ---");
    assert_eq!(capped_output(vec!["x".to_string()]), vec!["x".to_string()]);
}
