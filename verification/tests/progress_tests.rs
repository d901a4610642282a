use kb_emulator_manager::progress::{
    checked_percentage, extract_percentage, DownloadProgress, SdkOutputReader,
};

#[test]
fn percentage_of_progress_bar_line() {
    assert_eq!(extract_percentage(" [===================================] 35%"), Some(35));
}

#[test]
fn percentage_of_plain_line() {
    assert_eq!(extract_percentage("Downloading 100%"), Some(100));
    assert_eq!(extract_percentage("7%"), Some(7));
}

#[test]
fn percentage_uses_first_percent_sign() {
    assert_eq!(extract_percentage("5% done of 10%"), Some(5));
}

#[test]
fn percentage_missing_or_unreadable() {
    assert_eq!(extract_percentage("no progress here"), None);
    assert_eq!(extract_percentage("%"), None);
    assert_eq!(extract_percentage("[=====]%"), None);
    assert_eq!(extract_percentage("got 12 34%"), None);
    assert_eq!(extract_percentage("99999999999%"), None);
}

#[test]
fn percentage_counts_characters_before_a_multibyte_char() {
    // The scan goes by character index from a byte position, so after a two-byte
    // character it looks one character too far and finds the `%` itself.
    assert_eq!(extract_percentage("é 35%"), None);
}

fn feed_all(reader: &mut SdkOutputReader, bytes: &[u8]) -> Vec<(String, Option<u32>)> {
    let mut shown = Vec::new();
    for &b in bytes {
        if let Some(line) = reader.feed(b) {
            shown.push((line.text, line.percent));
        }
    }
    shown
}

#[test]
fn reader_shows_trimmed_lines_with_percentages() {
    let mut reader = SdkOutputReader::new();
    let shown = feed_all(&mut reader, b"Loading\r [====    ] 35%\n\n   \n  Done  \n");
    assert_eq!(
        shown,
        vec![
            ("Loading".to_string(), None),
            ("[====    ] 35%".to_string(), Some(35)),
            ("Done".to_string(), None),
        ]
    );
    assert_eq!(reader.finish(), "Loading\n[====    ] 35%\nDone\n");
}

#[test]
fn reader_drops_invalid_utf8_lines() {
    let mut reader = SdkOutputReader::new();
    let shown = feed_all(&mut reader, &[0xff, 0xfe, b'\n', b'o', b'k', b'\n']);
    assert_eq!(shown, vec![("ok".to_string(), None)]);
    assert_eq!(reader.finish(), "ok\n");
}

#[test]
fn reader_keeps_unterminated_tail_out() {
    let mut reader = SdkOutputReader::new();
    let shown = feed_all(&mut reader, b"first\nsecond");
    assert_eq!(shown, vec![("first".to_string(), None)]);
    assert_eq!(reader.finish(), "first\n");
}

#[test]
fn download_progress_reports_percent() {
    let mut p = DownloadProgress::new(200);
    assert_eq!(p.on_chunk(50), Some(25));
    assert_eq!(p.on_chunk(49), Some(49));
    assert_eq!(p.on_chunk(101), Some(100));
    assert_eq!(p.downloaded, 200);
}

#[test]
fn download_progress_without_size() {
    let mut p = DownloadProgress::new(0);
    assert_eq!(p.on_chunk(1024), None);
    assert_eq!(p.downloaded, 1024);
}

#[test]
fn checked_percentage_on_any_line() {
    assert_eq!(checked_percentage(" [====] 35%"), Some(Some(35)));
    assert_eq!(checked_percentage("no percent"), Some(None));
    assert_eq!(checked_percentage("é 35%"), Some(None));
    assert_eq!(checked_percentage("ééé%"), Some(None));
    // Two two-byte characters put `%` at byte 4; the scan reads characters by that byte
    // count, finds the digits after `%`, and would cut the second `é` at byte 3.
    assert_eq!(checked_percentage("éé%12"), None);
}
