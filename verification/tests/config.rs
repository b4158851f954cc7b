use kf2_map_install::{config_entry, update_config, ByteSink, FnSink, IoError, MemorySink};

const OUTPOST: &str = "\n[KF-Outpost KFMapSummary]\nMapName=KF-Outpost\nScreenshotPathName=UI_MapPreview_TEX.UI_MapPreview_Placeholder\n        ";

#[test]
fn block_follows_the_template() {
    assert_eq!(config_entry("KF-Outpost"), OUTPOST);
}

#[test]
fn block_holds_header_and_map_name() {
    let block = config_entry("KF-Outpost");
    assert!(block.contains("[KF-Outpost KFMapSummary]"));
    assert!(block.contains("MapName=KF-Outpost"));
    assert!(block.starts_with('\n'));
    assert!(block.ends_with("\n        "));
}

#[test]
fn name_is_taken_as_it_is() {
    let block = config_entry("kf-Ünïcode map");
    assert!(block.contains("[kf-Ünïcode map KFMapSummary]"));
    assert!(block.contains("MapName=kf-Ünïcode map\n"));
}

#[test]
fn registering_appends_to_what_is_there() {
    let mut config = MemorySink::new();
    config.write_all(b"[Engine]\nKey=Value\n").unwrap();
    assert_eq!(update_config(&mut config, "KF-Outpost"), Ok(()));
    let mut expected = b"[Engine]\nKey=Value\n".to_vec();
    expected.extend_from_slice(OUTPOST.as_bytes());
    assert_eq!(config.contents(), &expected);
}

#[test]
fn registering_twice_gives_two_blocks() {
    let mut config = MemorySink::new();
    config.write_all(b"before").unwrap();
    assert_eq!(update_config(&mut config, "KF-Outpost"), Ok(()));
    assert_eq!(update_config(&mut config, "KF-Outpost"), Ok(()));
    let text = String::from_utf8(config.contents().clone()).unwrap();
    assert_eq!(text, format!("before{}{}", OUTPOST, OUTPOST));
    assert_eq!(text.matches("[KF-Outpost KFMapSummary]").count(), 2);
    assert_eq!(text.matches("MapName=KF-Outpost").count(), 2);
}

#[test]
fn multibyte_names_are_written_as_utf8() {
    let mut config = MemorySink::new();
    assert_eq!(update_config(&mut config, "KF-Zürich"), Ok(()));
    assert_eq!(config.contents(), &config_entry("KF-Zürich").into_bytes());
}

#[test]
fn config_write_failure_is_handed_on() {
    let mut config = MemorySink::bounded(10);
    let result = update_config(&mut config, "KF-Outpost");
    assert!(result.is_err());
    assert!(config.contents().is_empty());
}

#[test]
fn block_goes_out_in_one_write() {
    let mut writes: Vec<Vec<u8>> = Vec::new();
    let result = {
        let mut config = FnSink::new(|bytes: &[u8]| {
            writes.push(bytes.to_vec());
            Ok(())
        });
        update_config(&mut config, "KF-Outpost")
    };
    assert_eq!(result, Ok(()));
    assert_eq!(writes, vec![OUTPOST.as_bytes().to_vec()]);
}

#[test]
fn failure_of_the_handle_is_the_result() {
    let mut config = FnSink::new(|_: &[u8]| Err(IoError::other("read-only file system")));
    assert_eq!(update_config(&mut config, "KF-Outpost"), Err(IoError::other("read-only file system")));
}
