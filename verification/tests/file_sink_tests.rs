use picam::MessageType;
use picam::ParsedBuffer;
use picam::file_sink::{FileSink, should_create_new_file, should_file_be_rotated};
use picam::models::FileSinkConfig;

fn chunk(data: Vec<u8>, kind: MessageType, timestamp: Option<u64>) -> ParsedBuffer {
    ParsedBuffer { data, message_type: kind, timestamp }
}

fn keep_two() -> FileSinkConfig {
    FileSinkConfig {
        max_file_duration: Some(10),
        max_number_of_file: Some(2),
        max_system_usage: 1000,
    }
}

const SECOND: u64 = 1_000_000_000;

#[test]
fn duration_rotation_triggers_strictly_past_the_bound() {
    let config = FileSinkConfig { max_file_duration: Some(10), ..FileSinkConfig::default() };
    let mut base: u64 = 0;
    let at = |secs: u64| chunk(vec![], MessageType::KeyFrame, Some(secs * SECOND));
    assert!(!should_create_new_file(&at(10), &mut base, &config));
    assert_eq!(base, 0);
    assert!(should_create_new_file(&at(11), &mut base, &config));
    assert_eq!(base, 11);
    // A chunk without a timestamp never rotates.
    assert!(!should_create_new_file(
        &chunk(vec![], MessageType::KeyFrame, None),
        &mut base,
        &config
    ));
    // Without a configured duration, nothing rotates.
    let unlimited = FileSinkConfig { max_file_duration: None, ..FileSinkConfig::default() };
    assert!(!should_create_new_file(&at(10_000), &mut base, &unlimited));
}

#[test]
fn rotation_policy_formula() {
    let config = FileSinkConfig {
        max_file_duration: None,
        max_number_of_file: Some(3),
        max_system_usage: 900,
    };
    // 950 of 1000 used: over nine tenths.
    assert!(should_file_be_rotated(&config, 1000, 50, 0));
    // Exactly nine tenths used is within the bound.
    assert!(!should_file_be_rotated(&config, 1000, 100, 0));
    // More files than allowed.
    assert!(should_file_be_rotated(&config, 1000, 1000, 4));
    // Exactly as many as allowed is fine.
    assert!(!should_file_be_rotated(&config, 1000, 1000, 3));
}

#[test]
fn first_frame_opens_file_with_header_bytes_first() {
    let header = vec![vec![0xAA, 0xBB], vec![0xCC]];
    let mut sink = FileSink::new(keep_two(), 1);
    let rotated = sink.handle_chunk(
        &chunk(vec![1, 2, 3], MessageType::FirstFrame, None),
        &header,
        1_000_000,
        1_000_000,
        2,
    );
    assert!(rotated);
    let last = sink.number_of_files() - 1;
    let data = sink.file_data_at(last);
    // The new file's first bytes equal the header snapshot, byte for byte.
    assert_eq!(&data[..3], &[0xAA, 0xBB, 0xCC]);
    assert_eq!(&data[3..], &[1, 2, 3]);
    assert_eq!(sink.file_name_at(last), 2);
}

#[test]
fn every_chunk_is_appended_regardless_of_kind() {
    let header: Vec<Vec<u8>> = Vec::new();
    let mut sink = FileSink::new(keep_two(), 1);
    let rotated = sink.handle_chunk(
        &chunk(vec![7, 8], MessageType::Fragment, Some(999 * SECOND)),
        &header,
        1_000_000,
        1_000_000,
        2,
    );
    assert!(!rotated);
    assert_eq!(sink.number_of_files(), 1);
    assert_eq!(sink.file_data_at(0).as_slice(), &[7, 8]);
    // A key frame within the duration bound appends without rotating.
    let rotated = sink.handle_chunk(
        &chunk(vec![9], MessageType::KeyFrame, Some(5 * SECOND)),
        &header,
        1_000_000,
        1_000_000,
        2,
    );
    assert!(!rotated);
    assert_eq!(sink.file_data_at(0).as_slice(), &[7, 8, 9]);
}

#[test]
fn count_rotation_keeps_at_most_the_allowed_files() {
    let header: Vec<Vec<u8>> = Vec::new();
    let mut sink = FileSink::new(keep_two(), 1);
    for name in 2..=6u64 {
        sink.handle_chunk(
            &chunk(vec![name as u8], MessageType::FirstFrame, None),
            &header,
            1_000_000,
            1_000_000,
            name,
        );
        // After the deletions the policy demanded, at most two old files
        // survive; the freshly opened one comes on top.
        assert!(sink.number_of_files() <= 3);
    }
    // Never below one file, and the survivors are the youngest.
    assert!(sink.number_of_files() >= 1);
    let last = sink.number_of_files() - 1;
    assert_eq!(sink.file_name_at(last), 6);
}

#[test]
fn disk_usage_rotation_deletes_oldest_until_within_bound() {
    let config = FileSinkConfig {
        max_file_duration: None,
        max_number_of_file: None,
        max_system_usage: 900,
    };
    let mut sink = FileSink::new(config, 1);
    // Grow the first file to 100 bytes, then open three more small files.
    sink.handle_chunk(&chunk(vec![0; 100], MessageType::Fragment, None), &Vec::new(), 1000, 900, 2);
    for name in 2..=4u64 {
        sink.open_new_file(name, &Vec::new());
    }
    assert_eq!(sink.number_of_files(), 4);
    // 950 of 1000 bytes used: deleting the oldest file frees its 100 bytes
    // and brings usage to 850, within nine tenths.
    let new_free = sink.rotate_cleanup(1000, 50);
    assert_eq!(new_free, 150);
    assert_eq!(sink.number_of_files(), 3);
    assert_eq!(sink.file_name_at(0), 2);
}

#[test]
fn rotation_never_deletes_below_one_file_under_count_policy() {
    let config = FileSinkConfig {
        max_file_duration: None,
        max_number_of_file: Some(1),
        max_system_usage: 1000,
    };
    let mut sink = FileSink::new(config, 1);
    for name in 2..=4u64 {
        sink.open_new_file(name, &Vec::new());
    }
    sink.rotate_cleanup(1000, 1000);
    assert_eq!(sink.number_of_files(), 1);
    assert_eq!(sink.file_name_at(0), 4);
}

#[test]
fn policy_change_takes_effect_at_next_decision() {
    let header: Vec<Vec<u8>> = Vec::new();
    let mut sink = FileSink::new(
        FileSinkConfig { max_file_duration: None, ..FileSinkConfig::default() },
        1,
    );
    let key = chunk(vec![1], MessageType::KeyFrame, Some(100 * SECOND));
    assert!(!sink.handle_chunk(&key, &header, 1000, 1000, 2));
    sink.set_config(FileSinkConfig { max_file_duration: Some(10), ..FileSinkConfig::default() });
    assert!(sink.handle_chunk(&key, &header, 1000, 1000, 2));
}
