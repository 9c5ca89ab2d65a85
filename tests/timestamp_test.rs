use meeting_recorder::{civil_from_unix, recording_filename, Config};

#[test]
fn test_timestamp_format() {
    let example_filename = "01-25-2024-14-30-recording.wav";
    assert_eq!(recording_filename(1706193000), example_filename);

    assert!(example_filename.ends_with("-recording.wav"));

    let timestamp_part = example_filename.strip_suffix("-recording.wav").unwrap();

    let parts: Vec<&str> = timestamp_part.split('-').collect();
    assert_eq!(parts.len(), 5, "Timestamp should have 5 parts: mm, dd, yyyy, 24h, m");

    assert_eq!(parts[0].len(), 2, "Month should be 2 digits");
    assert_eq!(parts[1].len(), 2, "Day should be 2 digits");
    assert_eq!(parts[2].len(), 4, "Year should be 4 digits");
    assert_eq!(parts[3].len(), 2, "Hour should be 2 digits");
    assert_eq!(parts[4].len(), 2, "Minute should be 2 digits");

    for part in &parts {
        assert!(part.chars().all(|c| c.is_ascii_digit()), "All timestamp parts should be numeric");
    }

    let month: u32 = parts[0].parse().unwrap();
    let day: u32 = parts[1].parse().unwrap();
    let hour: u32 = parts[3].parse().unwrap();
    let minute: u32 = parts[4].parse().unwrap();

    assert!(month >= 1 && month <= 12, "Month should be between 1 and 12");
    assert!(day >= 1 && day <= 31, "Day should be between 1 and 31");
    assert!(hour < 24, "Hour should be less than 24");
    assert!(minute < 60, "Minute should be less than 60");
}

#[test]
fn test_filename_with_timestamp_format() {
    let config = Config { output_directory: "/tmp/recordings".to_string() };

    let filename = "01-25-2024-14-30-recording.wav";
    let path = config.recording_path(filename);

    assert!(path.contains(filename));
    assert!(std::path::Path::new(&path).file_name().unwrap() == filename);
}

#[test]
fn test_timestamp_format_windows_compatibility() {
    let example_filename = recording_filename(1706193000);

    let invalid_chars = ['<', '>', ':', '"', '|', '?', '*', '\\'];

    for &ch in &invalid_chars {
        assert!(
            !example_filename.contains(ch),
            "Filename should not contain invalid Windows character: {}",
            ch
        );
    }
}

#[test]
fn session_start_gives_exact_filename() {
    // 2024-01-25 14:30:00 UTC
    assert_eq!(recording_filename(1706193000), "01-25-2024-14-30-recording.wav");
    // seconds within the minute do not matter
    assert_eq!(recording_filename(1706193059), "01-25-2024-14-30-recording.wav");
}

#[test]
fn filename_at_the_epoch() {
    assert_eq!(recording_filename(0), "01-01-1970-00-00-recording.wav");
}

#[test]
fn filename_on_leap_day_and_year_end() {
    assert_eq!(recording_filename(951825900), "02-29-2000-12-05-recording.wav");
    assert_eq!(recording_filename(1735689540), "12-31-2024-23-59-recording.wav");
    assert_eq!(recording_filename(1735689600), "01-01-2025-00-00-recording.wav");
}

#[test]
fn civil_time_fields() {
    let t = civil_from_unix(1706193000);
    assert_eq!((t.year, t.month, t.day, t.hour, t.minute), (2024, 1, 25, 14, 30));
    let t = civil_from_unix(4107542400);
    assert_eq!((t.year, t.month, t.day), (2100, 3, 1));
}
