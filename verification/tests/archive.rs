use gal::archive::{
    extract_job_log_text_from_archive, failed_step_log_tail, is_log_name, keep_better_log,
    score_log, LogError, LogKeys, FAILED_LOG_TAIL_LINES,
};
use gal::run::FailedStepRef;
use std::io::{Cursor, Write};
use zip::write::SimpleFileOptions;
use zip::{CompressionMethod, ZipWriter};

fn archive(files: &[(&str, &[u8])], method: CompressionMethod) -> Vec<u8> {
    let mut writer = ZipWriter::new(Cursor::new(Vec::new()));
    for (name, content) in files {
        let options = SimpleFileOptions::default().compression_method(method);
        writer.start_file(*name, options).unwrap();
        writer.write_all(content).unwrap();
    }
    writer.finish().unwrap().into_inner()
}

fn step() -> FailedStepRef {
    FailedStepRef {
        job_id: 4711,
        job_name: "Build (Linux)".to_string(),
        step_name: "Run tests".to_string(),
    }
}

#[test]
fn the_log_that_fits_best_is_taken() {
    let bytes = archive(
        &[
            ("0_Lint.txt", b"nothing of interest"),
            ("1_Build (Linux).txt", b"first\nrun tests\nfailed"),
            ("2_Other.txt", b"run tests"),
        ],
        CompressionMethod::Deflated,
    );
    assert_eq!(
        extract_job_log_text_from_archive(&bytes, &step()),
        Ok("first\nrun tests\nfailed".to_string())
    );
}

#[test]
fn the_first_of_equal_logs_is_taken() {
    let bytes = archive(&[("a.txt", b"one"), ("b.txt", b"two")], CompressionMethod::Stored);
    assert_eq!(extract_job_log_text_from_archive(&bytes, &step()), Ok("one".to_string()));
}

#[test]
fn only_text_files_are_logs() {
    let bytes = archive(
        &[("build linux.log", b"run tests"), ("x.txt", b"x"), ("y.TXT", b"run tests build linux")],
        CompressionMethod::Stored,
    );
    assert_eq!(extract_job_log_text_from_archive(&bytes, &step()), Ok("x".to_string()));
}

#[test]
fn archives_without_logs_are_told() {
    let bytes = archive(&[("a.log", b"x")], CompressionMethod::Stored);
    let error = extract_job_log_text_from_archive(&bytes, &step()).unwrap_err();
    assert_eq!(error, LogError::NoMatchingLog);
    assert_eq!(error.message(), "No matching job log found in workflow log archive");
    let empty = archive(&[], CompressionMethod::Stored);
    assert_eq!(extract_job_log_text_from_archive(&empty, &step()), Err(LogError::NoMatchingLog));
}

#[test]
fn bytes_that_are_no_archive_are_told() {
    let error = extract_job_log_text_from_archive(b"no archive", &step()).unwrap_err();
    let expected = zip::ZipArchive::new(Cursor::new(b"no archive".as_slice())).err().unwrap();
    assert_eq!(error, LogError::Archive(expected.to_string()));
    assert_eq!(error.message(), expected.to_string());
}

#[test]
fn entries_that_cannot_be_read_are_told() {
    // One changed byte of the content no longer agrees with its checksum.
    let mut bytes = archive(&[("a.txt", b"hello")], CompressionMethod::Stored);
    let at = bytes.windows(5).position(|w| w == b"hello").unwrap();
    bytes[at] = b'j';
    let error = extract_job_log_text_from_archive(&bytes, &step()).unwrap_err();
    assert_eq!(error, LogError::Archive("Invalid checksum".to_string()));
    // An entry that is no log is not read.
    let mut bytes = archive(&[("a.log", b"hello"), ("b.txt", b"b")], CompressionMethod::Stored);
    let at = bytes.windows(5).position(|w| w == b"hello").unwrap();
    bytes[at] = b'j';
    assert_eq!(extract_job_log_text_from_archive(&bytes, &step()), Ok("b".to_string()));
}

#[test]
fn entries_that_cannot_be_looked_up_are_told() {
    // The method of compression of the entry, in its record and in the directory, becomes one that
    // is not known.
    let mut bytes = archive(&[("a.log", b"hello"), ("b.txt", b"b")], CompressionMethod::Stored);
    let directory = bytes.windows(4).position(|w| w == b"PK\x01\x02").unwrap();
    bytes[8] = 0x77;
    bytes[directory + 10] = 0x77;
    let mut opened = zip::ZipArchive::new(Cursor::new(bytes.as_slice())).unwrap();
    let expected = opened.by_index(0).err().unwrap().to_string();
    assert_eq!(
        extract_job_log_text_from_archive(&bytes, &step()),
        Err(LogError::Archive(expected))
    );
}

#[test]
fn bytes_that_are_not_utf8_are_replaced() {
    let bytes = archive(&[("a.txt", &[b'a', 0xff, b'b'])], CompressionMethod::Stored);
    assert_eq!(
        extract_job_log_text_from_archive(&bytes, &step()),
        Ok("a\u{fffd}b".to_string())
    );
}

#[test]
fn logs_earn_points() {
    let keys = LogKeys::new(&step());
    assert_eq!(score_log("x.txt", "y", &keys), 0);
    assert_eq!(score_log("3_Build_(Linux).txt", "y", &keys), 8);
    assert_eq!(score_log("job 4711.txt", "y", &keys), 4);
    assert_eq!(score_log("x.txt", "RUN: tests", &keys), 4);
    assert_eq!(score_log("x.txt", "build linux", &keys), 2);
    assert_eq!(score_log("build linux 4711.txt", "run tests build linux", &keys), 18);
}

#[test]
fn large_logs_earn_more_points() {
    let keys = LogKeys::new(&step());
    assert_eq!(score_log("x.txt", &"z".repeat(19999), &keys), 0);
    assert_eq!(score_log("x.txt", &"z".repeat(20000), &keys), 1);
    // Bytes are counted, not characters.
    assert_eq!(score_log("x.txt", &"ü".repeat(20000), &keys), 2);
}

#[test]
fn better_logs_are_kept() {
    assert_eq!(keep_better_log(None, -1, "a".to_string()), (-1, "a".to_string()));
    let best = Some((3, "a".to_string()));
    assert_eq!(keep_better_log(best, 3, "b".to_string()), (3, "a".to_string()));
    let best = Some((3, "a".to_string()));
    assert_eq!(keep_better_log(best, 4, "b".to_string()), (4, "b".to_string()));
}

#[test]
fn tails_come_out_of_the_archive() {
    let mut log = String::from("intro\n##[group]Run tests\n");
    for i in 0..150 {
        log.push_str(&format!("line {i}\n"));
    }
    log.push_str("\n##[group]Run upload\nbye\n");
    let bytes = archive(&[("1_Build (Linux).txt", log.as_bytes())], CompressionMethod::Deflated);
    let tail = failed_step_log_tail(&bytes, &step()).unwrap();
    assert_eq!(tail.len(), FAILED_LOG_TAIL_LINES);
    assert_eq!(tail[0], "line 50");
    assert_eq!(tail[99], "line 149");
    assert_eq!(
        failed_step_log_tail(&archive(&[], CompressionMethod::Stored), &step()),
        Err(LogError::NoMatchingLog)
    );
}

#[test]
fn logs_are_told_by_their_names() {
    assert!(is_log_name("1_Build (Linux).txt"));
    assert!(is_log_name(".txt"));
    assert!(!is_log_name("a.TXT"));
    assert!(!is_log_name("a.txt.gz"));
    assert!(!is_log_name("txt"));
    assert!(!is_log_name(""));
}
