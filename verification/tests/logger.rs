use emergency_backup::beeper::{beep, retrieve_path_wav};
use emergency_backup::logger::{
    append_decimal, backup_details_text, retrieve_path_cpu_log, Logger,
};
use std::time::Duration;

fn as_float_writes(bytes: u64) -> String {
    const KIB: u64 = 1024;
    const MIB: u64 = 1024 * KIB;
    const GIB: u64 = 1024 * MIB;
    if bytes >= GIB {
        format!("{:.2} GB", bytes as f64 / GIB as f64)
    } else if bytes >= MIB {
        format!("{:.2} MB", bytes as f64 / MIB as f64)
    } else if bytes >= KIB {
        format!("{:.2} KB", bytes as f64 / KIB as f64)
    } else {
        format!("{} bytes", bytes)
    }
}

#[test]
fn decimal_is_appended() {
    let mut text = String::from("n=");
    append_decimal(&mut text, 0);
    assert_eq!(text, "n=0");
    append_decimal(&mut text, 7);
    append_decimal(&mut text, 1203);
    append_decimal(&mut text, u64::MAX);
    assert_eq!(text, "n=07120318446744073709551615");
}

#[test]
fn small_sizes_are_written_in_bytes() {
    assert_eq!(Logger::bytes_to_human_readable(0), "0 bytes");
    assert_eq!(Logger::bytes_to_human_readable(1), "1 bytes");
    assert_eq!(Logger::bytes_to_human_readable(1023), "1023 bytes");
}

#[test]
fn sizes_are_written_in_the_largest_unit_reached() {
    assert_eq!(Logger::bytes_to_human_readable(1024), "1.00 KB");
    assert_eq!(Logger::bytes_to_human_readable(1536), "1.50 KB");
    assert_eq!(Logger::bytes_to_human_readable(1048575), "1024.00 KB");
    assert_eq!(Logger::bytes_to_human_readable(1048576), "1.00 MB");
    assert_eq!(Logger::bytes_to_human_readable(5 * 1048576 + 262144), "5.25 MB");
    assert_eq!(Logger::bytes_to_human_readable(1073741823), "1024.00 MB");
    assert_eq!(Logger::bytes_to_human_readable(1073741824), "1.00 GB");
    assert_eq!(Logger::bytes_to_human_readable(123456789012), "114.98 GB");
    assert_eq!(Logger::bytes_to_human_readable(u64::MAX), "17179869184.00 GB");
}

#[test]
fn hundredths_are_rounded_to_the_nearest() {
    assert_eq!(Logger::bytes_to_human_readable(1029), "1.00 KB");
    assert_eq!(Logger::bytes_to_human_readable(1030), "1.01 KB");
    assert_eq!(Logger::bytes_to_human_readable(2047), "2.00 KB");
    assert_eq!(Logger::bytes_to_human_readable(1100), "1.07 KB");
}

#[test]
fn a_tie_goes_to_the_even_hundredth() {
    assert_eq!(Logger::bytes_to_human_readable(1152), "1.12 KB");
    assert_eq!(Logger::bytes_to_human_readable(1408), "1.38 KB");
    assert_eq!(Logger::bytes_to_human_readable(1152 * 1024), "1.12 MB");
    assert_eq!(Logger::bytes_to_human_readable(1408 * 1024 * 1024), "1.38 GB");
}

#[test]
fn sizes_are_written_as_a_float_would_be() {
    let mut samples: Vec<u64> = vec![0, 1, 1023, 1024, 1025, 1152, 1408, 4095, 4096, u64::MAX];
    for shift in 10..64 {
        let p = 1u64 << shift;
        for delta in [0u64, 1, 2, 3, 5, 7, 511, 512, 513, 1023, 1024, 1025] {
            samples.push(p.wrapping_add(delta));
            samples.push(p.wrapping_sub(delta));
            samples.push((p / 100).wrapping_mul(delta));
            samples.push((p / 3).wrapping_add(delta));
        }
    }
    let mut x: u64 = 0x2545F4914F6CDD1D;
    for round in 0..20000 {
        x ^= x << 13;
        x ^= x >> 7;
        x ^= x << 17;
        samples.push(x >> (round % 54));
    }
    for bytes in samples {
        assert_eq!(Logger::bytes_to_human_readable(bytes), as_float_writes(bytes), "{}", bytes);
    }
}

#[test]
fn sizes_beyond_53_bits_are_rounded_first() {
    for bytes in [
        (1u64 << 53) + 1,
        (1u64 << 53) + 3,
        (1u64 << 54) - 1,
        (1u64 << 60) + 0x5555_5555,
        u64::MAX - 1024,
        u64::MAX - 1023,
        0xFFFF_FFFF_FFFF_FBFF,
        0xFFFF_FFFF_FFFF_FC00,
    ] {
        assert_eq!(Logger::bytes_to_human_readable(bytes), as_float_writes(bytes), "{}", bytes);
    }
}

#[test]
fn log_is_named_after_its_kind_and_time() {
    let logger = Logger::begun_at("log/", true, "2024-05-06_07-08-09");
    assert_eq!(logger.log_file_path(), "log//cpu_log_2024-05-06_07-08-09.txt");
    let logger = Logger::begun_at("/mnt/usb", false, "2024-05-06_07-08-09");
    assert_eq!(logger.log_file_path(), "/mnt/usb/backup_log_2024-05-06_07-08-09.txt");
}

#[test]
fn new_log_carries_the_local_time_of_its_moment() {
    let logger = Logger::new("/mnt/usb", false, 0, 0, 0).unwrap();
    assert_eq!(logger.log_file_path(), "/mnt/usb/backup_log_1970-01-01_00-00-00.txt");
    let logger = Logger::new("log", true, 1_714_980_489, 999_999_999, 0).unwrap();
    assert_eq!(logger.log_file_path(), "log/cpu_log_2024-05-06_07-28-09.txt");
    let logger = Logger::new("log", true, 1_714_980_489, 0, 7200).unwrap();
    assert_eq!(logger.log_file_path(), "log/cpu_log_2024-05-06_09-28-09.txt");
    let logger = Logger::new("log", true, 1_714_980_489, 0, -8 * 3600).unwrap();
    assert_eq!(logger.log_file_path(), "log/cpu_log_2024-05-05_23-28-09.txt");
    let logger = Logger::new("log", false, -1, 0, 0).unwrap();
    assert_eq!(logger.log_file_path(), "log/backup_log_1969-12-31_23-59-59.txt");
}

#[test]
fn no_log_for_a_zone_of_a_day_or_more() {
    assert!(Logger::new("log", true, 0, 0, 86_400).is_none());
    assert!(Logger::new("log", true, 0, 0, -86_400).is_none());
    assert!(Logger::new("log", true, 0, 0, i32::MAX).is_none());
    assert!(Logger::new("log", true, 0, 0, 86_399).is_some());
    assert!(Logger::new("log", true, 0, 0, -86_399).is_some());
}

#[test]
fn no_log_for_a_moment_beyond_the_calendar() {
    assert!(Logger::new("log", true, i64::MAX, 0, 0).is_none());
    assert!(Logger::new("log", true, i64::MIN, 0, 0).is_none());
    assert!(Logger::new("log", true, 0, 2_000_000_000, 0).is_none());
    assert!(Logger::new("log", true, 0, 1_000_000_000, 0).is_none());
}

#[test]
fn log_at_the_ends_of_the_calendar() {
    let last = 8_210_266_876_799;
    let first = -8_334_601_228_800;
    for offset in [-86_399, 0, 86_399] {
        assert!(Logger::new("log", true, last, 999_999_999, offset).is_some());
        assert!(Logger::new("log", true, first, 0, offset).is_some());
    }
    assert!(Logger::new("log", true, last + 1, 0, 0).is_none());
    assert!(Logger::new("log", true, first - 1, 0, 0).is_none());
    let logger = Logger::new("log", true, last, 0, 0).unwrap();
    assert_eq!(logger.log_file_path(), "log/cpu_log_+262142-12-31_23-59-59.txt");
}

#[test]
fn backup_details_are_composed() {
    assert_eq!(
        backup_details_text(1536, 3, "1.50s"),
        "Backup completed. \n\nTotal size: \t\t1.50 KB (1536 bytes) \nNumber of files: \t3 \nCPU time: \t\t1.50s\n"
    );
    assert_eq!(
        backup_details_text(0, 0, ""),
        "Backup completed. \n\nTotal size: \t\t0 bytes (0 bytes) \nNumber of files: \t0 \nCPU time: \t\t\n"
    );
}

#[test]
fn backup_details_carry_the_time_with_two_decimals() {
    let logger = Logger::begun_at("/mnt/usb", false, "now");
    assert_eq!(
        logger.log_backup_details(1073741824, 12, 1, 234_567_890),
        "Backup completed. \n\nTotal size: \t\t1.00 GB (1073741824 bytes) \nNumber of files: \t12 \nCPU time: \t\t1.23s\n"
    );
    assert_eq!(
        logger.log_backup_details(10, 1, 0, 12_345_678),
        "Backup completed. \n\nTotal size: \t\t10 bytes (10 bytes) \nNumber of files: \t1 \nCPU time: \t\t12.35ms\n"
    );
    for (secs, nanos) in [(0u64, 0u32), (0, 999), (0, 1_500), (59, 999_999_999), (u64::MAX, 1)] {
        let expected = format!(
            "Backup completed. \n\nTotal size: \t\t2.00 KB (2048 bytes) \nNumber of files: \t5 \nCPU time: \t\t{:.2?}\n",
            Duration::new(secs, nanos)
        );
        assert_eq!(logger.log_backup_details(2048, 5, secs, nanos), expected);
    }
}

#[test]
fn logs_are_kept_beside_the_program() {
    assert_eq!(retrieve_path_cpu_log(None), "log/");
    assert_eq!(retrieve_path_cpu_log(Some("/opt/backup")), "/opt/backup/log/");
    assert_eq!(retrieve_path_cpu_log(Some("/opt/backup/")), "/opt/backup/log/");
}

#[test]
fn sounds_are_kept_beside_the_program() {
    assert_eq!(retrieve_path_wav(None), "resources/");
    assert_eq!(retrieve_path_wav(Some("/opt/backup")), "/opt/backup/resources/");
}

#[test]
fn each_outcome_has_its_sound() {
    assert_eq!(beep(true, "resources/"), "resources/positive-beep.wav");
    assert_eq!(beep(false, "resources/"), "resources/negative-beep.wav");
    assert_eq!(beep(true, "/opt/backup/resources"), "/opt/backup/resources/positive-beep.wav");
}
