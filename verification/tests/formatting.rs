use lsx::owner::{get_owner, owner_label};
use lsx::permissions::{get_permissions_string, FileKind};
use lsx::size::bytes_to_human_size;
use lsx::text::{chars_of, decimal_string, digit_str};
use lsx::time::{format_clock, system_time_to_human_time, time_label, WallClock};

/// The size as floating point arithmetic renders it.
fn float_size(bytes: u64) -> String {
    let units = ["B", "KiB", "MiB", "GiB", "TiB", "PiB", "EiB"];
    let mut size = bytes as f64;
    let mut unit = 0;
    while size >= 1024.0 && unit < units.len() - 1 {
        size /= 1024.0;
        unit += 1;
    }
    if size < 10.0 {
        format!("{:.2} {}", size, units[unit])
    } else if size < 100.0 {
        format!("{:.1} {}", size, units[unit])
    } else {
        format!("{:.0} {}", size, units[unit])
    }
}

#[test]
fn size_of_zero_bytes() {
    assert_eq!(bytes_to_human_size(0), "0.00 B");
}

#[test]
fn size_of_one_and_a_half_kib() {
    assert_eq!(bytes_to_human_size(1536), "1.50 KiB");
}

#[test]
fn size_of_one_gib() {
    assert_eq!(bytes_to_human_size(1073741824), "1.00 GiB");
}

#[test]
fn size_below_1024_stays_in_bytes() {
    assert_eq!(bytes_to_human_size(999), "999 B");
    assert_eq!(bytes_to_human_size(1023), "1023 B");
    assert_eq!(bytes_to_human_size(512), "512 B");
    assert_eq!(bytes_to_human_size(1), "1.00 B");
    assert_eq!(bytes_to_human_size(9), "9.00 B");
    assert_eq!(bytes_to_human_size(10), "10.0 B");
    assert_eq!(bytes_to_human_size(99), "99.0 B");
    assert_eq!(bytes_to_human_size(100), "100 B");
}

#[test]
fn size_precision_follows_magnitude() {
    assert_eq!(bytes_to_human_size(1024), "1.00 KiB");
    assert_eq!(bytes_to_human_size(10240), "10.0 KiB");
    assert_eq!(bytes_to_human_size(35021), "34.2 KiB");
    assert_eq!(bytes_to_human_size(102400), "100 KiB");
    assert_eq!(bytes_to_human_size(134217728), "128 MiB");
}

#[test]
fn size_rounds_up_across_the_precision_boundary() {
    // 9.999 KiB is below 10, so it gets two places, and rounds to 10.00
    assert_eq!(bytes_to_human_size(10239), "10.00 KiB");
    assert_eq!(bytes_to_human_size(1048575), "1024 KiB");
}

#[test]
fn size_rounds_half_to_even() {
    // 1.125 KiB and 1.375 KiB lie half way between two hundredths
    assert_eq!(bytes_to_human_size(1152), "1.12 KiB");
    assert_eq!(bytes_to_human_size(1408), "1.38 KiB");
    // 2.5 B cannot occur, but 100.5 KiB can
    assert_eq!(bytes_to_human_size(102912), "100 KiB");
    assert_eq!(bytes_to_human_size(103936), "102 KiB");
}

#[test]
fn size_uses_every_unit() {
    assert_eq!(bytes_to_human_size(1 << 20), "1.00 MiB");
    assert_eq!(bytes_to_human_size(1 << 30), "1.00 GiB");
    assert_eq!(bytes_to_human_size(1 << 40), "1.00 TiB");
    assert_eq!(bytes_to_human_size(1 << 50), "1.00 PiB");
    assert_eq!(bytes_to_human_size(1 << 60), "1.00 EiB");
    assert_eq!(bytes_to_human_size(u64::MAX), "16.0 EiB");
    assert_eq!(bytes_to_human_size((1 << 60) - 1), "1024 PiB");
}

#[test]
fn size_agrees_with_floating_point() {
    let mut seed: u64 = 0x2545_f491_4f6c_dd1d;
    for round in 0..20000u64 {
        seed ^= seed << 13;
        seed ^= seed >> 7;
        seed ^= seed << 17;
        let bytes = seed >> (11 + round % 53);
        assert_eq!(bytes_to_human_size(bytes), float_size(bytes), "for {bytes}");
    }
    for bytes in 0..70000u64 {
        assert_eq!(bytes_to_human_size(bytes), float_size(bytes), "for {bytes}");
    }
    for step in 0..4000u64 {
        let bytes = 128 * step;
        assert_eq!(bytes_to_human_size(bytes), float_size(bytes), "for {bytes}");
        let bytes = (1 << 27) * step;
        assert_eq!(bytes_to_human_size(bytes), float_size(bytes), "for {bytes}");
    }
}

#[test]
fn permissions_of_regular_file() {
    assert_eq!(get_permissions_string(FileKind::Regular, 0o644), "-rw-r--r--");
}

#[test]
fn permissions_of_directory() {
    assert_eq!(get_permissions_string(FileKind::Directory, 0o755), "drwxr-xr-x");
}

#[test]
fn permissions_of_setuid_file() {
    assert_eq!(get_permissions_string(FileKind::Regular, 0o4755), "-rwsr-xr-x");
}

#[test]
fn permissions_special_bits_without_execute() {
    assert_eq!(get_permissions_string(FileKind::Regular, 0o4644), "-rwSr--r--");
    assert_eq!(get_permissions_string(FileKind::Regular, 0o2745), "-rwxr-Sr-x");
    assert_eq!(get_permissions_string(FileKind::Directory, 0o1776), "drwxrwxrwT");
}

#[test]
fn permissions_special_bits_with_execute() {
    assert_eq!(get_permissions_string(FileKind::Regular, 0o2755), "-rwxr-sr-x");
    assert_eq!(get_permissions_string(FileKind::Directory, 0o1777), "drwxrwxrwt");
    assert_eq!(get_permissions_string(FileKind::Regular, 0o7777), "-rwsrwsrwt");
    assert_eq!(get_permissions_string(FileKind::Regular, 0o7000), "---S--S--T");
}

#[test]
fn permissions_kind_glyphs() {
    assert_eq!(get_permissions_string(FileKind::BlockDevice, 0o660), "brw-rw----");
    assert_eq!(get_permissions_string(FileKind::CharDevice, 0o620), "crw--w----");
    assert_eq!(get_permissions_string(FileKind::Symlink, 0o777), "lrwxrwxrwx");
    assert_eq!(get_permissions_string(FileKind::Fifo, 0o600), "prw-------");
    assert_eq!(get_permissions_string(FileKind::Socket, 0o755), "srwxr-xr-x");
    assert_eq!(get_permissions_string(FileKind::Other, 0), "----------");
}

#[test]
fn permissions_ignore_the_bits_above_the_mode() {
    assert_eq!(get_permissions_string(FileKind::Regular, 0o100644), "-rw-r--r--");
    assert_eq!(get_permissions_string(FileKind::Directory, 0o040755), "drwxr-xr-x");
}

#[test]
fn permissions_have_ten_characters() {
    for mode in 0..0o10000u32 {
        assert_eq!(get_permissions_string(FileKind::Regular, mode).chars().count(), 10);
    }
}

#[test]
fn decimal_numerals() {
    assert_eq!(decimal_string(0), "0");
    assert_eq!(decimal_string(7), "7");
    assert_eq!(decimal_string(10), "10");
    assert_eq!(decimal_string(1234567890), "1234567890");
    assert_eq!(decimal_string(u64::MAX), "18446744073709551615");
    for n in 0..5000u64 {
        assert_eq!(decimal_string(n), n.to_string());
    }
}

#[test]
fn digits_and_characters() {
    assert_eq!(digit_str(0), "0");
    assert_eq!(digit_str(9), "9");
    assert_eq!(chars_of("a-ü"), vec!['a', '-', 'ü']);
    assert_eq!(chars_of(""), Vec::<char>::new());
}

#[test]
fn owner_falls_back_to_the_number() {
    assert_eq!(owner_label(1000, None), "1000");
    assert_eq!(owner_label(0, None), "0");
    assert_eq!(owner_label(u32::MAX, None), "4294967295");
}

#[test]
fn owner_shows_the_name_that_was_found() {
    assert_eq!(owner_label(1000, Some(String::from("alice"))), "alice");
    assert_eq!(owner_label(0, Some(String::from("root"))), "root");
}

#[test]
fn owner_lookup_agrees_with_the_user_database() {
    for uid in [0u32, 1, 1000, 65534, 4_000_000_000] {
        let expected = match users::get_user_by_uid(uid) {
            Some(user) => match user.name().to_str() {
                Some(name) => String::from(name),
                None => uid.to_string(),
            },
            None => uid.to_string(),
        };
        assert_eq!(get_owner(uid), expected);
    }
}

#[test]
fn clock_fields_as_shown() {
    let clock = WallClock { day: 5, month: 3, hour: 14, minute: 32 };
    assert_eq!(format_clock(&clock), "05 Mar 14:32");
    let clock = WallClock { day: 31, month: 12, hour: 23, minute: 59 };
    assert_eq!(format_clock(&clock), "31 Dec 23:59");
    let clock = WallClock { day: 1, month: 1, hour: 0, minute: 0 };
    assert_eq!(format_clock(&clock), "01 Jan 00:00");
}

#[test]
fn clock_shows_every_month() {
    let names =
        ["Jan", "Feb", "Mar", "Apr", "May", "Jun", "Jul", "Aug", "Sep", "Oct", "Nov", "Dec"];
    for month in 1..=12u32 {
        let clock = WallClock { day: 9, month, hour: 7, minute: 5 };
        assert_eq!(format_clock(&clock), format!("09 {} 07:05", names[month as usize - 1]));
    }
}

#[test]
fn time_without_fields_is_unknown() {
    assert_eq!(time_label(None), "unknown");
    assert_eq!(time_label(Some(WallClock { day: 0, month: 1, hour: 0, minute: 0 })), "unknown");
    assert_eq!(time_label(Some(WallClock { day: 1, month: 13, hour: 0, minute: 0 })), "unknown");
    assert_eq!(time_label(Some(WallClock { day: 1, month: 1, hour: 24, minute: 0 })), "unknown");
    assert_eq!(time_label(Some(WallClock { day: 1, month: 1, hour: 0, minute: 60 })), "unknown");
    assert_eq!(
        time_label(Some(WallClock { day: 5, month: 3, hour: 14, minute: 32 })),
        "05 Mar 14:32"
    );
}

/// How many seconds local time is ahead of universal time at the instant.
fn local_offset(seconds: u64) -> Option<i32> {
    let utc = chrono::DateTime::from_timestamp(seconds as i64, 0)?;
    Some(utc.with_timezone(&chrono::Local).offset().local_minus_utc())
}

#[test]
fn time_out_of_range_is_unknown() {
    assert_eq!(system_time_to_human_time(u64::MAX, Some(0)), "unknown");
    assert_eq!(system_time_to_human_time(u64::MAX, Some(-1)), "unknown");
    assert_eq!(system_time_to_human_time(i64::MAX as u64, Some(0)), "unknown");
    assert_eq!(system_time_to_human_time(i64::MAX as u64, Some(1)), "unknown");
    assert_eq!(system_time_to_human_time(i64::MAX as u64 + 5, Some(-10)), "unknown");
    assert_eq!(system_time_to_human_time(8210266876800, Some(0)), "unknown");
}

#[test]
fn time_without_offset_is_unknown() {
    assert_eq!(system_time_to_human_time(0, None), "unknown");
    assert_eq!(system_time_to_human_time(1741185120, None), "unknown");
}

#[test]
fn time_is_shown_at_the_given_offset() {
    assert_eq!(system_time_to_human_time(0, Some(0)), "01 Jan 00:00");
    assert_eq!(system_time_to_human_time(0, Some(19800)), "01 Jan 05:30");
    assert_eq!(system_time_to_human_time(0, Some(-3600)), "31 Dec 23:00");
    assert_eq!(system_time_to_human_time(0, Some(-86399)), "31 Dec 00:00");
    assert_eq!(system_time_to_human_time(59, Some(0)), "01 Jan 00:00");
    assert_eq!(system_time_to_human_time(60, Some(0)), "01 Jan 00:01");
    assert_eq!(system_time_to_human_time(1741185120, Some(0)), "05 Mar 14:32");
    assert_eq!(system_time_to_human_time(1741185120, Some(3600)), "05 Mar 15:32");
    assert_eq!(system_time_to_human_time(1741185120, Some(-18000)), "05 Mar 09:32");
    assert_eq!(system_time_to_human_time(951782400, Some(0)), "29 Feb 00:00");
}

#[test]
fn time_on_the_last_day_of_the_year_9999() {
    assert_eq!(system_time_to_human_time(253402300799, Some(0)), "31 Dec 23:59");
    assert_eq!(system_time_to_human_time(253402300799, Some(50400)), "01 Jan 13:59");
    assert_eq!(system_time_to_human_time(253402300799, Some(86399)), "01 Jan 23:59");
    assert_eq!(system_time_to_human_time(253402214400, Some(-43200)), "30 Dec 12:00");
}

#[test]
fn time_agrees_with_the_calendar() {
    for seconds in [0u64, 1, 86399, 951782400, 1741185120, 1761609600, 4102444800, 253402300799] {
        let local = chrono::DateTime::from_timestamp(seconds as i64, 0)
            .unwrap()
            .with_timezone(&chrono::Local);
        assert_eq!(
            system_time_to_human_time(seconds, local_offset(seconds)),
            local.format("%d %b %H:%M").to_string()
        );
    }
}

#[test]
fn time_agrees_with_the_calendar_of_other_zones() {
    for ahead in [-43200i32, -34200, -18000, -1, 0, 1, 3600, 19800, 20700, 45900, 50400] {
        let zone = chrono::FixedOffset::east_opt(ahead).unwrap();
        for seconds in [0u64, 86399, 951782400, 1741185120, 4102444800, 253402300799] {
            let local = chrono::DateTime::from_timestamp(seconds as i64, 0)
                .unwrap()
                .with_timezone(&zone);
            assert_eq!(
                system_time_to_human_time(seconds, Some(ahead)),
                local.format("%d %b %H:%M").to_string()
            );
        }
    }
}

#[test]
fn owner_holds_no_nul() {
    for uid in [0u32, 1, 1000, 65534, 4_000_000_000] {
        assert!(!get_owner(uid).contains('\0'));
    }
}

#[test]
fn time_has_the_shape_of_a_date() {
    for (seconds, ahead) in [(0u64, 0i32), (1741185120, 7200), (253402300799, -3600)] {
        let text = system_time_to_human_time(seconds, Some(ahead));
        let letters: Vec<char> = text.chars().collect();
        assert_eq!(letters.len(), 12);
        assert!(letters[0].is_ascii_digit() && letters[1].is_ascii_digit());
        assert_eq!(letters[2], ' ');
        assert!(letters[3..6].iter().all(|c| c.is_ascii_alphabetic()));
        assert_eq!(letters[6], ' ');
        assert!(letters[7].is_ascii_digit() && letters[8].is_ascii_digit());
        assert_eq!(letters[9], ':');
        assert!(letters[10].is_ascii_digit() && letters[11].is_ascii_digit());
    }
}
