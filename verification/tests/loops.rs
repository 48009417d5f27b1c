use chrono::{Datelike, NaiveDate};
use secret_santa::commands::secret::current_year;
use secret_santa::database::DatabaseError;
use secret_santa::loops::gotd_loop::{next_nine_am, post_content, LocalMoment, HOUR_TO_RUN};
use secret_santa::loops::status::{
    pick_status, status_option, status_weights, STATUS_COUNT, STATUS_UPDATE_TIMER_SECS,
};
use secret_santa::text::{decimal, has_prefix, same_text, signed_decimal};

fn moment(year: i32, month: u32, day: u32, hour: u32, minute: u32, second: u32) -> LocalMoment {
    let date = NaiveDate::from_ymd_opt(year, month, day).unwrap();
    LocalMoment {
        day: date.num_days_from_ce() as i64,
        second_of_day: hour * 3600 + minute * 60 + second,
    }
}

fn day_of(moment: LocalMoment) -> u32 {
    NaiveDate::from_num_days_from_ce_opt(moment.day as i32)
        .unwrap()
        .day()
}

fn hour_of(moment: LocalMoment) -> u32 {
    moment.second_of_day / 3600
}

#[test]
fn next_nine_am_before_time() {
    // Today at 10:00 (HOUR_TO_RUN is 17)
    let now = moment(2023, 10, 27, 10, 0, 0);
    let next = next_nine_am(now);

    // Should be Today at 17:00
    assert_eq!(day_of(next), 27);
    assert_eq!(hour_of(next), HOUR_TO_RUN);
}

#[test]
fn next_nine_am_after_time() {
    // Today at 20:00 (HOUR_TO_RUN is 17)
    let now = moment(2023, 10, 27, 20, 0, 0);
    let next = next_nine_am(now);

    // Should be Tomorrow (28th) at 17:00
    assert_eq!(day_of(next), 28);
    assert_eq!(hour_of(next), HOUR_TO_RUN);
}

#[test]
fn next_nine_am_at_start_of_day() {
    // Today at 00:00
    let now = moment(2023, 10, 27, 0, 0, 0);
    let next = next_nine_am(now);

    // Should be Today at 17:00
    assert_eq!(day_of(next), 27);
    assert_eq!(hour_of(next), HOUR_TO_RUN);
}

#[test]
fn next_run_at_the_hour_itself_is_tomorrow() {
    let now = moment(2023, 12, 31, 17, 0, 0);
    let next = next_nine_am(now);
    assert_eq!(next.day, now.day + 1);
    assert_eq!(next.second_of_day, 61200);
    assert_eq!(day_of(next), 1);
    let just_before = moment(2023, 12, 31, 16, 59, 59);
    assert_eq!(
        next_nine_am(just_before),
        LocalMoment {
            day: just_before.day,
            second_of_day: 61200
        }
    );
}

#[test]
fn daily_post() {
    assert_eq!(
        post_content(&Ok((42, "http://example.com/cat.gif".to_string()))),
        "http://example.com/cat.gif Submitted by <@42>"
    );
    assert_eq!(
        post_content(&Err(DatabaseError::QueryError("no rows".to_string()))),
        "Error posting GotD: Failed to run query: no rows"
    );
}

#[test]
fn statuses() {
    assert_eq!(STATUS_UPDATE_TIMER_SECS, 3600);
    assert_eq!(status_weights(), [17, 17, 17, 17, 17, 10, 5]);
    let all = [
        "a Plains",
        "an Island",
        "a Swamp",
        "a Mountain",
        "a Forest",
        "a Wastes",
        "a... Water Energy??",
    ];
    for index in 0..STATUS_COUNT {
        assert_eq!(status_option(index), all[index]);
    }
    let mut seen = std::collections::HashSet::new();
    for _ in 0..300 {
        let status = pick_status();
        assert!(all.contains(&status));
        seen.insert(status);
    }
    assert!(seen.len() > 1);
}

#[test]
fn decimals() {
    assert_eq!(decimal(0), "0");
    assert_eq!(decimal(9), "9");
    assert_eq!(decimal(10), "10");
    assert_eq!(decimal(1234567890), "1234567890");
    assert_eq!(decimal(u64::MAX), "18446744073709551615");
    assert_eq!(signed_decimal(0), "0");
    assert_eq!(signed_decimal(2024), "2024");
    assert_eq!(signed_decimal(-1), "-1");
    assert_eq!(signed_decimal(i32::MAX), "2147483647");
    assert_eq!(signed_decimal(i32::MIN), "-2147483648");
}

#[test]
fn texts() {
    assert!(same_text("abc", "abc"));
    assert!(!same_text("abc", "abd"));
    assert!(!same_text("abc", "ab"));
    assert!(has_prefix("image/gif; q=1", "image/gif"));
    assert!(has_prefix("image/gif", "image/gif"));
    assert!(has_prefix("anything", ""));
    assert!(!has_prefix("image/gi", "image/gif"));
    assert!(!has_prefix("image/png", "image/gif"));
    assert!(has_prefix("\u{1F389}x", "\u{1F389}"));
}

#[test]
fn the_year_is_a_year() {
    let year = current_year();
    assert_eq!(year, chrono::Local::now().year());
}
