use lan_tui::clock::{humantime_since_epoch, time_of_day_label};

#[test]
fn labels_of_times_of_day() {
    assert_eq!(time_of_day_label(0), "00:00:00");
    assert_eq!(time_of_day_label(3661), "01:01:01");
    assert_eq!(time_of_day_label(86399), "23:59:59");
    assert_eq!(time_of_day_label(86400), "00:00:00");
    assert_eq!(time_of_day_label(1_725_029_869), "14:57:49");
    assert_eq!(time_of_day_label(u64::MAX), format!("{:02}:{:02}:{:02}", (u64::MAX % 86400) / 3600, (u64::MAX % 3600) / 60, u64::MAX % 60));
}

#[test]
fn current_time_has_clock_shape() {
    let t = humantime_since_epoch();
    let chars: Vec<char> = t.chars().collect();
    assert_eq!(chars.len(), 8);
    assert_eq!(chars[2], ':');
    assert_eq!(chars[5], ':');
    let h: u32 = t[0..2].parse().unwrap();
    let m: u32 = t[3..5].parse().unwrap();
    let s: u32 = t[6..8].parse().unwrap();
    assert!(h < 24 && m < 60 && s < 60);
}
