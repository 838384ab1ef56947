use rust_motd::delta::{round_elapsed_secs, BarColor, CgStats, PreparedCgStats, Threshold};
use rust_motd::error::CgStatsError;
use rust_motd::names::{
    display_name, key2username, next_lookup_step, system_name, user_name_from, LookupReply,
    LookupStep, NamePolicy, UidResolver, LOOKUP_BUFFER_LEN,
};
use rust_motd::render::min_width;
use rust_motd::stat_file::parse_cg_stat;
use rust_motd::usage::{Snapshot, UsageTable};

/// A user database that knows only the superuser.
struct RootOnly;

impl UidResolver for RootOnly {
    fn name_of_uid(&self, uid: u32) -> Option<String> {
        if uid == 0 {
            Some(String::from("root"))
        } else {
            None
        }
    }
}

fn table(rows: &[(&str, u64)]) -> UsageTable {
    let mut t = UsageTable::new();
    for (name, usage) in rows {
        t.insert(name.to_string(), *usage);
    }
    t
}

fn snapshot(at_secs: u64, user: &[(&str, u64)], system: &[(&str, u64)]) -> Snapshot {
    Snapshot {
        captured_at_usec: at_secs * 1_000_000,
        user: table(user),
        system: table(system),
    }
}

fn widget(num: i32, den: u32) -> CgStats {
    CgStats {
        state_file: String::from("/tmp/cg_stats.toml"),
        threshold: Threshold::new(num, den).unwrap(),
        prepared: None,
    }
}

fn names(v: &[rust_motd::delta::PreparedStat]) -> Vec<String> {
    v.iter().map(|s| s.name().clone()).collect()
}

#[test]
fn test_key2username() {
    assert_eq!(key2username("user-0.slice", &RootOnly), Ok(String::from("root")));
    assert_eq!(key2username("xxx", &RootOnly), Err(String::from("xxx")));
    assert_eq!(
        key2username("user-x.slice", &RootOnly),
        Err(String::from("user-x.slice"))
    );
    assert_eq!(
        key2username("user-4294967286.slice", &RootOnly),
        Err(String::from("4294967286"))
    );
}

#[test]
fn uid_too_large_for_32_bits_falls_back_to_digits() {
    assert_eq!(
        key2username("user-4294967296.slice", &RootOnly),
        Err(String::from("4294967296"))
    );
    assert_eq!(
        user_name_from("user-1000.slice", Some(String::from("alice"))),
        Ok(String::from("alice"))
    );
    assert_eq!(
        user_name_from("user-1000.slice", None),
        Err(String::from("1000"))
    );
    assert_eq!(
        user_name_from("user-.slice", Some(String::from("alice"))),
        Err(String::from("user-.slice"))
    );
    assert_eq!(
        user_name_from("xuser-1.slice", None),
        Err(String::from("xuser-1.slice"))
    );
}

#[test]
fn display_names_under_both_policies() {
    let d = display_name(&NamePolicy::UidToUsername, "user-0.slice", &RootOnly);
    assert_eq!(d.name, "root");
    assert!(!d.unresolved);
    let d = display_name(&NamePolicy::UidToUsername, "user-1000.slice", &RootOnly);
    assert_eq!(d.name, "1000");
    assert!(d.unresolved);
    let d = display_name(&NamePolicy::StripAndTruncate, "cron.service", &RootOnly);
    assert_eq!(d.name, "cron");
    assert!(!d.unresolved);
}

#[test]
fn system_names_lose_their_suffix() {
    assert_eq!(system_name("cron.service"), "cron");
    assert_eq!(system_name("session-3.scope"), "session-3");
    assert_eq!(system_name("system-getty.slice"), "system-getty");
    assert_eq!(system_name("plain"), "plain");
    // Only the leftmost suffix goes.
    assert_eq!(system_name("a.scope.service"), "a.service");
    assert_eq!(system_name("x.slicey"), "xy");
}

#[test]
fn long_system_names_are_truncated() {
    let raw = "abcdefghijklmnopqrstuvwxyz0123";
    assert_eq!(raw.chars().count(), 30);
    let n = system_name(raw);
    assert_eq!(n.chars().count(), 23);
    assert_eq!(n, "abcdefghijklmnopqrst...");
    assert!(n.ends_with("..."));
    let docker = "docker-dcd9a8c71b756de71a4a837c005840f84e0ed92574704ae1c89409c57980aaee.scope";
    assert_eq!(system_name(docker), "docker-dcd9a8c71b756...");
    // Exactly 23 characters stay as they are.
    assert_eq!(system_name("abcdefghijklmnopqrstuvw.service"), "abcdefghijklmnopqrstuvw");
    // Characters, not bytes, are counted.
    assert_eq!(system_name("ééééééééééééééééééééééééé"), "éééééééééééééééééééé...");
}

#[test]
fn elapsed_rounding() {
    assert_eq!(round_elapsed_secs(170), 170);
    assert_eq!(round_elapsed_secs(179), 179);
    assert_eq!(round_elapsed_secs(180), 180);
    assert_eq!(round_elapsed_secs(200), 180);
    assert_eq!(round_elapsed_secs(209), 180);
    assert_eq!(round_elapsed_secs(210), 240);
    assert_eq!(round_elapsed_secs(0), 0);
}

#[test]
fn elapsed_text_is_rounded_humantime() {
    let mut p = PreparedCgStats::default();
    p.elapsed_usec = 200_000_000;
    assert_eq!(p.elapsed_secs(), 200);
    assert_eq!(p.elapsed_text(), "3m");
    p.elapsed_usec = 170_999_999;
    assert_eq!(p.elapsed_text(), "2m 50s");
    p.elapsed_usec = 0;
    assert_eq!(p.elapsed_text(), "0s");
}

#[test]
fn cpu_stat_is_read() {
    let text = "usage_usec 123456\nuser_usec 100000\nsystem_usec 23456\n";
    assert_eq!(parse_cg_stat("/sys/fs/cgroup/x/cpu.stat", text).unwrap(), 123456);
    let later = "user_usec 1\r\n  usage_usec\t+42  \n";
    assert_eq!(parse_cg_stat("p", later).unwrap(), 42);
}

#[test]
fn cpu_stat_without_field_is_missing_field() {
    match parse_cg_stat("p", "user_usec 1\nsystem_usec 2\n") {
        Err(CgStatsError::MissingField { path, field }) => {
            assert_eq!(path, "p");
            assert_eq!(field, "usage_usec");
        }
        _ => panic!("expected MissingField"),
    }
    assert!(matches!(
        parse_cg_stat("p", ""),
        Err(CgStatsError::MissingField { .. })
    ));
}

#[test]
fn cpu_stat_with_bad_line_is_parse_error() {
    match parse_cg_stat("q", "usage_usec\n") {
        Err(CgStatsError::ParseError { path }) => assert_eq!(path, "q"),
        _ => panic!("expected ParseError"),
    }
    assert!(matches!(
        parse_cg_stat("q", "a 1\n\nusage_usec 5\n"),
        Err(CgStatsError::ParseError { .. })
    ));
    assert!(matches!(
        parse_cg_stat("q", "usage_usec 5 6\n"),
        Err(CgStatsError::ParseError { .. })
    ));
}

#[test]
fn cpu_stat_with_bad_number_is_parse_int_error() {
    match parse_cg_stat("r", "usage_usec 12x\n") {
        Err(CgStatsError::ParseIntError { path }) => assert_eq!(path, "r"),
        _ => panic!("expected ParseIntError"),
    }
    assert!(matches!(
        parse_cg_stat("r", "usage_usec 18446744073709551616\n"),
        Err(CgStatsError::ParseIntError { .. })
    ));
    assert!(matches!(
        parse_cg_stat("r", "usage_usec -1\n"),
        Err(CgStatsError::ParseIntError { .. })
    ));
    assert_eq!(
        parse_cg_stat("r", "usage_usec 18446744073709551615").unwrap(),
        u64::MAX
    );
}

#[test]
fn usage_table_keeps_last_write_and_order() {
    let mut t = table(&[("b", 1), ("a", 2), ("c", 3)]);
    t.insert(String::from("b"), 9);
    assert_eq!(t.len(), 3);
    assert_eq!(t.get(&String::from("b")), Some(9));
    assert_eq!(t.get(&String::from("z")), None);
    assert_eq!(t.row(0), (String::from("a"), 2));
    assert_eq!(t.row(1), (String::from("b"), 9));
    assert_eq!(t.row(2), (String::from("c"), 3));
}

#[test]
fn first_run_yields_empty_result() {
    let now = snapshot(100, &[("root", 5)], &[("cron", 7)]);
    let p = widget(1, 100).prepare_or_error(&now, None, 4).unwrap();
    assert_eq!(p.elapsed_usec, 0);
    assert_eq!(p.max_name_width, 0);
    assert!(p.users.is_empty());
    assert!(p.services.is_empty());
    assert!(p.is_idle());
}

#[test]
fn entries_are_in_lexicographic_order() {
    let before = snapshot(0, &[], &[("zeta", 0), ("alpha", 0), ("mu", 0)]);
    let now = snapshot(10, &[], &[("zeta", 5_000_000), ("alpha", 5_000_000), ("mu", 5_000_000)]);
    let p = widget(1, 100).prepare_or_error(&now, Some(&before), 1).unwrap();
    assert_eq!(names(&p.services), vec!["alpha", "mu", "zeta"]);
    assert_eq!(p.elapsed_usec, 10_000_000);
    assert_eq!(p.max_name_width, 5);
    for s in &p.services {
        assert_eq!(s.delta_usec(), 5_000_000);
        assert_eq!(s.span_usec(), 10_000_000);
    }
}

#[test]
fn load_is_relative_to_all_cpus() {
    // 20 s of CPU time over 10 s on 4 CPUs is a load of one half.
    let before = snapshot(0, &[("root", 0), ("alice", 0)], &[]);
    let now = snapshot(10, &[("root", 20_000_000), ("alice", 300_000)], &[]);
    let p = widget(1, 100).prepare_or_error(&now, Some(&before), 4).unwrap();
    // alice: 0.3 s / 40 s = 0.0075 < 0.01.
    assert_eq!(names(&p.users), vec!["root"]);
    assert_eq!(p.users[0].delta_usec(), 20_000_000);
    assert_eq!(p.users[0].span_usec(), 40_000_000);
    assert_eq!(p.users[0].color(), BarColor::Green);
    // Exactly at the threshold is listed.
    let p = widget(3, 400).prepare_or_error(&now, Some(&before), 4).unwrap();
    assert_eq!(names(&p.users), vec!["alice", "root"]);
}

#[test]
fn unchanged_counters_give_zero_load() {
    let before = snapshot(0, &[("root", 7)], &[("cron", 9), ("ssh", 11)]);
    let now = snapshot(60, &[("root", 7)], &[("cron", 9), ("ssh", 11)]);
    let p = widget(1, 100).prepare_or_error(&now, Some(&before), 2).unwrap();
    assert!(p.users.is_empty() && p.services.is_empty());
    assert_eq!(p.max_name_width, 0);
    let p = widget(0, 1).prepare_or_error(&now, Some(&before), 2).unwrap();
    assert_eq!(names(&p.services), vec!["cron", "ssh"]);
    assert_eq!(names(&p.users), vec!["root"]);
    assert!(p.services.iter().all(|s| s.delta_usec() == 0));
    assert_eq!(p.max_name_width, 4);
}

#[test]
fn decreased_counter_is_filtered_by_positive_threshold() {
    let before = snapshot(0, &[], &[("db", 10_000_000)]);
    let now = snapshot(10, &[], &[("db", 1_000)]);
    let p = widget(1, 100).prepare_or_error(&now, Some(&before), 1).unwrap();
    assert!(p.services.is_empty());
    // A threshold of -1 lets the negative load through.
    let p = widget(-1, 1).prepare_or_error(&now, Some(&before), 1).unwrap();
    assert_eq!(names(&p.services), vec!["db"]);
    assert_eq!(p.services[0].delta_usec(), 1_000 - 10_000_000);
    assert_eq!(p.services[0].color(), BarColor::Green);
    // A threshold of zero does not.
    let p = widget(0, 1).prepare_or_error(&now, Some(&before), 1).unwrap();
    assert!(p.services.is_empty());
}

#[test]
fn disjoint_names_are_dropped() {
    let before = snapshot(0, &[("gone", 0), ("both", 0)], &[]);
    let now = snapshot(10, &[("new", 9_000_000), ("both", 9_000_000)], &[]);
    let p = widget(0, 1).prepare_or_error(&now, Some(&before), 1).unwrap();
    assert_eq!(names(&p.users), vec!["both"]);
}

#[test]
fn snapshot_not_older_is_time_span_error() {
    let before = snapshot(10, &[], &[]);
    let now = snapshot(10, &[], &[]);
    match widget(1, 100).prepare_or_error(&now, Some(&before), 1) {
        Err(CgStatsError::TimeSpan { path }) => assert_eq!(path, "/tmp/cg_stats.toml"),
        _ => panic!("expected TimeSpan"),
    }
    let older_now = snapshot(5, &[], &[]);
    assert!(matches!(
        widget(1, 100).prepare_or_error(&older_now, Some(&before), 1),
        Err(CgStatsError::TimeSpan { .. })
    ));
}

#[test]
fn prepare_keeps_result_and_asks_width() {
    let before = snapshot(0, &[("root", 0)], &[("nginx", 0)]);
    let now = snapshot(10, &[("root", 9_000_000)], &[("nginx", 9_900_000)]);
    let mut w = widget(1, 100);
    let c = w.prepare(&now, Some(&before), 1).unwrap();
    assert_eq!(c.min_width, Some(2 + 5 + 4 + 11 + 2));
    let p = w.prepared.as_ref().unwrap();
    assert_eq!(p.users[0].color(), BarColor::Yellow);
    assert_eq!(p.services[0].color(), BarColor::Red);
    assert_eq!(p.bar_width(Some(40), 80), Some(40 - 2 - 5 - 1 - 5));
    assert_eq!(p.bar_width(None, 80), Some(78 - 2 - 5 - 1 - 5));
    assert_eq!(p.bar_width(Some(10), 80), None);
    let mut bad = widget(1, 100);
    assert!(bad.prepare(&before, Some(&now), 1).is_err());
    assert!(bad.prepared.is_none());
}

#[test]
fn bar_colors_follow_load_bands() {
    let before = snapshot(0, &[], &[("a", 0), ("b", 0), ("c", 0), ("d", 0), ("e", 0)]);
    let now = snapshot(
        100,
        &[],
        &[("a", 75_000_000), ("b", 75_000_001), ("c", 95_000_000), ("d", 95_000_001), ("e", 150_000_000)],
    );
    let p = widget(0, 1).prepare_or_error(&now, Some(&before), 1).unwrap();
    let colors: Vec<BarColor> = p.services.iter().map(|s| s.color()).collect();
    assert_eq!(
        colors,
        vec![BarColor::Green, BarColor::Yellow, BarColor::Yellow, BarColor::Red, BarColor::Red]
    );
}

#[test]
fn name_width_counts_characters() {
    let before = snapshot(0, &[("jürgen", 0)], &[]);
    let now = snapshot(1, &[("jürgen", 1_000_000)], &[]);
    let p = widget(0, 1).prepare_or_error(&now, Some(&before), 1).unwrap();
    assert_eq!(p.max_name_width, 6);
    assert_eq!(min_width(6), 25);
    assert_eq!(min_width(usize::MAX), usize::MAX);
}

#[test]
fn threshold_needs_a_denominator() {
    assert!(Threshold::new(1, 0).is_none());
    let t = Threshold::new(1, 100).unwrap();
    assert_eq!((t.num, t.den), (1, 100));
}

#[test]
fn lookup_buffer_doubles_until_it_cannot() {
    assert_eq!(LOOKUP_BUFFER_LEN, 2048);
    assert!(matches!(
        next_lookup_step(2048, LookupReply::BufferTooSmall),
        LookupStep::Retry(4096)
    ));
    assert!(matches!(
        next_lookup_step(usize::MAX / 2 + 1, LookupReply::BufferTooSmall),
        LookupStep::Finish(None)
    ));
    assert!(matches!(
        next_lookup_step(2048, LookupReply::NoRecord),
        LookupStep::Finish(None)
    ));
    assert!(matches!(
        next_lookup_step(2048, LookupReply::ForeignRecord),
        LookupStep::Finish(None)
    ));
    match next_lookup_step(2048, LookupReply::Record(String::from("root"))) {
        LookupStep::Finish(Some(n)) => assert_eq!(n, "root"),
        _ => panic!("expected the name"),
    }
}
