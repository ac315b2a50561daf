use std::collections::VecDeque;

use thinkbook_eink::server::{
    app_updates_alert, byte_delta, containers_running_line, enabled_widget_kinds,
    format_stopped, format_uptime, include_interface, latency_label, nc_base_url,
    nc_basic_auth, nc_status_url, network_totals, obsidian_request, parse_docker_ps, parse_update_check,
    php_db_line, php_db_line_with, push_sample, registered_line, serverinfo_request, shares_line, sleep_nanos,
    status_label, sum_databases, unavailable_line, uptime_label, url_line, users_label, version_label,
    widget_caption, widget_dots, Config, DbStats, EnvSecrets, InterfaceTraffic, LoopState,
    ObsidianStatus, Palette, RawServerInfo, ServerInfo, ServerInfoAuth, Theme, WidgetKind,
};

fn s(v: &str) -> String {
    v.to_string()
}

fn raw_empty() -> RawServerInfo {
    RawServerInfo {
        active_5m: None,
        active_1h: None,
        active_24h: None,
        app_updates: None,
        core_update_flag: None,
        core_update_text: None,
        php_version: None,
        db_type: None,
        db_version: None,
        num_users: None,
        num_disabled_users: None,
        num_files: None,
        shares_user: None,
        shares_group: None,
        shares_link: None,
        free_space: None,
    }
}

#[test]
fn config_defaults_and_flags() {
    let mut c = Config::empty();
    assert!(!c.is_flipped());
    assert!(c.is_dark());
    c.flip = Some(true);
    c.theme = Some(Theme::Light);
    assert!(c.is_flipped());
    assert!(!c.is_dark());
    c.theme = Some(Theme::Dark);
    assert!(c.is_dark());
}

#[test]
fn file_secrets_win_over_environment() {
    let mut c = Config::empty();
    c.nextcloud_user = Some(s("from-file"));
    let env = EnvSecrets {
        nextcloud_user: Some(s("from-env")),
        nextcloud_password: Some(s("pw")),
        nextcloud_token: None,
        couchdb_user: Some(s("couch")),
        couchdb_password: None,
        firefly_token: Some(s("ff")),
    };
    c.load_secrets_from_env(env);
    assert_eq!(c.nextcloud_user.as_deref(), Some("from-file"));
    assert_eq!(c.nextcloud_password.as_deref(), Some("pw"));
    assert_eq!(c.nextcloud_token, None);
    assert_eq!(c.couchdb_user.as_deref(), Some("couch"));
    assert_eq!(c.firefly_token.as_deref(), Some("ff"));
}

#[test]
fn widget_names_and_labels() {
    assert_eq!(WidgetKind::parse("docker"), Some(WidgetKind::Docker));
    assert_eq!(WidgetKind::parse("Obsidian"), Some(WidgetKind::Obsidian));
    assert_eq!(WidgetKind::parse("FIREFLY"), Some(WidgetKind::Firefly));
    assert_eq!(WidgetKind::parse("dockers"), None);
    assert_eq!(WidgetKind::parse(""), None);
    for k in [WidgetKind::Docker, WidgetKind::Obsidian, WidgetKind::Firefly] {
        assert_eq!(WidgetKind::parse(k.label()), Some(k));
    }
    assert_eq!(WidgetKind::from_lowercase("obsidian"), Some(WidgetKind::Obsidian));
    assert_eq!(WidgetKind::from_lowercase("Obsidian"), None);
    assert_eq!(WidgetKind::Docker.label(), "DOCKER");
    assert_eq!(WidgetKind::Obsidian.label(), "OBSIDIAN");
    assert_eq!(WidgetKind::Firefly.label(), "FIREFLY");
}

#[test]
fn only_listed_widgets_are_enabled() {
    let mut c = Config::empty();
    assert!(enabled_widget_kinds(&c).is_empty());
    c.enabled_widgets = Some(vec![s("firefly"), s("bogus"), s("Docker")]);
    assert_eq!(enabled_widget_kinds(&c), vec![WidgetKind::Firefly, WidgetKind::Docker]);
}

#[test]
fn docker_ps_output() {
    let st = parse_docker_ps("web\trunning\ndb\texited\n\tcreated\ncache\trunning\r\nworker\n").unwrap();
    assert_eq!(st.running, 2);
    assert_eq!(st.stopped, vec![s("db"), s("worker")]);
    let none = parse_docker_ps("").unwrap();
    assert_eq!(none.running, 0);
    assert!(none.stopped.is_empty());
}

#[test]
fn stopped_containers_line() {
    assert_eq!(format_stopped(&vec![]), "0 STOPPED");
    assert_eq!(format_stopped(&vec![s("a"), s("b")]), "2 STOPPED: a, b");
    assert_eq!(format_stopped(&vec![s("a"), s("b"), s("c")]), "3 STOPPED: a, b, c");
    assert_eq!(
        format_stopped(&vec![s("a"), s("b"), s("c"), s("d"), s("e")]),
        "5 STOPPED: a, b, c, +2 MORE"
    );
}

#[test]
fn obsidian_databases_add_up() {
    let mut st = ObsidianStatus::zero();
    st.add_database(&DbStats { file_size: 100, active_size: 40, doc_count: 3, doc_del_count: 1, compacting: false });
    st.add_database(&DbStats { file_size: 50, active_size: 10, doc_count: 2, doc_del_count: 0, compacting: true });
    assert_eq!(st.total_size, 150);
    assert_eq!(st.active_size, 50);
    assert_eq!(st.doc_count, 5);
    assert_eq!(st.doc_del_count, 1);
    assert!(st.compacting);
}

#[test]
fn sum_databases_totals_and_overflow() {
    let a = DbStats { file_size: 100, active_size: 40, doc_count: 3, doc_del_count: 1, compacting: false };
    let b = DbStats { file_size: 50, active_size: 10, doc_count: 2, doc_del_count: 0, compacting: true };
    let st = sum_databases(&vec![a, b]).unwrap();
    assert_eq!((st.total_size, st.active_size, st.doc_count, st.doc_del_count), (150, 50, 5, 1));
    assert!(st.compacting);
    let none = sum_databases(&vec![a]).unwrap();
    assert!(!none.compacting);
    let empty = sum_databases(&Vec::new()).unwrap();
    assert_eq!(empty.total_size, 0);
    let big = DbStats { file_size: u64::MAX, active_size: 0, doc_count: 0, doc_del_count: 0, compacting: false };
    assert!(sum_databases(&vec![big, a]).is_none());
    assert!(sum_databases(&vec![big]).is_some());
}

#[test]
fn compaction_thresholds() {
    let mut st = ObsidianStatus::zero();
    st.total_size = 2 * 1024 * 1024 * 1024;
    assert!(!st.over_size_limit());
    assert!(st.ratio_check_applies());
    st.total_size += 1;
    assert!(st.over_size_limit());
    st.total_size = 50 * 1024 * 1024;
    assert!(!st.ratio_check_applies());
    st.total_size += 1;
    assert!(st.ratio_check_applies());
}

#[test]
fn palettes() {
    let mut c = Config::empty();
    assert_eq!(Palette::from_config(&c), Palette { bg: 10, bright: 245, mid: 170, dim: 90 });
    c.theme = Some(Theme::Light);
    assert_eq!(Palette::from_config(&c), Palette { bg: 245, bright: 10, mid: 80, dim: 160 });
}

#[test]
fn uptime_text() {
    assert_eq!(format_uptime(0), "0M");
    assert_eq!(format_uptime(59), "0M");
    assert_eq!(format_uptime(3661), "1H 1M");
    assert_eq!(format_uptime(2 * 86400 + 4 * 3600 + 13 * 60 + 7), "2D 4H 13M");
    assert_eq!(format_uptime(86400), "1D 0H 0M");
    assert_eq!(uptime_label(120), "UPTIME: 2M");
}

#[test]
fn nextcloud_urls() {
    let mut c = Config::empty();
    assert_eq!(nc_base_url(&c), "https://localhost");
    c.nextcloud_url = Some(s("https://cloud.example.com//"));
    assert_eq!(nc_base_url(&c), "https://cloud.example.com");
    assert_eq!(nc_status_url(&c), "https://cloud.example.com/status.php");
}

#[test]
fn nextcloud_basic_auth_choice() {
    let mut c = Config::empty();
    assert_eq!(nc_basic_auth(&c), None);
    c.nextcloud_password = Some(s("pw"));
    assert_eq!(nc_basic_auth(&c), None);
    c.nextcloud_user = Some(s("admin"));
    assert_eq!(nc_basic_auth(&c), Some((s("admin"), s("pw"))));
    c.nextcloud_token = Some(s("tok"));
    assert_eq!(nc_basic_auth(&c), Some((s("admin"), s("tok"))));
}

#[test]
fn serverinfo_request_choice() {
    let mut c = Config::empty();
    c.nextcloud_token = Some(s("tok"));
    assert!(serverinfo_request(&c).is_none());
    c.nextcloud_url = Some(s("https://nc.local/"));
    let req = serverinfo_request(&c).unwrap();
    assert_eq!(req.url, "https://nc.local/ocs/v2.php/apps/serverinfo/api/v1/info?format=json");
    assert!(matches!(req.auth, ServerInfoAuth::Token(ref t) if t == "tok"));
    c.nextcloud_token = None;
    c.nextcloud_user = Some(s("admin"));
    assert!(serverinfo_request(&c).is_none());
    c.nextcloud_password = Some(s("pw"));
    let req = serverinfo_request(&c).unwrap();
    assert!(matches!(req.auth, ServerInfoAuth::Basic(ref u, ref p) if u == "admin" && p == "pw"));
}

#[test]
fn update_check_gate() {
    let mut c = Config::empty();
    let mut state = LoopState::new();
    let mut info = ServerInfo::empty();
    state.record_update_check(Some((4, true)));
    assert_eq!(state.update_check_container(&c), None);
    state.apply_watched_updates(&c, &mut info);
    assert_eq!((info.app_updates, info.core_update), (0, false));
    c.nextcloud_container = Some(s("nextcloud"));
    assert_eq!(state.update_check_container(&c), Some(s("nextcloud")));
    state.apply_watched_updates(&c, &mut info);
    assert_eq!((info.app_updates, info.core_update), (4, true));
    state.advance();
    assert_eq!(state.update_check_container(&c), None);
}

#[test]
fn obsidian_request_choice() {
    let mut c = Config::empty();
    c.couchdb_databases = Some(vec![s("vault"), s("notes")]);
    assert!(obsidian_request(&c).is_none());
    c.couchdb_url = Some(s("http://couch:5984//"));
    let req = obsidian_request(&c).unwrap();
    assert_eq!(req.urls, vec![s("http://couch:5984/vault"), s("http://couch:5984/notes")]);
    assert!(req.basic_auth.is_none());
    c.couchdb_user = Some(s("me"));
    let req = obsidian_request(&c).unwrap();
    assert_eq!(req.basic_auth, Some((s("me"), None)));
    c.couchdb_password = Some(s("pw"));
    assert_eq!(obsidian_request(&c).unwrap().basic_auth, Some((s("me"), Some(s("pw")))));
    c.couchdb_databases = Some(Vec::new());
    assert!(obsidian_request(&c).is_none());
}

#[test]
fn serverinfo_from_reply_values() {
    let mut raw = raw_empty();
    let empty = ServerInfo::from_raw(&raw);
    assert!(!empty.has_detail());
    assert!(!empty.core_update);
    assert_eq!(empty.db_version, "");
    raw.db_version = Some(s("PostgreSQL 18.4 on x86_64-pc-linux-musl, compiled by gcc"));
    raw.php_version = Some(s("8.3.1"));
    raw.core_update_text = Some(s(""));
    raw.num_files = Some(14700);
    let info = ServerInfo::from_raw(&raw);
    assert_eq!(info.db_version, "PostgreSQL 18.4");
    assert!(!info.core_update);
    assert!(info.has_detail());
    assert_eq!(info.num_files, 14700);
    raw.core_update_text = Some(s("31.0.1"));
    assert!(ServerInfo::from_raw(&raw).core_update);
    raw.core_update_text = None;
    raw.core_update_flag = Some(true);
    assert!(ServerInfo::from_raw(&raw).core_update);
    raw.db_version = Some(s("  8.0  "));
    assert_eq!(ServerInfo::from_raw(&raw).db_version, "8.0");
    let mut only_users = raw_empty();
    only_users.num_users = Some(1);
    assert!(ServerInfo::from_raw(&only_users).has_detail());
    assert!(!ServerInfo::empty().has_detail());
}

#[test]
fn update_check_output() {
    let out = "Nextcloud 31.0.1 is available. Get more information on how to update at ...\n  Update for calendar to version 5.0.1 is available.\nUpdate for mail to version 4.1 is available.\nUpdate for x is pending\nEverything up to date\n";
    assert_eq!(parse_update_check(out), (2, true));
    assert_eq!(parse_update_check(""), (0, false));
    assert_eq!(parse_update_check("Everything up to date\n"), (0, false));
}

#[test]
fn interfaces_that_count() {
    assert!(!include_interface("lo", None));
    assert!(!include_interface("docker0", None));
    assert!(!include_interface("veth12ab", None));
    assert!(!include_interface("br-1234", None));
    assert!(include_interface("eth0", None));
    assert!(include_interface("wlp0s20f3", None));
    assert!(include_interface("docker0", Some("docker0")));
    assert!(!include_interface("eth0", Some("wlp0s20f3")));
}

#[test]
fn traffic_totals() {
    let ifaces = vec![
        InterfaceTraffic { name: s("lo"), received: 1000, transmitted: 1000 },
        InterfaceTraffic { name: s("eth0"), received: 10, transmitted: 20 },
        InterfaceTraffic { name: s("wlan0"), received: 1, transmitted: 2 },
    ];
    assert_eq!(network_totals(&ifaces, None), Some((11, 22)));
    assert_eq!(network_totals(&ifaces, Some("lo")), Some((1000, 1000)));
    let big = vec![
        InterfaceTraffic { name: s("eth0"), received: u64::MAX, transmitted: 0 },
        InterfaceTraffic { name: s("eth1"), received: 1, transmitted: 0 },
    ];
    assert_eq!(network_totals(&big, None), None);
    assert_eq!(byte_delta(0, 500), None);
    assert_eq!(byte_delta(600, 500), None);
    assert_eq!(byte_delta(100, 500), Some(400));
}

#[test]
fn loop_state_ticks() {
    let mut st = LoopState::new();
    assert!(st.update_check_due());
    st.record_update_check(Some((3, true)));
    st.record_update_check(None);
    assert_eq!(st.cached_updates, (3, true));
    let mut info = ServerInfo::empty();
    st.apply_updates(&mut info);
    assert_eq!(info.app_updates, 3);
    assert!(info.core_update);
    st.advance();
    assert!(!st.update_check_due());
    assert_eq!(st.widget_slot(3), (0, 4));
    for _ in 0..4 {
        st.advance();
    }
    assert_eq!(st.widget_slot(3), (1, 5));
    st.update_check_tick = 60;
    assert!(st.update_check_due());
    st.widget_tick = u32::MAX;
    st.advance();
    assert_eq!(st.widget_tick, 0);
}

#[test]
fn widget_rotation_comes_round() {
    let mut st = LoopState::new();
    let mut seen = Vec::new();
    for _ in 0..15 {
        seen.push(st.widget_slot(3).0);
        st.advance();
    }
    assert_eq!(seen, vec![0, 0, 0, 0, 0, 1, 1, 1, 1, 1, 2, 2, 2, 2, 2]);
    st.widget_tick = 15;
    assert_eq!(st.widget_slot(3), (0, 5));
}

#[test]
fn history_keeps_an_hour() {
    let mut h: VecDeque<u32> = (0..60).collect();
    push_sample(&mut h, 60);
    assert_eq!(h.len(), 60);
    assert_eq!(h.front(), Some(&1));
    assert_eq!(h.back(), Some(&60));
    let mut short: VecDeque<u32> = VecDeque::new();
    push_sample(&mut short, 5);
    assert_eq!(short, VecDeque::from(vec![5]));
}

#[test]
fn sleep_to_next_minute() {
    assert_eq!(sleep_nanos(0, 0), 61_000_000_000);
    assert_eq!(sleep_nanos(30, 250_000_000), 30_500_000_000);
    assert_eq!(sleep_nanos(59, 999_999_999), 1_000_000_000);
    assert_eq!(sleep_nanos(59, 1_500_000_000), 1_000_000_000);
}

#[test]
fn status_labels() {
    assert_eq!(status_label(true), "[ NEXTCLOUD: ONLINE ]");
    assert_eq!(status_label(false), "[ NEXTCLOUD: OFFLINE ]");
    assert_eq!(version_label(true, "31.0.0"), "NC VER: 31.0.0");
    assert_eq!(version_label(true, ""), "NC VER: -");
    assert_eq!(version_label(false, "31.0.0"), "NC VER: -");
    assert_eq!(latency_label(true, 42), "LATENCY: 42MS");
    assert_eq!(latency_label(false, 42), "LATENCY: N/A");
    let mut info = ServerInfo::empty();
    assert_eq!(users_label(true, &info), "USERS: -/-/- (5M/1H/24H)");
    info.active_5m = 1;
    info.active_1h = 3;
    info.active_24h = 5;
    assert_eq!(users_label(true, &info), "USERS: 1/3/5 (5M/1H/24H)");
    assert_eq!(users_label(false, &info), "USERS: -/-/- (5M/1H/24H)");
    assert_eq!(app_updates_alert(0), None);
    assert_eq!(app_updates_alert(3).as_deref(), Some("3 APP UPDATES PENDING"));
}

#[test]
fn nextcloud_panel_lines() {
    let mut info = ServerInfo::empty();
    assert_eq!(php_db_line(&info), "PHP - / - -");
    info.php_version = s("8.3.1");
    info.db_type = s("pgsql");
    info.db_version = s("18.4");
    assert_eq!(php_db_line(&info), "PHP 8.3.1 / PGSQL 18.4");
    assert_eq!(php_db_line_with(&info, "POSTGRES"), "PHP 8.3.1 / POSTGRES 18.4");
    info.num_users = 3;
    assert_eq!(registered_line(&info), "USERS: 3 REGISTERED");
    info.num_disabled_users = 1;
    assert_eq!(registered_line(&info), "USERS: 3 REGISTERED (1 DISABLED)");
    info.shares_user = 6;
    assert_eq!(shares_line(&info), "SHARES: 6 USR / 0 GRP / 0 LINK");
}

#[test]
fn widget_panel_text() {
    let kinds = vec![WidgetKind::Docker, WidgetKind::Obsidian, WidgetKind::Firefly];
    assert_eq!(widget_dots(&kinds, 1), "o DOCKER  * OBSIDIAN  o FIREFLY");
    assert_eq!(widget_caption(&kinds, 2, 4), "FIREFLY (3/3) - NEXT: DOCKER IN 4M");
    let one = vec![WidgetKind::Docker];
    assert_eq!(widget_dots(&one, 0), "* DOCKER");
    assert_eq!(widget_caption(&one, 0, 5), "DOCKER (1/1) - NEXT: DOCKER IN 5M");
    assert_eq!(containers_running_line(24), "24 CONTAINERS RUNNING");
    assert_eq!(unavailable_line(WidgetKind::Firefly), "FIREFLY: UNAVAILABLE");
}

#[test]
fn shown_nextcloud_url() {
    assert_eq!(url_line("https://nextcloud.example.com"), "NEXTCLOUD URL: nextcloud.example.com");
    assert_eq!(url_line("http://10.0.0.2"), "NEXTCLOUD URL: 10.0.0.2");
    assert_eq!(url_line("nc.local"), "NEXTCLOUD URL: nc.local");
}

#[test]
fn firefly_and_couchdb_requests() {
    let keys = vec![s("balance-in-EUR"), s("bills-paid-in-EUR"), s("bills-paid-in-USD"), s("bills-unpaid-in-EUR")];
    assert_eq!(thinkbook_eink::server::find_prefixed(&keys, "bills-paid-in-"), Some(1));
    assert_eq!(thinkbook_eink::server::find_prefixed(&keys, "bills-unpaid-in-"), Some(3));
    assert_eq!(thinkbook_eink::server::find_prefixed(&keys, "spent-in-"), None);
    assert_eq!(
        thinkbook_eink::server::firefly_summary_url("https://ff.example.com/", "2026-03-01", "2026-03-04"),
        "https://ff.example.com/api/v1/summary/basic?start=2026-03-01&end=2026-03-04"
    );
    assert_eq!(thinkbook_eink::server::couchdb_url("https://db.local//", "obsidian"), "https://db.local/obsidian");
}

#[test]
fn clearing_frame_level() {
    let mut c = Config::empty();
    assert_eq!(thinkbook_eink::server::clear_level(&c), 255);
    c.theme = Some(Theme::Light);
    assert_eq!(thinkbook_eink::server::clear_level(&c), 0);
}

#[test]
fn process_output_bytes() {
    let st = thinkbook_eink::server::docker_status_from_output(b"web\trunning\n\xffx\texited\n").unwrap();
    assert_eq!(st.running, 1);
    assert_eq!(st.stopped, vec![s("\u{fffd}x")]);
    let out = b"Update for mail to version 4.1 is available.\n\xfe\nNextcloud 31 is available.\n";
    assert_eq!(thinkbook_eink::server::update_check_from_output(out), (1, true));
}
