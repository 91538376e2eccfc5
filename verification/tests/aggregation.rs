use quake::aggregate::{parse_matches, Match};
use quake::events::MeansOfDeath;
use quake::generate_report;
use quake::WORLD_ID;

#[test]
fn segmentation_two_matches_one_kill_each() {
    let log = "\
 0:00 InitGame: \\sv_floodProtect\\1
 0:05 Kill: 2 3 7: A killed B by MOD_ROCKET_SPLASH
 0:10 ShutdownGame:
 0:11 InitGame: \\sv_floodProtect\\1
 0:15 Kill: 3 2 6: B killed A by MOD_ROCKET
 0:20 ShutdownGame:";
    let matches = parse_matches(log);
    assert_eq!(matches.len(), 2);
    assert_eq!(matches[0].total, 1);
    assert_eq!(matches[1].total, 1);
    assert_eq!(matches[0].kills, vec![(2u32, 1i64)]);
    assert_eq!(matches[1].kills, vec![(3u32, 1i64)]);
}

#[test]
fn trailing_partial_match_is_discarded() {
    let log = " 0:05 Kill: 2 3 7: A killed B by MOD_ROCKET_SPLASH";
    assert_eq!(parse_matches(log).len(), 0);
    let log2 = " 0:00 InitGame: x\n 0:05 Kill: 2 3 7: A killed B\n 0:09 ClientConnect: 2";
    assert_eq!(parse_matches(log2).len(), 0);
}

#[test]
fn noop_events_do_not_change_the_outcome() {
    let noisy = "\
 0:00 InitGame: \\sv_floodProtect\\1
 0:01 ClientConnect: 2
 0:02 ClientUserinfoChanged: 2 n\\Isgalamido\\t\\0
 0:03 Item: 2 weapon_rocketlauncher
 0:05 Kill: 2 3 7: trailer
 0:06 InitGame: again, mid-match
 0:10 ShutdownGame:";
    let plain = "\
 0:02 ClientUserinfoChanged: 2 n\\Isgalamido\\t\\0
 0:05 Kill: 2 3 7: trailer
 0:10 ShutdownGame:";
    let a = parse_matches(noisy);
    let b = parse_matches(plain);
    assert_eq!(a.len(), 1);
    assert_eq!(b.len(), 1);
    assert_eq!(a[0].total, b[0].total);
    assert_eq!(a[0].players, b[0].players);
    assert_eq!(a[0].kills, b[0].kills);
    assert_eq!(a[0].kill_by_mean, b[0].kill_by_mean);
}

#[test]
fn world_kill_penalizes_victim_only() {
    let log = "\
 0:02 ClientUserinfoChanged: 3 n\\Isgalamido\\t\\0
 0:05 Kill: 1022 3 22: <world> killed Isgalamido by MOD_TRIGGER_HURT
 0:10 ShutdownGame:";
    let matches = parse_matches(log);
    assert_eq!(matches.len(), 1);
    let m = &matches[0];
    assert_eq!(m.total, 1);
    assert_eq!(m.kills, vec![(3u32, -1i64)]);
    assert!(m.kills.iter().all(|entry| entry.0 != WORLD_ID));
    assert_eq!(m.kill_by_mean, vec![(MeansOfDeath::ModTriggerHurt, 1i64)]);
}

#[test]
fn nickname_rebinding_keeps_last_name() {
    let log = "\
 0:02 ClientUserinfoChanged: 2 n\\Dono da Bola\\t\\0
 0:03 ClientUserinfoChanged: 2 n\\Mocinha\\t\\0
 0:10 ShutdownGame:";
    let matches = parse_matches(log);
    assert_eq!(matches.len(), 1);
    assert_eq!(matches[0].players, vec![(2u32, "Mocinha")]);
}

#[test]
fn match_accumulator_steps() {
    let mut m = Match::new();
    assert_eq!(m.total, 0);
    m.add_player(2, "Isgalamido");
    m.kill_by_mean(MeansOfDeath::ModRailgun);
    m.killed(2);
    m.kill_by_mean(MeansOfDeath::ModRailgun);
    m.killed_by_world(2);
    assert_eq!(m.total, 2);
    assert_eq!(m.kills, vec![(2u32, 0i64)]);
    assert_eq!(m.kill_by_mean, vec![(MeansOfDeath::ModRailgun, 2i64)]);
    assert_eq!(m.player_name(2), Some("Isgalamido"));
    assert_eq!(m.player_name(7), None);
}

#[test]
fn report_keeps_matches_in_order() {
    let log = "\
 0:02 ClientUserinfoChanged: 2 n\\Isgalamido\\t\\0
 0:05 Kill: 2 3 10: r
 0:06 Kill: 2 3 10: r
 0:10 ShutdownGame:
 0:12 ClientUserinfoChanged: 4 n\\Zeh\\t\\0
 0:15 Kill: 4 2 6: r
 0:20 ShutdownGame:";
    let report = generate_report(log);
    assert_eq!(report.match_kills.len(), 2);
    assert_eq!(report.match_by_means.len(), 2);
    assert_eq!(report.match_kills[0].total_kills, 2);
    assert_eq!(report.match_kills[0].players, vec!["Isgalamido"]);
    assert_eq!(report.match_kills[0].kills, vec![("Isgalamido", 2i64)]);
    assert_eq!(
        report.match_by_means[0].kills_by_means,
        vec![(MeansOfDeath::ModRailgun, 2i64)]
    );
    assert_eq!(report.match_kills[1].total_kills, 1);
    assert_eq!(report.match_kills[1].players, vec!["Zeh"]);
    assert_eq!(report.match_kills[1].kills, vec![("Zeh", 1i64)]);
    assert_eq!(
        report.match_by_means[1].kills_by_means,
        vec![(MeansOfDeath::ModRocket, 1i64)]
    );
}

#[test]
fn report_omits_kill_rows_without_a_name() {
    let log = "\
 0:05 Kill: 2 3 7: killer 2 never introduced himself
 0:10 ShutdownGame:";
    let report = generate_report(log);
    assert_eq!(report.match_kills.len(), 1);
    assert_eq!(report.match_kills[0].total_kills, 1);
    assert!(report.match_kills[0].players.is_empty());
    assert!(report.match_kills[0].kills.is_empty());
    assert_eq!(
        report.match_by_means[0].kills_by_means,
        vec![(MeansOfDeath::ModRocketSplash, 1i64)]
    );
}

#[test]
fn crlf_and_blank_lines_are_tolerated() {
    let log = " 0:05 Kill: 2 3 7: x\r\n\r\nnot a log line\r\n 0:10 ShutdownGame:\r\n";
    let matches = parse_matches(log);
    assert_eq!(matches.len(), 1);
    assert_eq!(matches[0].total, 1);
}

#[test]
fn empty_input_gives_empty_report() {
    let report = generate_report("");
    assert!(report.match_kills.is_empty());
    assert!(report.match_by_means.is_empty());
    assert_eq!(parse_matches("").len(), 0);
}
