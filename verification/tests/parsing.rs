use quake::events::{ClientUserInfoChanged, EventKind, Kill, MeansOfDeath};
use quake::parser::parse;

#[test]
fn test_kill() {
    let kill = "  4:12 Kill: 5 3 7: Dono da Bola killed Isgalamido by MOD_ROCKET_SPLASH";
    let parsed = parse(kill);

    assert!(parsed.is_some());

    let parsed = parsed.unwrap();

    assert!(matches!(
        parsed.kind,
        EventKind::Kill(Kill {
            victim: 3,
            killer: 5,
            mean: MeansOfDeath::ModRocketSplash
        })
    ))
}

#[test]
fn test_change_info() {
    let change_info = "  5:55 ClientUserinfoChanged: 8 n\\Chessus\\t\\0\\model\\visor/blue\\hmodel\\visor/blue\\g_redteam\\g_blueteam";
    let parsed = parse(change_info);

    assert!(parsed.is_some());

    let parsed = parsed.unwrap();

    assert!(matches!(
        parsed.kind,
        EventKind::ClientUserInfoChanged(ClientUserInfoChanged {
            id: 8,
            nickname: "Chessus"
        })
    ))
}

#[test]
fn kill_line_date_and_fields() {
    let parsed = parse("  4:12 Kill: 5 3 7: whatever trailer").unwrap();
    assert_eq!(parsed.date, (4, 12));
    match parsed.kind {
        EventKind::Kill(k) => {
            assert_eq!(k.killer, 5);
            assert_eq!(k.victim, 3);
            assert_eq!(k.mean, MeansOfDeath::ModRocketSplash);
        }
        _ => panic!("expected a kill event"),
    }
}

#[test]
fn kill_line_cause_out_of_range_is_dropped() {
    assert!(parse("  4:12 Kill: 5 3 24: out of range cause").is_none());
    assert!(parse("  4:12 Kill: 5 3 9999: far out of range").is_none());
    assert!(parse("  4:12 Kill: 5 3 23: grapple").is_some());
    assert!(parse("  4:12 Kill: 5 3 0: unknown").is_some());
}

#[test]
fn kill_line_bad_fields_are_dropped() {
    assert!(parse("4:12 Kill: 5 3: missing cause").is_none());
    assert!(parse("4:12 Kill: 5 3 7 no colon").is_none());
    assert!(parse("4:12 Kill: x 3 7: bad killer").is_none());
    // a killer id too large for u32 fails the number, so the line drops
    assert!(parse("4:12 Kill: 99999999999 3 7: overflow").is_none());
}

#[test]
fn timestamp_must_be_present() {
    assert!(parse("").is_none());
    assert!(parse("garbage line").is_none());
    assert!(parse("412 Kill: 5 3 7: no colon in time").is_none());
    assert!(parse(":12 Kill: 5 3 7: empty hour").is_none());
    assert!(parse("4: Kill: 5 3 7: empty minute").is_none());
}

#[test]
fn event_name_needs_colon_and_letters() {
    assert!(parse("4:12 InitGame no colon").is_none());
    assert!(parse("4:12 : empty name").is_none());
}

#[test]
fn markers_and_unknown_names() {
    let init = parse(" 0:00 InitGame: \\sv_floodProtect\\1").unwrap();
    assert!(matches!(init.kind, EventKind::InitGame));
    let shutdown = parse(" 12:34 ShutdownGame:").unwrap();
    assert!(matches!(shutdown.kind, EventKind::ShutdownGame));
    let other = parse(" 1:47 ClientConnect: 2").unwrap();
    assert!(matches!(other.kind, EventKind::Irrelevant));
    // names are case-sensitive and exact
    let near_miss = parse(" 1:47 kill: 5 3 7: lowercase").unwrap();
    assert!(matches!(near_miss.kind, EventKind::Irrelevant));
}

#[test]
fn client_info_without_name_marker_is_lenient() {
    let parsed = parse("5:55 ClientUserinfoChanged: 8 \\Chessus\\t\\0").unwrap();
    assert!(matches!(
        parsed.kind,
        EventKind::ClientUserInfoChanged(ClientUserInfoChanged {
            id: 8,
            nickname: "Chessus"
        })
    ));
}

#[test]
fn client_info_nickname_stops_at_backslash() {
    let parsed = parse("5:55 ClientUserinfoChanged: 12 n\\Dono da Bola\\t\\1").unwrap();
    match parsed.kind {
        EventKind::ClientUserInfoChanged(c) => {
            assert_eq!(c.id, 12);
            assert_eq!(c.nickname, "Dono da Bola");
        }
        _ => panic!("expected a client-info event"),
    }
}

#[test]
fn client_info_without_id_is_dropped() {
    assert!(parse("5:55 ClientUserinfoChanged: n\\Chessus\\t\\0").is_none());
}

#[test]
fn cause_vocabulary_decode_and_labels() {
    assert_eq!(MeansOfDeath::from_ordinal(0), Some(MeansOfDeath::ModUnknown));
    assert_eq!(MeansOfDeath::from_ordinal(7), Some(MeansOfDeath::ModRocketSplash));
    assert_eq!(MeansOfDeath::from_ordinal(23), Some(MeansOfDeath::ModGrapple));
    assert_eq!(MeansOfDeath::from_ordinal(24), None);
    assert_eq!(MeansOfDeath::ModUnknown.label(), "MOD_UNKNOWN");
    assert_eq!(MeansOfDeath::ModRocketSplash.label(), "MOD_ROCKET_SPLASH");
    assert_eq!(MeansOfDeath::ModTriggerHurt.label(), "MOD_TRIGGER_HURT");
    assert_eq!(MeansOfDeath::ModGrapple.ordinal(), 23);
    assert_eq!(MeansOfDeath::default(), MeansOfDeath::ModMachinegun);
}
