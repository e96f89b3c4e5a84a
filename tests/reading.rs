use spf::fac::{parse_screen, CardColumns, FacData, PassTarget, RunDirection, RunNum};
use spf::lineup::{
    DefensiveBox, LineupUtilities, OffensiveBox, Roster, SlotKind, StandardDefensiveLineup, StandardIDDefenseLineup,
    StandardIDOffenseLineup, StandardOffensiveLineup,
};
use spf::players::{DBStats, OLStats, Player, Position, QBStats, TeamID};
use spf::standard_play::PassResult;
use spf::stats::{NumStat, Range, RangedStats, TwelveStats};
use spf::text::{defensive_box_from, offensive_box_from, parse_i32, parse_pass_target, parse_run_direction, parse_run_num, text_is};

#[test]
fn run_numbers_with_and_without_out_of_bounds() {
    assert_eq!(parse_run_num("7"), RunNum { num: 7, ob: false });
    assert_eq!(parse_run_num("11 (OB)"), RunNum { num: 11, ob: true });
    assert_eq!(parse_run_num("3(OB)"), RunNum { num: 3, ob: true });
    assert_eq!(parse_run_num("3 "), RunNum { num: 3, ob: false });
    assert_eq!(parse_run_num("x3"), RunNum { num: -1, ob: false });
    assert_eq!(parse_run_num(""), RunNum { num: -1, ob: false });
    assert_eq!(parse_run_num("99999999999"), RunNum { num: -1, ob: false });
}

#[test]
fn integers_with_signs() {
    assert_eq!(parse_i32("-12", 0, 3), Some(-12));
    assert_eq!(parse_i32("+4", 0, 2), Some(4));
    assert_eq!(parse_i32("2147483647", 0, 10), Some(i32::MAX));
    assert_eq!(parse_i32("-2147483648", 0, 11), Some(i32::MIN));
    assert_eq!(parse_i32("2147483648", 0, 10), None);
    assert_eq!(parse_i32("-", 0, 1), None);
    assert_eq!(parse_i32("4a", 0, 2), None);
    assert_eq!(parse_i32("a45", 1, 3), Some(45));
}

#[test]
fn gain_entries_and_ranges() {
    assert_eq!(NumStat::gen_from_str("Sg"), NumStat::Sg);
    assert_eq!(NumStat::gen_from_str("Lg"), NumStat::Lg);
    assert_eq!(NumStat::gen_from_str("-2"), NumStat::Val(-2));
    assert_eq!(NumStat::gen_from_str("abc"), NumStat::Val(0));
    assert_eq!(Range::from_str("3-8"), Range { start: 3, end: 8 });
    assert_eq!(Range::from_str("12"), Range { start: 12, end: 12 });
    assert_eq!(Range::from_str(""), Range { start: 49, end: 49 });
    assert_eq!(Range::from_str("4-"), Range { start: 4, end: 4 });
    assert_eq!(Range::new(), Range { start: 49, end: 49 });
    assert!(Range { start: 3, end: 8 }.in_range(8));
    assert!(!Range { start: 3, end: 8 }.in_range(9));
}

#[test]
fn position_codes() {
    assert_eq!(offensive_box_from("BK2", 0, 3), Some(OffensiveBox::B2));
    assert_eq!(offensive_box_from("fl", 0, 2), Some(OffensiveBox::FL1));
    assert_eq!(offensive_box_from("CN", 0, 2), Some(OffensiveBox::C));
    assert_eq!(offensive_box_from("XY", 0, 2), None);
    assert_eq!(defensive_box_from('K'), Some(DefensiveBox::BoxK));
    assert_eq!(defensive_box_from('o'), Some(DefensiveBox::BoxO));
    assert_eq!(defensive_box_from('P'), None);
    assert!(text_is("break", "break"));
    assert!(!text_is("Break", "break"));
}

#[test]
fn run_columns_split_into_blockers_and_tacklers() {
    assert!(matches!(parse_run_direction("break"), Some(RunDirection::Break)));
    match parse_run_direction("LT vs A") {
        Some(RunDirection::Actual(a)) => {
            assert_eq!(a.offensive_boxes, vec![OffensiveBox::LT]);
            assert_eq!(a.defensive_boxes, vec![DefensiveBox::BoxA]);
        }
        _ => panic!("expected blockers"),
    }
    match parse_run_direction("(REF)") {
        Some(RunDirection::Actual(a)) => {
            assert_eq!(a.offensive_boxes, vec![OffensiveBox::RE]);
            assert_eq!(a.defensive_boxes, vec![DefensiveBox::BoxF]);
        }
        _ => panic!("expected blockers"),
    }
    assert!(parse_run_direction("ZZ").is_none());
}

#[test]
fn pass_targets_and_screens() {
    assert_eq!(parse_pass_target("Orig"), Some(PassTarget::Orig));
    assert_eq!(parse_pass_target("PassRush"), Some(PassTarget::PassRush));
    assert_eq!(parse_pass_target("RE"), Some(PassTarget::Actual(OffensiveBox::RE)));
    assert_eq!(parse_pass_target("nobody"), None);
    assert_eq!(parse_screen("Int").map(|s| s.result), Some(PassResult::Interception));
    assert_eq!(parse_screen("Com").map(|s| s.multiplier_pct), Some(100));
    assert!(parse_screen("Maybe").is_none());
}

fn cols<'a>(run: &'a str, pass: &'a str) -> CardColumns<'a> {
    CardColumns { run_num: run, pass_num: pass, sl: "break", il: "LT A", ir: "RG", sr: "E", sc: "Inc", sh: "Orig", qk: "PassRush", lg: "FL" }
}

#[test]
fn cards_from_their_columns() {
    let card = FacData::from_columns(9, &cols("5 (OB)", "11"), String::new(), String::new(), String::new()).unwrap();
    assert_eq!(card.id, 9);
    assert_eq!(card.run_num, RunNum { num: 5, ob: true });
    assert_eq!(card.pass_num, 11);
    assert_eq!(card.lg, PassTarget::Actual(OffensiveBox::FL1));
    assert!(FacData::from_columns(9, &cols("13", "11"), String::new(), String::new(), String::new()).is_none());
    assert!(FacData::from_columns(9, &cols("5", "0"), String::new(), String::new(), String::new()).is_none());
}

fn team() -> TeamID {
    TeamID { name: "Omaha".to_string(), year: "1983".to_string() }
}

fn ol(id: &str) -> Player {
    Player::OL(OLStats { team: team(), name: id.to_string(), id: id.to_string(), position: Position::OL, blocks: 1, pass_block: 1 })
}

fn db(id: &str) -> Player {
    Player::DB(DBStats { team: team(), name: id.to_string(), id: id.to_string(), position: Position::DB, pass_def: -1, pass_rush: 0, intercepts: Range { start: 1, end: 2 } })
}

fn qb(id: &str) -> Player {
    let t = RangedStats::create(
        vec![PassResult::Complete, PassResult::Incomplete, PassResult::Interception],
        vec![Range { start: 1, end: 6 }, Range { start: 7, end: 11 }, Range { start: 12, end: 12 }],
    )
    .unwrap();
    let pr = RangedStats::create(
        vec![spf::standard_play::PassRushResult::Sack, spf::standard_play::PassRushResult::Runs],
        vec![Range { start: 1, end: 4 }, Range { start: 5, end: 12 }],
    )
    .unwrap();
    Player::QB(QBStats {
        team: team(),
        name: id.to_string(),
        id: id.to_string(),
        position: Position::QB,
        endurance: 'A',
        quick: t.clone(),
        short: t.clone(),
        long: t,
        long_run: 'R',
        pass_rush: pr,
        endurance_rushing: 0,
        rushing: TwelveStats { stats: vec![NumStat::Val(1); 12] },
    })
}

fn roster() -> Roster {
    Roster { team_name: team(), players: vec![qb("QB-0"), ol("OL-1"), ol("OL-2"), ol("OL-3"), ol("OL-4"), ol("OL-5"), db("DB-1")] }
}

fn ids(qb: Option<&str>, le: Option<&str>) -> StandardIDOffenseLineup {
    let s = |v: &str| Some(v.to_string());
    StandardIDOffenseLineup {
        le: le.map(|v| v.to_string()),
        re: None,
        fl1: None,
        fl2: None,
        qb: qb.map(|v| v.to_string()),
        b1: None,
        b2: None,
        b3: None,
        lt: s("OL-1"),
        lg: s("OL-2"),
        c: s("OL-3"),
        rg: s("OL-4"),
        rt: s("OL-5"),
    }
}

#[test]
fn lineups_from_player_ids() {
    let r = roster();
    assert_eq!(r.get_player(&"OL-3".to_string()).map(|p| p.get_pos()), Some(Position::OL));
    assert!(r.get_player(&"OL-9".to_string()).is_none());
    let off = StandardOffensiveLineup::create_lineup(&ids(Some("QB-0"), None), &r).unwrap();
    let back = off.convert_to_id_lineup();
    assert_eq!(back.qb, Some("QB-0".to_string()));
    assert_eq!(back.rt, Some("OL-5".to_string()));
    assert_eq!(back.le, None);
    assert!(StandardOffensiveLineup::create_lineup(&ids(None, None), &r).is_err());
    assert!(StandardOffensiveLineup::create_lineup(&ids(Some("OL-1"), None), &r).is_err());
    assert!(StandardOffensiveLineup::create_lineup(&ids(Some("QB-0"), Some("DB-1")), &r).is_err());
    assert!(LineupUtilities::get_player_from_id_or_err(&Some("DB-1".to_string()), &r, SlotKind::Secondary).is_ok());
    assert!(LineupUtilities::get_option_player_from_id(&None, &r, SlotKind::Back).unwrap().is_none());

    let mut boxes: Vec<Vec<String>> = vec![Vec::new(); 15];
    boxes[13].push("DB-1".to_string());
    let def = StandardDefensiveLineup::create_lineup(&StandardIDDefenseLineup { boxes: boxes.clone() }, &r).unwrap();
    assert_eq!(def.get_players_in_pos(&DefensiveBox::BoxN).len(), 1);
    assert_eq!(def.convert_to_id_lineup().boxes, boxes);
    boxes[0].push("OL-1".to_string());
    assert!(StandardDefensiveLineup::create_lineup(&StandardIDDefenseLineup { boxes: boxes.clone() }, &r).is_err());
    boxes[0].clear();
    boxes[13].push("DB-1".to_string());
    assert!(StandardDefensiveLineup::create_lineup(&StandardIDDefenseLineup { boxes }, &r).is_err());
}

#[test]
fn table_lines_are_trimmed_and_read() {
    let (tag, range) = Range::get_tag_and_range("  Com : 1-5 ", ':');
    assert_eq!(tag, "Com");
    assert_eq!(range, Range { start: 1, end: 5 });
    let (tag, range) = Range::get_tag_and_range("Inc", ':');
    assert_eq!(tag, "Inc");
    assert_eq!(range, Range { start: 49, end: 49 });
    let lines = ["Com: 1-6", "Inc: 7-11", "Int: 12", "Xyz: 3-4"];
    let t: RangedStats<PassResult> = RangedStats::create_from_strs(&lines, ':').unwrap();
    assert_eq!(t.get_category(6, 0), PassResult::Complete);
    assert_eq!(t.get_category(12, 0), PassResult::Interception);
    let gap = ["Com: 1-5", "Inc: 7-11", "Int: 12"];
    assert!(RangedStats::<PassResult>::create_from_strs(&gap, ':').is_err());
}

#[test]
fn gain_entries_from_text() {
    let t = spf::players::TripleStat::create_from_str("N/SG/LG".to_string(), "3/Sg/-1").unwrap();
    assert_eq!(t.get_val("N".to_string()), Some(&NumStat::Val(3)));
    assert_eq!(t.get_val("SG".to_string()), Some(&NumStat::Sg));
    assert_eq!(t.get_val("LG".to_string()), Some(&NumStat::Val(-1)));
    assert!(spf::players::TripleStat::create_from_str("N/N".to_string(), "3/4").is_none());
    assert!(spf::players::TripleStat::create_from_str("N".to_string(), "3/4").is_none());
    let short = spf::players::TripleStat::create_from_str("N/SG/LG".to_string(), "7").unwrap();
    assert_eq!(short.get_val("SG".to_string()), None);
}

#[test]
fn text_splits_at_every_separator() {
    assert_eq!(spf::text::split_text("a/b//c", '/'), vec!["a", "b", "", "c"]);
    assert_eq!(spf::text::split_text("", '/'), vec![""]);
}

#[test]
fn team_ids_from_text() {
    let t = TeamID::create_from_str(" 1983 SanDiego ");
    assert_eq!(t.year, "1983");
    assert_eq!(t.name, "San Diego");
    let t = TeamID::create_from_str("1984 Dallas");
    assert_eq!(t.name, "Dallas");
    let t = TeamID::create_from_str("1983");
    assert_eq!(t.year, "1983");
    assert_eq!(t.name, "Omaha");
    let t = TeamID::create_from_str("1983 NY Jets");
    assert_eq!(t.name, "N.Y. Jets");
}
