use spf::engine::{run_play, DefenseCall, KickoffOffenseCall, OffenseCall, Play, StandardPlay};
use spf::fac::{FacCard, FacData, FacManager, PassTarget, RunDirection, RunDirectionActual, RunNum, ScreenResult};
use spf::game::{Down, GamePlayStatus, GameState, GameTeams, PlayType};
use spf::kick_play::{KickPlayImpl, KickoffPlay};
use spf::lineup::{
    DefensiveBox, DefensiveRow, KickoffIDDefenseLineup, KickoffIDOffenseLineup, OffensiveBox, Roster, StandardDefensiveLineup,
    StandardOffensiveLineup,
};
use spf::pass_play::PassUtils;
use spf::play::{CardResults, CardStreamer, PlayResult, ResultType};
use spf::players::{
    DBStats, DLStats, KRStats, KStats, LBStats, OLStats, Player, Position, QBStats, RBStats, ReturnStat, Returner, TeamID,
    TripleStat, WRStats,
};
use spf::result_handler::calculate_play_result;
use spf::run_play::{get_lg_yardage, RunUtils};
use spf::standard_play::{
    get_offensive_play_info, DefensivePlay, DefensiveStrategy, OffensivePlayType, OffensiveStrategy, PassResult,
    PassRushResult, PlaySetup, StandardDefenseCall, StandardOffenseCall,
};
use spf::stats::{LabeledStat, NumStat, Range, RangedStats, StatsError, TwelveStats};

fn team() -> TeamID {
    TeamID { name: "Omaha".to_string(), year: "1983".to_string() }
}

fn gain_table(v: NumStat) -> TwelveStats<TripleStat> {
    let mut stats = Vec::new();
    for _ in 0..12 {
        let labels = vec!["N".to_string(), "Q".to_string(), "S".to_string(), "L".to_string()];
        stats.push(TripleStat { stats: LabeledStat::create(labels, vec![v, v, v, v]).unwrap() });
    }
    TwelveStats { stats }
}

fn rb(id: &str, v: NumStat, lg: char, blocks: i32) -> Player {
    Player::RB(RBStats {
        team: team(),
        name: id.to_string(),
        id: id.to_string(),
        position: Position::RB,
        rushing: gain_table(v),
        pass_gain: gain_table(v),
        lg,
        blocks,
    })
}

fn wr(id: &str, v: NumStat) -> Player {
    Player::WR(WRStats {
        team: team(),
        name: id.to_string(),
        id: id.to_string(),
        position: Position::WR,
        rushing: gain_table(v),
        pass_gain: gain_table(v),
        end: 0,
        lg: 'C',
        blocks: 1,
    })
}

fn ol(id: &str, blocks: i32, pass_block: i32) -> Player {
    Player::OL(OLStats { team: team(), name: id.to_string(), id: id.to_string(), position: Position::OL, blocks, pass_block })
}

fn pass_table(com_end: i32, inc_end: i32) -> RangedStats<PassResult> {
    RangedStats::create(
        vec![PassResult::Complete, PassResult::Incomplete, PassResult::Interception],
        vec![Range { start: 1, end: com_end }, Range { start: com_end + 1, end: inc_end }, Range { start: inc_end + 1, end: 12 }],
    )
    .unwrap()
}

fn qb() -> Player {
    let mut rushing = Vec::new();
    for _ in 0..12 {
        rushing.push(NumStat::Val(4));
    }
    Player::QB(QBStats {
        team: team(),
        name: "QB".to_string(),
        id: "QB-0".to_string(),
        position: Position::QB,
        endurance: 'A',
        quick: pass_table(6, 10),
        short: pass_table(5, 9),
        long: pass_table(3, 8),
        long_run: 'R',
        pass_rush: RangedStats::create(
            vec![PassRushResult::Sack, PassRushResult::Runs, PassRushResult::Complete, PassRushResult::Incomplete],
            vec![
                Range { start: 1, end: 3 },
                Range { start: 4, end: 5 },
                Range { start: 6, end: 9 },
                Range { start: 10, end: 12 },
            ],
        )
        .unwrap(),
        endurance_rushing: 0,
        rushing: TwelveStats { stats: rushing },
    })
}

fn offense(back: NumStat) -> StandardOffensiveLineup {
    StandardOffensiveLineup {
        le: Some(wr("WR-1", NumStat::Val(8))),
        re: Some(wr("WR-2", NumStat::Val(8))),
        fl1: Some(wr("WR-3", NumStat::Val(12))),
        fl2: None,
        qb: qb(),
        b1: Some(rb("RB-1", back, 'C', 2)),
        b2: Some(rb("RB-2", back, 'E', 1)),
        b3: None,
        lt: ol("OL-1", 2, 1),
        lg: ol("OL-2", 2, 1),
        c: ol("OL-3", 2, 1),
        rg: ol("OL-4", 2, 1),
        rt: ol("OL-5", 2, 1),
    }
}

fn dl(id: &str) -> Player {
    Player::DL(DLStats { team: team(), name: id.to_string(), id: id.to_string(), position: Position::DL, tackles: -2, pass_rush: 1 })
}

fn lb(id: &str) -> Player {
    Player::LB(LBStats {
        team: team(),
        name: id.to_string(),
        id: id.to_string(),
        position: Position::LB,
        tackles: -3,
        pass_rush: 1,
        pass_def: -1,
        intercepts: Range { start: 1, end: 2 },
    })
}

fn db(id: &str) -> Player {
    Player::DB(DBStats {
        team: team(),
        name: id.to_string(),
        id: id.to_string(),
        position: Position::DB,
        pass_def: -2,
        pass_rush: 0,
        intercepts: Range { start: 1, end: 3 },
    })
}

fn defense() -> StandardDefensiveLineup {
    let mut boxes: Vec<Vec<Player>> = Vec::new();
    for _ in 0..15 {
        boxes.push(Vec::new());
    }
    boxes[0].push(dl("DL-1"));
    boxes[1].push(dl("DL-2"));
    boxes[2].push(dl("DL-3"));
    boxes[3].push(dl("DL-4"));
    boxes[6].push(lb("LB-1"));
    boxes[7].push(lb("LB-2"));
    boxes[8].push(lb("LB-3"));
    boxes[10].push(db("DB-1"));
    boxes[12].push(db("DB-2"));
    boxes[13].push(db("DB-3"));
    boxes[14].push(db("DB-4"));
    StandardDefensiveLineup { boxes }
}

fn card(id: i32, run: i32, pass: i32, dir: RunDirection, target: PassTarget) -> FacData {
    FacData {
        id,
        run_num: RunNum { num: run, ob: false },
        pass_num: pass,
        sl: dir.clone(),
        il: dir.clone(),
        ir: dir.clone(),
        sr: dir,
        er: String::new(),
        sc: ScreenResult { result: PassResult::Complete, multiplier_pct: 100 },
        sh: target,
        qk: target,
        lg: target,
        z_result: String::new(),
        solitaire: String::new(),
    }
}

fn state(line: i32, marker: i32, down: Down, possesion: GameTeams) -> GameState {
    GameState {
        last_status: GamePlayStatus::Ongoing,
        quarter: 1,
        time_remaining: 500,
        possesion,
        down,
        yardline: line,
        first_down_target: marker,
        home_score: 0,
        away_score: 0,
    }
}

fn result(kind: ResultType, final_line: i32) -> PlayResult {
    PlayResult {
        result_type: kind,
        result: 0,
        final_line,
        time: 10,
        details: vec![],
        mechanic: vec![],
        extra: None,
        cards: CardResults { had_z: false, cards_flipped: vec![] },
    }
}

#[test]
fn touchdown_from_the_eight() {
    let s = state(92, 100, Down::First, GameTeams::Away);
    let n = calculate_play_result(&s, &result(ResultType::Regular, 101));
    assert_eq!(n.last_status, GamePlayStatus::Touchdown);
    assert_eq!(n.away_score, 6);
    assert_eq!(n.home_score, 0);
}

#[test]
fn safety_behind_own_goal() {
    let s = state(5, 15, Down::Second, GameTeams::Home);
    let n = calculate_play_result(&s, &result(ResultType::Regular, -3));
    assert_eq!(n.last_status, GamePlayStatus::Safety);
    assert_eq!(n.away_score, 2);
    assert_eq!(n.home_score, 0);
}

#[test]
fn turnover_on_downs_flips_the_line() {
    let mut s = state(30, 40, Down::First, GameTeams::Home);
    for line in [32, 34, 36] {
        s = calculate_play_result(&s, &result(ResultType::Regular, line));
        assert_eq!(s.last_status, GamePlayStatus::Ongoing);
    }
    assert_eq!(s.down, Down::Fourth);
    let n = calculate_play_result(&s, &result(ResultType::Regular, 38));
    assert_eq!(n.last_status, GamePlayStatus::PossesionChange);
    assert_eq!(n.possesion, GameTeams::Away);
    assert_eq!(n.yardline, 62);
    assert_eq!(n.first_down_target, 72);
    assert_eq!(n.down, Down::First);
}

#[test]
fn first_down_moves_the_marker() {
    let s = state(30, 40, Down::Third, GameTeams::Home);
    let n = calculate_play_result(&s, &result(ResultType::Regular, 95));
    assert_eq!(n.down, Down::First);
    assert_eq!(n.first_down_target, 100);
    assert_eq!(n.last_status, GamePlayStatus::Ongoing);
}

#[test]
fn interception_return_into_end_zone_scores_for_defense() {
    let s = state(10, 20, Down::First, GameTeams::Home);
    let n = calculate_play_result(&s, &result(ResultType::TurnOver, -4));
    assert_eq!(n.last_status, GamePlayStatus::Touchdown);
    assert_eq!(n.possesion, GameTeams::Away);
    assert_eq!(n.away_score, 6);
}

#[test]
fn clock_rolls_into_next_quarter_and_stops_after_last() {
    let mut s = state(30, 40, Down::First, GameTeams::Home);
    s.time_remaining = 5;
    let n = calculate_play_result(&s, &result(ResultType::Regular, 32));
    assert_eq!(n.quarter, 2);
    assert_eq!(n.time_remaining, 900);
    s.quarter = 4;
    let n = calculate_play_result(&s, &result(ResultType::Regular, 32));
    assert_eq!(n.quarter, 4);
    assert_eq!(n.time_remaining, 0);
}

#[test]
fn deck_never_runs_dry() {
    let facs = vec![
        FacCard::Data(card(1, 3, 4, RunDirection::Break, PassTarget::Orig)),
        FacCard::Z,
        FacCard::Data(card(2, 5, 6, RunDirection::Break, PassTarget::Orig)),
    ];
    let mut deck = FacManager::new(facs);
    let drawn = deck.draw_many(5 * 3 + 1);
    assert_eq!(drawn.len(), 16);
    assert!(drawn.iter().all(|&i| i < 3));
    for _ in 0..(5 * 3 + 1) {
        let i = deck.get_fac(false);
        assert!(i < 3);
    }
    let i = deck.get_fac(true);
    assert!(i < 3);
    assert_eq!(deck.pile_len(), 2);
}

#[test]
fn stream_skips_special_cards_and_flags_early_ones() {
    let facs = vec![FacCard::Data(card(7, 3, 4, RunDirection::Break, PassTarget::Orig)), FacCard::Z];
    let deck = FacManager::with_pile(facs, vec![0, 1]);
    let mut stream = CardStreamer::new(deck);
    let i = stream.get_fac();
    assert_eq!(i, 0);
    assert!(stream.had_z);
    assert_eq!(stream.get_results().cards_flipped, vec![7]);
}

#[test]
fn category_shift_moves_the_boundary() {
    let t = pass_table(5, 9);
    assert_eq!(t.get_category(5, 0), PassResult::Complete);
    assert_eq!(t.get_category(6, 0), PassResult::Incomplete);
    assert_eq!(t.get_category(6, 1), PassResult::Complete);
    assert_eq!(t.get_category(5, -1), PassResult::Incomplete);
    assert_eq!(t.get_category(8, 20), PassResult::Complete);
    assert_eq!(t.get_category(9, 20), PassResult::Incomplete);
    assert_eq!(t.get_category(9, 0), PassResult::Incomplete);
    assert_eq!(t.get_category(10, 20), PassResult::Interception);
    assert_eq!(t.get_category(1, -20), PassResult::Complete);
    assert_eq!(t.get_category(2, -20), PassResult::Incomplete);
}

#[test]
fn ranged_stats_refuse_gaps_and_missing_pair() {
    let r = RangedStats::create(
        vec![PassResult::Complete, PassResult::Incomplete],
        vec![Range { start: 1, end: 5 }, Range { start: 7, end: 12 }],
    );
    assert_eq!(r.err(), Some(StatsError::BadRanges));
    let r = RangedStats::create(
        vec![PassResult::Interception, PassResult::Complete],
        vec![Range { start: 1, end: 5 }, Range { start: 6, end: 12 }],
    );
    assert_eq!(r.err(), Some(StatsError::BadRanges));
    let r = RangedStats::create(vec![PassResult::Complete], vec![]);
    assert_eq!(r.err(), Some(StatsError::LengthMismatch));
}

#[test]
fn labeled_stat_lookup_and_errors() {
    let t = LabeledStat::create(vec!["DL".to_string(), "LB".to_string()], vec![3, 10]).unwrap();
    assert_eq!(t.get_val("LB".to_string()), Some(&10));
    assert_eq!(t.get_val("DB".to_string()), None);
    let e = LabeledStat::create(vec!["DL".to_string(), "DL".to_string()], vec![3, 10]);
    assert_eq!(e.err().map(|_| 0), Some(0));
    let e = LabeledStat::<i32>::create(vec!["DL".to_string()], vec![]);
    assert!(matches!(e, Err(StatsError::LengthMismatch)));
}

#[test]
fn breakaway_yards_by_letter() {
    assert_eq!(get_lg_yardage('A'), 100);
    assert_eq!(get_lg_yardage('C'), 90);
    assert_eq!(get_lg_yardage('R'), 15);
}

fn run_setup_play(play_type: OffensivePlayType, strategy: OffensiveStrategy, target: OffensiveBox, dtype: DefensivePlay, key: Option<OffensiveBox>, blitzers: Vec<String>) -> StandardPlay {
    let mut p = StandardPlay::new();
    p.set_offense_lineup(offense(NumStat::Val(3))).unwrap();
    p.set_defense_lineup(defense()).unwrap();
    p.set_offense_call(OffenseCall::StandardOffenseCall(StandardOffenseCall { play_type, strategy, target })).unwrap();
    p.set_defense_call(DefenseCall::StandardDefenseCall(StandardDefenseCall {
        defense_type: dtype,
        strategy: DefensiveStrategy::Straight,
        key,
        def_players: blitzers,
    }))
    .unwrap();
    p
}

#[test]
fn breakaway_run_goes_the_distance() {
    let facs = vec![FacCard::Data(card(1, 4, 4, RunDirection::Break, PassTarget::Orig))];
    let mut deck = FacManager::new(facs);
    let s = state(20, 30, Down::First, GameTeams::Home);
    let p = run_setup_play(OffensivePlayType::SL, OffensiveStrategy::NoStrategy, OffensiveBox::B1, DefensivePlay::PassDefense, None, vec![]);
    let ps = run_play(&s, &mut deck, Play::StandardPlay(p)).unwrap();
    assert_eq!(ps.result.result, 90);
    assert_eq!(ps.result.final_line, 110);
    assert_eq!(ps.result.time, 40);
    assert_eq!(ps.new_state.last_status, GamePlayStatus::Touchdown);
    assert_eq!(ps.new_state.home_score, 6);
}

#[test]
fn run_against_keyed_run_defense() {
    // run number 4 keyed correctly becomes 8; the table gives 3 everywhere;
    // block 2 by the left tackle against a lone tackle of -2: the sum is 0.
    let dir = RunDirection::Actual(RunDirectionActual {
        offensive_boxes: vec![OffensiveBox::LT],
        defensive_boxes: vec![DefensiveBox::BoxA],
    });
    let facs = vec![FacCard::Data(card(1, 4, 4, dir, PassTarget::Orig))];
    let mut cards = CardStreamer::new(FacManager::new(facs));
    let s = state(20, 30, Down::First, GameTeams::Home);
    let off = offense(NumStat::Val(3));
    let call = StandardOffenseCall { play_type: OffensivePlayType::IL, strategy: OffensiveStrategy::NoStrategy, target: OffensiveBox::B1 };
    let dcall = StandardDefenseCall { defense_type: DefensivePlay::RunDefense, strategy: DefensiveStrategy::Straight, key: Some(OffensiveBox::B1), def_players: vec![] };
    let meta = get_offensive_play_info(&call.play_type);
    let setup = PlaySetup { offense: &off, offense_call: &call, defense: defense(), defense_call: &dcall, offense_metadata: &meta };
    let r = RunUtils::handle_run_play(&s, setup, &mut cards);
    assert_eq!(r.result_type, ResultType::Regular);
    assert_eq!(r.result, 3);
    assert_eq!(r.final_line, 23);
    assert_eq!(r.time, 40);
    assert_eq!(cards.cards_flipped, vec![1, 1]);
}

#[test]
fn run_with_only_empty_defensive_boxes_gains_two_more() {
    let dir = RunDirection::Actual(RunDirectionActual { offensive_boxes: vec![], defensive_boxes: vec![DefensiveBox::BoxE] });
    let facs = vec![FacCard::Data(card(1, 4, 4, dir, PassTarget::Orig))];
    let mut cards = CardStreamer::new(FacManager::new(facs));
    let s = state(20, 30, Down::First, GameTeams::Home);
    let off = offense(NumStat::Val(-5));
    let call = StandardOffenseCall { play_type: OffensivePlayType::IR, strategy: OffensiveStrategy::NoStrategy, target: OffensiveBox::B2 };
    let dcall = StandardDefenseCall { defense_type: DefensivePlay::PassDefense, strategy: DefensiveStrategy::Straight, key: None, def_players: vec![] };
    let meta = get_offensive_play_info(&call.play_type);
    let setup = PlaySetup { offense: &off, offense_call: &call, defense: defense(), defense_call: &dcall, offense_metadata: &meta };
    let r = RunUtils::handle_run_play(&s, setup, &mut cards);
    // -5 + 2 = -3, which is the inside run's largest loss
    assert_eq!(r.result, -3);
}

#[test]
fn long_pass_intercepted_against_pass_defense() {
    // pass number 12 falls in the interception range; run number 5 gives box N
    // for a long pass, 4 * 5 = 20 yards downfield, and a defensive back's
    // return of 15 on row 5.
    let facs = vec![FacCard::Data(card(3, 5, 12, RunDirection::Break, PassTarget::Orig))];
    let mut cards = CardStreamer::new(FacManager::new(facs));
    let s = state(40, 50, Down::First, GameTeams::Home);
    let off = offense(NumStat::Val(3));
    let call = StandardOffenseCall { play_type: OffensivePlayType::LG, strategy: OffensiveStrategy::NoStrategy, target: OffensiveBox::LE };
    let dcall = StandardDefenseCall { defense_type: DefensivePlay::PassDefense, strategy: DefensiveStrategy::Straight, key: None, def_players: vec![] };
    let meta = get_offensive_play_info(&call.play_type);
    let setup = PlaySetup { offense: &off, offense_call: &call, defense: defense(), defense_call: &dcall, offense_metadata: &meta };
    let r = PassUtils::handle_pass_play(&s, setup, &mut cards);
    assert_eq!(r.result_type, ResultType::TurnOver);
    assert_eq!(r.result, 20 - 15);
    assert_eq!(r.final_line, 45);
    assert_eq!(r.time, 40);
}

#[test]
fn completed_quick_pass_gains_table_value() {
    let facs = vec![FacCard::Data(card(3, 5, 1, RunDirection::Break, PassTarget::Orig))];
    let mut cards = CardStreamer::new(FacManager::new(facs));
    let s = state(40, 50, Down::First, GameTeams::Home);
    let off = offense(NumStat::Val(3));
    let call = StandardOffenseCall { play_type: OffensivePlayType::QK, strategy: OffensiveStrategy::NoStrategy, target: OffensiveBox::FL1 };
    let dcall = StandardDefenseCall { defense_type: DefensivePlay::RunDefense, strategy: DefensiveStrategy::Straight, key: None, def_players: vec![] };
    let meta = get_offensive_play_info(&call.play_type);
    let setup = PlaySetup { offense: &off, offense_call: &call, defense: defense(), defense_call: &dcall, offense_metadata: &meta };
    let r = PassUtils::handle_pass_play(&s, setup, &mut cards);
    assert_eq!(r.result_type, ResultType::Regular);
    assert_eq!(r.result, 12);
    assert_eq!(r.final_line, 52);
    assert_eq!(r.time, 40);
}

#[test]
fn pass_to_empty_alternate_target_is_incomplete() {
    let facs = vec![FacCard::Data(card(3, 5, 1, RunDirection::Break, PassTarget::Actual(OffensiveBox::FL2)))];
    let mut cards = CardStreamer::new(FacManager::new(facs));
    let s = state(40, 50, Down::First, GameTeams::Home);
    let off = offense(NumStat::Val(3));
    let call = StandardOffenseCall { play_type: OffensivePlayType::SH, strategy: OffensiveStrategy::NoStrategy, target: OffensiveBox::FL1 };
    let dcall = StandardDefenseCall { defense_type: DefensivePlay::RunDefense, strategy: DefensiveStrategy::Straight, key: None, def_players: vec![] };
    let meta = get_offensive_play_info(&call.play_type);
    let setup = PlaySetup { offense: &off, offense_call: &call, defense: defense(), defense_call: &dcall, offense_metadata: &meta };
    let r = PassUtils::handle_pass_play(&s, setup, &mut cards);
    assert_eq!(r.result, 0);
    assert_eq!(r.time, 10);
    assert_eq!(cards.cards_flipped.len(), 1);
}

#[test]
fn blitz_sacks_the_quarterback() {
    // five linemen block 5; four linemen rush 4 plus one linebacker, two
    // blitzers: (5 - 5) * 2 + 2 = 2 moves the sack range to 1-5; pass number 3
    // sacks for 3 / 3 = 1 yard.
    let facs = vec![FacCard::Data(card(3, 5, 3, RunDirection::Break, PassTarget::Orig))];
    let mut deck = FacManager::new(facs);
    let s = state(40, 50, Down::First, GameTeams::Home);
    let p = run_setup_play(
        OffensivePlayType::SH,
        OffensiveStrategy::NoStrategy,
        OffensiveBox::FL1,
        DefensivePlay::Blitz,
        None,
        vec!["LB-1".to_string(), "DB-1".to_string()],
    );
    let ps = run_play(&s, &mut deck, Play::StandardPlay(p)).unwrap();
    assert_eq!(ps.result.result, -1);
    assert_eq!(ps.result.time, 40);
    assert_eq!(ps.new_state.down, Down::Second);
}

#[test]
fn illegal_calls_are_refused() {
    let mut p = StandardPlay::new();
    assert!(p.validate().is_err());
    p.set_offense_lineup(offense(NumStat::Val(3))).unwrap();
    p.set_defense_lineup(defense()).unwrap();
    let bad_target = StandardOffenseCall { play_type: OffensivePlayType::SL, strategy: OffensiveStrategy::NoStrategy, target: OffensiveBox::LE };
    assert!(p.set_offense_call(OffenseCall::StandardOffenseCall(bad_target)).is_err());
    let empty_back = StandardOffenseCall { play_type: OffensivePlayType::SL, strategy: OffensiveStrategy::NoStrategy, target: OffensiveBox::B3 };
    assert!(p.set_offense_call(OffenseCall::StandardOffenseCall(empty_back)).is_err());
    let bad_draw = StandardOffenseCall { play_type: OffensivePlayType::SL, strategy: OffensiveStrategy::Draw, target: OffensiveBox::B1 };
    assert!(p.set_offense_call(OffenseCall::StandardOffenseCall(bad_draw)).is_err());
    let one_blitzer = StandardDefenseCall { defense_type: DefensivePlay::Blitz, strategy: DefensiveStrategy::Straight, key: None, def_players: vec!["LB-1".to_string()] };
    assert!(p.set_defense_call(DefenseCall::StandardDefenseCall(one_blitzer)).is_err());
    let unknown = StandardDefenseCall { defense_type: DefensivePlay::PassDefense, strategy: DefensiveStrategy::Straight, key: None, def_players: vec!["XX-9".to_string()] };
    assert!(p.set_defense_call(DefenseCall::StandardDefenseCall(unknown)).is_err());
    let mut deck = FacManager::new(vec![FacCard::Data(card(1, 4, 4, RunDirection::Break, PassTarget::Orig))]);
    let s = state(20, 30, Down::First, GameTeams::Home);
    assert!(run_play(&s, &mut deck, Play::StandardPlay(p)).is_err());
    assert_eq!(deck.pile_len(), 0);
}

#[test]
fn lineup_legality() {
    assert!(offense(NumStat::Val(3)).is_legal_lineup().is_ok());
    let mut o = offense(NumStat::Val(3));
    o.fl1 = None;
    assert!(o.is_legal_lineup().is_err());
    assert!(defense().is_legal_lineup().is_ok());
    let mut d = defense();
    d.boxes[11].push(db("DB-9"));
    assert!(d.is_legal_lineup().is_err());
    assert_eq!(d.find_player(&"LB-2".to_string()), Some(DefensiveBox::BoxH));
    assert_eq!(d.find_player(&"ZZ".to_string()), None);
    let f = defense().filter_players(&vec!["LB-2".to_string()]);
    assert_eq!(f.get_players_in_pos(&DefensiveBox::BoxH).len(), 0);
    assert_eq!(f.get_players_in_pos(&DefensiveBox::BoxG).len(), 1);
}

fn returner(yards: i32, asterisk: bool) -> Returner {
    let mut stats = Vec::new();
    for _ in 0..12 {
        stats.push(ReturnStat { yards, asterisk });
    }
    Returner::Actual { name: "KR".to_string(), return_stats: TwelveStats { stats }, asterisk_val: 100 }
}

fn kickoff(onside: bool) -> KickoffPlay {
    let mut k = KickoffPlay::new();
    k.onside = Some(onside);
    k.kr = Some(KRStats {
        team: team(),
        name: "KR".to_string(),
        id: "KR-0".to_string(),
        position: Position::KR,
        returners: vec![Returner::SameAs(2), returner(25, false), returner(30, false), returner(35, true)],
    });
    k
}

#[test]
fn kickoff_alias_uses_second_returner() {
    // run number 2 gives a return by returner 1 from the goal line; returner 1
    // is "same as returner 2", whose table gives 25.
    let facs = vec![FacCard::Data(card(1, 2, 4, RunDirection::Break, PassTarget::Orig))];
    let mut cards = CardStreamer::new(FacManager::new(facs));
    let s = GameState::start_state();
    let r = KickPlayImpl::run_play(&s, &kickoff(false), &mut cards);
    assert_eq!(r.result_type, ResultType::TurnOver);
    assert_eq!(r.result, 25);
    assert_eq!(r.final_line, 75);
    let n = calculate_play_result(&s, &r);
    assert_eq!(n.yardline, 25);
    assert_eq!(n.possesion, GameTeams::Home);
}

#[test]
fn kickoff_touchback_and_onside() {
    let facs = vec![FacCard::Data(card(1, 11, 12, RunDirection::Break, PassTarget::Orig))];
    let mut cards = CardStreamer::new(FacManager::new(facs));
    let s = GameState::start_state();
    let r = KickPlayImpl::run_play(&s, &kickoff(false), &mut cards);
    assert_eq!(r.final_line, 80);
    let n = calculate_play_result(&s, &r);
    assert_eq!(n.yardline, 20);
    let r = KickPlayImpl::run_play(&s, &kickoff(true), &mut cards);
    assert_eq!(r.result_type, ResultType::TurnOver);
    assert_eq!(r.final_line, 50);
}

#[test]
fn next_play_types_follow_status() {
    let mut s = GameState::start_state();
    assert_eq!(s.get_next_move_types(), vec![PlayType::Kickoff]);
    s.last_status = GamePlayStatus::Ongoing;
    assert_eq!(s.get_next_move_types(), vec![PlayType::Standard, PlayType::Punt, PlayType::FieldGoal]);
    s.last_status = GamePlayStatus::Touchdown;
    assert_eq!(s.get_next_move_default(), PlayType::ExtraPoint);
    s.last_status = GamePlayStatus::End;
    assert!(s.get_next_move_types().is_empty());
    assert_eq!(s.get_next_move_default(), PlayType::NoPlay);
}

#[test]
fn play_types_create_matching_plays() {
    assert!(matches!(PlayType::Standard.create_impl(), Play::StandardPlay(_)));
    assert!(matches!(PlayType::Kickoff.create_impl(), Play::Kickoff(_)));
    assert!(matches!(PlayType::Punt.create_impl(), Play::Kickoff(_)));
    assert_eq!(PlayType::Standard.create_impl().get_type(), PlayType::Standard);
}

#[test]
fn kickoff_setup_from_roster_and_call() {
    let roster = Roster {
        team_name: team(),
        players: vec![
            Player::K(KStats { team: team(), name: "K".to_string(), id: "K-0".to_string(), position: Position::K }),
            kickoff(false).kr.map(Player::KR).unwrap(),
            ol("OL-1", 1, 1),
        ],
    };
    let mut k = KickoffPlay::new();
    assert!(k.set_offense_lineup(&KickoffIDOffenseLineup { k: "OL-1".to_string() }, &roster).is_err());
    assert!(k.k.is_none());
    assert!(k.set_offense_lineup(&KickoffIDOffenseLineup { k: "K-0".to_string() }, &roster).is_ok());
    assert!(k.set_defense_lineup(&KickoffIDDefenseLineup { kr: "K-0".to_string() }, &roster).is_err());
    assert!(k.set_defense_lineup(&KickoffIDDefenseLineup { kr: "KR-0".to_string() }, &roster).is_ok());
    assert!(k.set_offense_call(OffenseCall::KickoffOffenseCall(KickoffOffenseCall { onside: true })).is_ok());
    assert_eq!(k.onside, Some(true));
    let mut deck = FacManager::new(vec![FacCard::Data(card(1, 4, 12, RunDirection::Break, PassTarget::Orig))]);
    let ps = run_play(&GameState::start_state(), &mut deck, Play::Kickoff(k)).unwrap();
    // pass number 12 on an onside kick: the receiving team recovers at midfield
    assert_eq!(ps.result.result_type, ResultType::TurnOver);
    assert_eq!(ps.new_state.possesion, GameTeams::Home);
    assert_eq!(ps.new_state.yardline, 50);
}

#[test]
fn stronger_block_gains_its_margin() {
    // run number 4 and a table of 3 everywhere; the first back blocks 5
    // against the lone tackler of box A at -2, so the offense wins by 3.
    let dir = RunDirection::Actual(RunDirectionActual {
        offensive_boxes: vec![OffensiveBox::B1],
        defensive_boxes: vec![DefensiveBox::BoxA],
    });
    let facs = vec![FacCard::Data(card(1, 4, 4, dir, PassTarget::Orig))];
    let mut cards = CardStreamer::new(FacManager::new(facs));
    let s = state(20, 30, Down::First, GameTeams::Home);
    let mut off = offense(NumStat::Val(3));
    off.b1 = Some(rb("RB-1", NumStat::Val(3), 'C', 5));
    let call = StandardOffenseCall { play_type: OffensivePlayType::SL, strategy: OffensiveStrategy::NoStrategy, target: OffensiveBox::B2 };
    let dcall = StandardDefenseCall { defense_type: DefensivePlay::PassDefense, strategy: DefensiveStrategy::Straight, key: None, def_players: vec![] };
    let meta = get_offensive_play_info(&call.play_type);
    let setup = PlaySetup { offense: &off, offense_call: &call, defense: defense(), defense_call: &dcall, offense_metadata: &meta };
    let r = RunUtils::handle_run_play(&s, setup, &mut cards);
    assert_eq!(r.result, 3 + 3);
}

#[test]
fn crowded_first_row_box_counts_as_empty_row() {
    let mut d = defense();
    assert_eq!(d.get_count_in_row(DefensiveRow::Row1), 4);
    d.boxes[0].push(dl("DL-5"));
    d.boxes[0].push(dl("DL-6"));
    d.boxes[0].push(dl("DL-7"));
    assert_eq!(d.get_count_in_row(DefensiveRow::Row1), 0);
    assert_eq!(d.get_count_in_row(DefensiveRow::Row2), 3);
    assert_eq!(d.get_count_in_row(DefensiveRow::Row3), 4);
}

#[test]
fn range_tables_refuse_repeated_categories() {
    let r = RangedStats::create(
        vec![PassResult::Complete, PassResult::Incomplete, PassResult::Complete],
        vec![Range { start: 1, end: 5 }, Range { start: 6, end: 9 }, Range { start: 10, end: 12 }],
    );
    assert_eq!(r.err(), Some(StatsError::DuplicateCategory));
}

#[test]
fn late_special_card_leaves_flag_clear() {
    // three ordinary cards come first, then the special card
    let facs = vec![
        FacCard::Data(card(1, 3, 4, RunDirection::Break, PassTarget::Orig)),
        FacCard::Data(card(2, 3, 4, RunDirection::Break, PassTarget::Orig)),
        FacCard::Data(card(3, 3, 4, RunDirection::Break, PassTarget::Orig)),
        FacCard::Z,
    ];
    let deck = FacManager::with_pile(facs, vec![3, 2, 1, 0]);
    let mut stream = CardStreamer::new(deck);
    for _ in 0..4 {
        stream.get_fac();
    }
    assert!(!stream.had_z);
    assert_eq!(stream.cards_flipped.len(), 4);
}
