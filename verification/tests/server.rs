use marqueet::hub::feeds::{hash_token, load_feed_tokens, FeedTokens};
use marqueet::hub::history::AlertHistory;
use marqueet::hub::rng::Rng;
use marqueet::hub::logos::{wanted_logos, MAX_PROVIDER_LOGOS};
use marqueet::hub::backfill::{backfill_start, backfill_step, BackfillAction, BackfillState, DayOutcome};
use marqueet::hub::policy::{apply_takeover_policy, non_game_level, AlertLevel, Shown, FeedError, FeedLimits, TakeoverPolicy};
use marqueet::hub::team_art::{TeamArtTable, MAX_ART_TEAMS, MAX_TEAM_ART};
use marqueet::tv_output::{describe, parse, request_text};
use marqueet::config::Resolution;

const MINUTE: i64 = 60_000;

#[test]
fn modes_asked_for() {
    assert_eq!(Resolution::Auto.tv_mode(60), "1920x1080@60");
    assert_eq!(Resolution::P2160.tv_mode(30), "3840x2160@30");
    assert_eq!(Resolution::Native.tv_mode(60), "native");
}

#[test]
fn the_helpers_status_reads_back() {
    let s = parse("applied=1920x1080@60.0\nmodes=3840x2160@30.0, 1920x1080@60.0,1280x720@60.0\n").unwrap();
    assert_eq!(s.applied, "1920x1080@60.0");
    assert_eq!(s.modes.len(), 3);
    assert_eq!(describe(&s.applied), "1920×1080 at 60 Hz");
    assert_eq!(describe("3840x2160@29.97"), "3840×2160 at 29.97 Hz");
    assert!(parse("nothing here").is_none());
    assert!(parse("applied=\n").is_none());
}

#[test]
fn status_lines_in_any_order_with_spaces() {
    let s = parse("  modes = x\nmodes=a,, b ,\r\napplied=  720p \r\napplied=other").unwrap();
    assert_eq!(s.applied, "720p");
    assert_eq!(s.modes, vec!["a".to_owned(), "b".to_owned()]);
    assert_eq!(parse("applied=native").unwrap().modes, Vec::<String>::new());
    assert_eq!(describe("native"), "native");
    assert_eq!(describe("1x1@60.0.0"), "1×1 at 60 Hz");
}

#[test]
fn the_request_is_written_only_when_it_changes() {
    assert_eq!(request_text(None, Resolution::Auto, 60), Some("1920x1080@60\n".into()));
    assert_eq!(request_text(Some(" 1920x1080@60\n"), Resolution::P1080, 60), None);
    assert_eq!(request_text(Some("1920x1080@60\n"), Resolution::P1080, 30), Some("1920x1080@30\n".into()));
    assert_eq!(request_text(Some("x"), Resolution::Native, 30), Some("native\n".into()));
}

#[test]
fn a_real_score_after_a_correction_is_announced() {
    let mut h: AlertHistory<&str> = AlertHistory::new();
    let t0: i64 = 1_700_000_000_000;
    assert!(h.insert("g:goal:0-1", "GOAL", Some("g"), t0));
    // Reviewed and given back straight away: the same moment.
    h.correction("g", t0 + MINUTE);
    assert!(!h.insert("g:goal:0-1", "GOAL", Some("g"), t0 + 2 * MINUTE));
    // Taken off; a real goal much later lands on the same score.
    h.correction("g", t0 + 3 * MINUTE);
    assert!(h.insert("g:goal:0-1", "GOAL", Some("g"), t0 + 20 * MINUTE));
    assert!(!h.insert("g:goal:0-1", "GOAL", Some("g"), t0 + 40 * MINUTE), "no correction since");
    // Without a correction, never twice; other games' corrections don't count.
    assert!(h.insert("h:goal:1-0", "GOAL", Some("h"), t0));
    assert!(!h.insert("h:goal:1-0", "GOAL", Some("h"), t0 + 120 * MINUTE));
    assert!(!h.insert("h:goal:1-0", "GOAL", None, t0 + 120 * MINUTE));
}

#[test]
fn recent_alerts_are_newest_first_and_capped() {
    let mut h: AlertHistory<usize> = AlertHistory::new();
    for i in 0..1100usize {
        assert!(h.insert(&format!("a{i}"), i, None, i as i64));
    }
    assert_eq!(h.recent().len(), 50);
    assert_eq!(h.recent()[0], 1099);
    // The oldest ids were forgotten past 1000, so they're announced again.
    assert!(h.insert("a0", 0, None, 2000));
    assert!(!h.insert("a1099", 0, None, 3000));
}

#[test]
fn feed_tokens_are_kept_hashed() {
    let (mut tokens, save) = load_feed_tokens(vec![("old".into(), "plain-token-from-before".into())]);
    assert!(tokens.feed_authorized("old", "plain-token-from-before"), "old tokens keep working");
    assert_eq!(save.len(), 1);
    assert!(save.iter().all(|(_, v)| v.starts_with("sha256:")), "{save:?}");
    let token = tokens.create_feed("stocks", Some("abc".into())).unwrap();
    assert!(tokens.feed_authorized("stocks", &token) && !tokens.feed_authorized("stocks", "nope"));
    let fresh = tokens.new_feed_token("stocks", Some("def".into())).unwrap();
    assert!(tokens.feed_authorized("stocks", &fresh) && !tokens.feed_authorized("stocks", &token), "old one stops");
    assert!(tokens.new_feed_token("missing", Some("x".into())).is_err());
}

#[test]
fn token_hashes_are_sha256_hex() {
    assert_eq!(hash_token("abc"), "sha256:ba7816bf8f01cfea414140de5dae2223b00361a396177a9cb410ff61f20015ad");
    assert_eq!(hash_token("").len(), 7 + 64);
    let stored = hash_token("t");
    let (t, save) = load_feed_tokens(vec![("a".into(), stored.clone())]);
    assert!(save.is_empty(), "hashes stay as they are");
    assert!(t.feed_authorized("a", "t"));
}

#[test]
fn feeds_are_named_counted_and_revoked() {
    let mut t = FeedTokens::new();
    assert_eq!(t.create_feed("Bad Name", Some("x".into())).unwrap_err(), "feed name \"Bad Name\": use 1-32 of a-z, 0-9, - and _");
    assert_eq!(t.create_feed("", Some("x".into())).unwrap_err(), "feed name \"\": use 1-32 of a-z, 0-9, - and _");
    assert!(t.create_feed(&"a".repeat(33), Some("x".into())).is_err());
    assert_eq!(t.create_feed("ok", None).unwrap_err(), "couldn't generate a token");
    for i in 0..20 {
        t.create_feed(&format!("f-{i:02}"), Some(format!("t{i}"))).unwrap();
    }
    assert_eq!(t.create_feed("f-00", Some("x".into())).unwrap_err(), "a feed called \"f-00\" already exists");
    assert_eq!(t.create_feed("one_more", Some("x".into())).unwrap_err(), "at most 20 feeds");
    let names = t.feed_names();
    assert_eq!(names.len(), 20);
    assert!(names.windows(2).all(|w| w[0] < w[1]));
    assert_eq!(t.revoke_feed("f-03"), Ok(()));
    assert!(!t.feed_authorized("f-03", "t3"));
    assert_eq!(t.revoke_feed("f-03").unwrap_err(), "no feed called \"f-03\"");
    assert!(t.feed_authorized("f-04", "t4"));
    t.create_feed("zz", Some("z".into())).unwrap();
    let names = t.feed_names();
    assert_eq!(names.first().map(String::as_str), Some("f-00"));
    assert_eq!(names.last().map(String::as_str), Some("zz"));
}

fn touchdown() -> Shown<&'static str> {
    Shown { level: AlertLevel::Takeover, takeover: Some("TOUCHDOWN art") }
}

fn flash() -> Shown<&'static str> {
    Shown { level: AlertLevel::Flash, takeover: None }
}

#[test]
fn takeover_policy_downgrades_to_flash() {
    // A BUF touchdown: BUF is the scoring side.
    assert_eq!(apply_takeover_policy(touchdown(), TakeoverPolicy::All, false, false).level, AlertLevel::Takeover);
    assert_eq!(apply_takeover_policy(touchdown(), TakeoverPolicy::Off, true, false).level, AlertLevel::Flash);
    assert_eq!(apply_takeover_policy(touchdown(), TakeoverPolicy::Favorites, true, false).level, AlertLevel::Takeover);
    assert_eq!(
        apply_takeover_policy(touchdown(), TakeoverPolicy::Favorites, false, false).level,
        AlertLevel::Flash,
        "their score, not ours"
    );
    // A downgraded alert loses its takeover content; a kept one keeps it.
    assert_eq!(apply_takeover_policy(touchdown(), TakeoverPolicy::Favorites, false, false), flash());
    assert_eq!(apply_takeover_policy(touchdown(), TakeoverPolicy::All, false, false), touchdown());
}

#[test]
fn my_starter_counts_as_a_favorite() {
    assert_eq!(apply_takeover_policy(touchdown(), TakeoverPolicy::Favorites, false, true), touchdown());
    let f: Shown<&str> = Shown { level: AlertLevel::Flash, takeover: Some("x") };
    assert_eq!(apply_takeover_policy(f.clone(), TakeoverPolicy::Off, true, true), f);
    assert_eq!(non_game_level(touchdown(), TakeoverPolicy::Off), flash());
    assert_eq!(non_game_level(touchdown(), TakeoverPolicy::Favorites), touchdown());
}

#[test]
fn feed_posts_and_alerts_are_rate_limited() {
    let mut l = FeedLimits::new();
    let t: i64 = 1_000_000;
    assert_eq!(l.check_post("a", t), Ok(()));
    assert_eq!(l.check_post("a", t + 500), Err(FeedError::TooSoon(1)));
    assert_eq!(l.check_post("b", t + 500), Ok(()), "another feed");
    assert_eq!(l.check_post("a", t + 2_000), Ok(()));
    assert_eq!(l.check_alert("a", true, t), Ok(()));
    assert_eq!(l.check_alert("a", false, t + 1_000), Err(FeedError::TooSoon(4)));
    assert_eq!(l.check_alert("a", false, t + 5_000), Ok(()));
    assert_eq!(l.check_alert("a", true, t + 10_000), Err(FeedError::TooSoon(20)));
    assert_eq!(l.check_alert("a", true, t + 30_000), Ok(()));
}

fn teams(range: std::ops::Range<usize>, art: bool) -> Vec<(String, bool)> {
    range.map(|i| (format!("t{i}"), art)).collect()
}

#[test]
fn takeover_art_is_capped() {
    let mut table = TeamArtTable::new();
    table.set_team_art(&teams(0..MAX_ART_TEAMS, true)).unwrap();
    assert!(table.set_team_art(&teams(MAX_ART_TEAMS..MAX_ART_TEAMS + 1, true)).unwrap_err().contains("LED takeover art"));
    assert!(table.set_team_art(&teams(0..1, true)).is_ok(), "replacing one's art is fine");
}

#[test]
fn team_art_is_capped() {
    let mut table = TeamArtTable::new();
    table.set_team_art(&teams(0..MAX_TEAM_ART, false)).unwrap();
    let err = table.set_team_art(&teams(MAX_TEAM_ART..MAX_TEAM_ART + 1, false)).unwrap_err();
    assert!(err.contains("250"), "{err}");
    table.set_team_art(&teams(0..1, false)).unwrap();
    assert_eq!(table.len(), MAX_TEAM_ART, "replacing one is fine");
    table.remove_team_art("t0");
    table.set_team_art(&teams(MAX_TEAM_ART..MAX_TEAM_ART + 1, false)).unwrap();
}

#[test]
fn team_art_errors_count_what_it_would_make() {
    let mut table = TeamArtTable::new();
    table.set_team_art(&teams(0..MAX_TEAM_ART, false)).unwrap();
    assert_eq!(
        table.set_team_art(&teams(MAX_TEAM_ART..MAX_TEAM_ART + 2, false)).unwrap_err(),
        "Marqueet keeps colors and logos for up to 250 teams; that would make 252. Remove some first."
    );
    let mut small = TeamArtTable::new();
    assert_eq!(
        small.set_team_art(&teams(0..33, true)).unwrap_err(),
        "Marqueet keeps LED takeover art for up to 32 teams; that would make 33. Remove some first."
    );
    assert_eq!(small.len(), 0, "nothing is added when refused");
}

#[test]
fn rng_is_in_unit_range() {
    let mut r = Rng::seeded("nfl", 123_456_789);
    assert!((0..1000).map(|_| r.unit_bits() as f64 / (1u64 << 53) as f64).all(|u| (0.0..1.0).contains(&u)));
}

#[test]
fn rng_draws_follow_the_seed() {
    // An empty salt at nanosecond zero starts from the FNV-1a offset basis.
    let mut r = Rng::seeded("", 0);
    assert_eq!(r.unit_bits(), 2029537378676737);
    assert_eq!(r.unit_bits(), 136180589604956);
    // The salt and the clock both change the stream.
    assert_eq!(Rng::seeded("nfl", 5).unit_bits(), 5945484790767759);
    assert_ne!(Rng::seeded("nfl", 6).unit_bits(), 5945484790767759);
    assert_ne!(Rng::seeded("nhl", 5).unit_bits(), 5945484790767759);
}

fn team(id: &str, url: Option<&str>) -> (String, Option<String>) {
    (id.to_owned(), url.map(str::to_owned))
}

fn strings(v: &[&str]) -> Vec<String> {
    v.iter().map(|s| (*s).to_owned()).collect()
}

#[test]
fn provider_logos_only_for_new_teams_once_within_the_cap() {
    let teams = vec![
        team("e", None),
        team("a", Some("ua")),
        team("e", Some("ue")),
        team("a", Some("ua2")),
        team("c", Some("uc")),
        team("f", Some("uf")),
        team("d", Some("ud")),
    ];
    let have = strings(&["c"]);
    let failed = strings(&["f"]);
    let pair = |a: &str, b: &str| (a.to_owned(), b.to_owned());
    // "e" is seen first without a link, so it isn't fetched later either.
    assert_eq!(wanted_logos(&teams, &have, &failed, MAX_PROVIDER_LOGOS), vec![pair("a", "ua"), pair("d", "ud")]);
    assert_eq!(wanted_logos(&teams, &have, &failed, 2), vec![pair("a", "ua")]);
    assert_eq!(wanted_logos(&teams, &have, &failed, 1), vec![]);
    assert_eq!(wanted_logos(&teams, &strings(&["c", "x", "y"]), &failed, 2), vec![]);
}

#[test]
fn playoff_backfill_looks_back_until_a_gap() {
    let (mut s, mut a) = backfill_start();
    assert_eq!(a, BackfillAction::Next(1));
    // Two days with playoff games, then five empty days.
    for (day, games) in [(1u64, 3usize), (2, 2)] {
        assert_eq!(a, BackfillAction::Next(day));
        (s, a) = backfill_step(s, DayOutcome::Games(games));
    }
    for day in 3..=7u64 {
        assert_eq!(a, BackfillAction::Next(day));
        (s, a) = backfill_step(s, DayOutcome::Games(0));
    }
    assert_eq!(a, BackfillAction::Stop);
    assert_eq!(s.found, 5);
    assert_eq!(s.empty, 5);
    // An empty day is forgotten once games come again.
    let s2 = BackfillState { back: 10, empty: 4, found: 1 };
    assert_eq!(backfill_step(s2, DayOutcome::Games(2)), (BackfillState { back: 11, empty: 0, found: 3 }, BackfillAction::Next(11)));
    // At most 45 days back.
    let last = BackfillState { back: 45, empty: 0, found: 9 };
    assert_eq!(backfill_step(last, DayOutcome::Games(1)), (BackfillState { back: 45, empty: 0, found: 10 }, BackfillAction::Finish));
    // No history, an error, or no such day.
    assert_eq!(backfill_step(s2, DayOutcome::Unsupported).1, BackfillAction::Stop);
    assert_eq!(backfill_step(s2, DayOutcome::Failed).1, BackfillAction::Retry);
    assert_eq!(backfill_step(s2, DayOutcome::NoDay).1, BackfillAction::Stop);
}
