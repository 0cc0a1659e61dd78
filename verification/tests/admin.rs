use marqueet::admin::apply::{apply, FormSettings, QuietHours, Units};
use marqueet::cli::WidgetKind;
use marqueet::admin::form::{all, field, location, location_text, number, time, time_from, LocationChange};
use marqueet::config::{Resolution, ScrollMode, WidgetLayout};
use marqueet::hub::policy::TakeoverPolicy;
use marqueet::admin::page::{ago, checked, esc, head, login, login_message, selected, setup, FantasyRow, Notice};
use marqueet::admin::picker::{team_picker, TeamGroups};
use marqueet::admin::render::{render, AdminView};
use marqueet::admin::display::DisplayValues;
use marqueet::admin::look::{LookValues, WordsLimits};
use marqueet::admin::widgets::WidgetKindChoice;
use marqueet::admin::fantasy::{FantasyFound, FantasyLeagueChoice, FantasyTeamChoice, SpotlightSwitches};
use marqueet::admin::status::{FeedRow, LeagueHealth, PlayRow};
use marqueet::tv_output::Status;
use marqueet::admin::team_art::{team_art_section, TeamArtRow};
use marqueet::admin::{field as body_field, too_many, trimmed_field};

fn pairs(v: &[(&str, &str)]) -> Vec<(String, String)> {
    v.iter().map(|(k, v)| ((*k).to_owned(), (*v).to_owned())).collect()
}

#[test]
fn escapes_the_five_characters() {
    assert_eq!(esc(r#"<a href="x">'&'</a>"#), "&lt;a href=&quot;x&quot;&gt;&#39;&amp;&#39;&lt;/a&gt;");
    assert_eq!(esc("plain text ✓"), "plain text ✓");
    assert_eq!(esc(""), "");
}

#[test]
fn pages_escape_their_messages() {
    let l = login(true);
    assert!(l.contains("<p class=\"notice err\" role=\"alert\">Wrong password.</p>"));
    assert!(l.starts_with("<!doctype html>") && l.ends_with("</html>"));
    assert!(l.contains("<title>Marqueet login</title>"));
    assert!(!login(false).contains("notice err"));
    let m = login_message("<b>Too many</b>");
    assert!(m.contains("&lt;b&gt;Too many&lt;/b&gt;") && !m.contains("<b>"));
    let s = setup(Some("That code isn't the one on the screen."));
    assert!(s.contains("That code isn&#39;t the one on the screen."));
    assert!(s.contains("pattern=\"[0-9]{6}\""));
    assert!(!setup(None).contains("notice err"));
    assert_eq!(
        head("A&B"),
        "<!doctype html><html lang=\"en\"><head><meta charset=\"utf-8\"><meta name=\"viewport\" \
         content=\"width=device-width, initial-scale=1\"><title>A&amp;B</title><link rel=\"stylesheet\" \
         href=\"/admin/admin.css\"><script src=\"/admin/admin.js\" defer></script></head><body>"
    );
    assert_eq!((checked(true), checked(false), selected(true)), (" checked", "", " selected"));
    assert_ne!(Notice::Nothing, Notice::Saved);
}

#[test]
fn form_fields_and_numbers() {
    let form = pairs(&[
        ("league", "nfl"),
        ("order_nfl", " 2 "),
        ("league", "epl"),
        ("ticker_speed", "fast"),
        ("ticker_rows", ""),
        ("max_fps", "30"),
        ("order_epl", "-1"),
        ("league", "nfl"),
    ]);
    assert_eq!(field(&form, "league"), Some("nfl"));
    assert_eq!(field(&form, "missing"), None);
    assert_eq!(all(&form, "league"), vec!["nfl", "epl", "nfl"]);
    assert_eq!(number::<i64>(&form, "order_nfl", i64::MAX), Ok(2));
    assert_eq!(number::<i64>(&form, "order_epl", i64::MAX), Ok(-1));
    assert_eq!(number::<i64>(&form, "order_mlb", i64::MAX), Ok(i64::MAX));
    assert_eq!(number::<u32>(&form, "ticker_rows", 19), Ok(19), "blank keeps the current value");
    assert_eq!(number::<u16>(&form, "max_fps", 60), Ok(30));
    assert_eq!(number::<u32>(&form, "ticker_speed", 15).unwrap_err(), "ticker_speed: \"fast\" is not a number");
    let big = pairs(&[("max_fps", "70000"), ("n", "-9223372036854775808"), ("m", "9223372036854775808")]);
    assert!(number::<u16>(&big, "max_fps", 60).unwrap_err().contains("not a number"));
    assert_eq!(number::<i64>(&big, "n", 0), Ok(i64::MIN));
    assert!(number::<i64>(&big, "m", 0).is_err());
}

#[test]
fn body_fields_are_decoded_and_trimmed() {
    assert_eq!(body_field(b"name=+stocks+&name=other", "name"), "stocks");
    assert_eq!(body_field(b"team=espn%3Anfl%3A2", "team"), "espn:nfl:2");
    assert_eq!(body_field(b"a=1", "name"), "");
    assert_eq!(body_field(b"&&code=123456&", "code"), "123456");
}

#[test]
fn waits_are_rounded_up() {
    assert_eq!(too_many(2, 0), "Too many tries. Wait 2 seconds and try again.");
    assert_eq!(too_many(0, 1), "Too many tries. Wait 1 second and try again.");
    assert_eq!(too_many(1, 500_000_000), "Too many tries. Wait 2 seconds and try again.");
    assert_eq!(too_many(0, 0), "Too many tries. Wait 0 seconds and try again.");
}

#[test]
fn team_picker_shows_picks_on_top_and_one_search() {
    let a = "a".to_owned();
    let groups: TeamGroups = vec![
        ("NFL".into(), vec![(a.clone(), "Buffalo <Blizzard>".into()), ("b".into(), "Dallas".into())]),
        ("College".into(), vec![(a.clone(), "Buffalo <Blizzard>".into())]),
    ];
    let html = team_picker(&groups, std::slice::from_ref(&a));
    assert!(html.contains("<label class=\"chip\" for=\"fav-1\">Buffalo &lt;Blizzard&gt; <small>NFL</small>"));
    assert_eq!(html.matches("class=\"chip\"").count(), 1, "one tag per team");
    assert_eq!(html.matches("value=\"a\"").count(), 1, "one checkbox per team, even in two leagues");
    assert_eq!(html.matches("team-search").count(), 1, "one search for every league");
    assert!(html.contains("data-total=\"2 teams\">1 picked"));
    assert!(!html.contains("<details class=\"teams\" open"), "leagues start folded");
    let none = team_picker(&groups, &[]);
    assert!(none.contains("No teams picked yet."));
}

#[test]
fn team_picker_numbers_checkboxes_and_notes_empty_leagues() {
    let groups = vec![
        ("A".to_owned(), vec![("x".to_owned(), "X".to_owned()), ("y".to_owned(), "Y".to_owned())]),
        ("B".to_owned(), vec![]),
        ("C".to_owned(), vec![("y".to_owned(), "Y again".to_owned()), ("z".to_owned(), "Z".to_owned())]),
    ];
    let html = team_picker(&groups, &["z".to_owned(), "nobody".to_owned()]);
    assert!(html.contains("id=\"fav-1\" value=\"x\" data-league=\"A\"> X</label>"));
    assert!(html.contains("id=\"fav-2\" value=\"y\" data-league=\"A\"> Y</label>"));
    assert!(html.contains("id=\"fav-3\" value=\"z\" data-league=\"C\" checked> Z</label>"));
    assert!(!html.contains("Y again"), "a team's second listing gets no checkbox");
    assert!(html.contains("data-total=\"0 teams\">0 teams</span></summary><div><p class=\"empty\">Still loading"));
    assert!(html.contains("<label class=\"chip\" for=\"fav-3\">Z <small>C</small>"));
    assert!(!html.contains("No teams picked yet."));
    assert!(html.starts_with("<div class=\"picker\"><div class=\"picked\" aria-live=\"polite\">"));
    assert!(html.ends_with("</div></details></div>"));
}

#[test]
fn ago_counts_seconds_then_minutes_then_hours() {
    assert_eq!(ago(0, 0), "0s ago");
    assert_eq!(ago(0, 999), "0s ago");
    assert_eq!(ago(0, 59_999), "59s ago");
    assert_eq!(ago(0, 60_000), "1m ago");
    assert_eq!(ago(1_000, 3_600_999), "59m ago");
    assert_eq!(ago(0, 3_600_000), "1h ago");
    assert_eq!(ago(0, 90_000_000), "25h ago");
    // A time in the future counts as just now.
    assert_eq!(ago(5_000, 0), "0s ago");
    assert_eq!(ago(i64::MIN, i64::MAX), "5124095576030h ago");
}

#[test]
fn quiet_hours_times_are_read_or_explained() {
    assert_eq!(time("23:30"), Ok((23, 30)));
    assert_eq!(time(" 06:45 "), Ok((6, 45)));
    assert_eq!(time("late"), Err("\"late\" is not a time (HH:MM)".to_owned()));
    assert_eq!(time("25:00"), Err("\"25:00\" is not a time (HH:MM)".to_owned()));
    assert_eq!(time(" x "), Err("\" x \" is not a time (HH:MM)".to_owned()));
    // What comes after the parse, for each answer it can give.
    assert_eq!(time_from(" 7:05", Some((7, 5))), Ok((7, 5)));
    assert_eq!(time_from("7", None), Err("\"7\" is not a time (HH:MM)".to_owned()));
}

#[test]
fn trimmed_fields_among_pairs() {
    let p = pairs(&[("a", "  x y "), ("b", ""), ("a", "second")]);
    assert_eq!(trimmed_field(&p, "a"), "x y");
    assert_eq!(trimmed_field(&p, "b"), "");
    assert_eq!(trimmed_field(&p, "c"), "");
}

fn art_leagues() -> Vec<(String, String)> {
    vec![("nfl".to_owned(), "NFL".to_owned()), ("nhl".to_owned(), "NHL".to_owned())]
}

fn art_teams() -> Vec<(String, String, String)> {
    vec![("espn:nfl:2".to_owned(), "nfl".to_owned(), "Buffalo Blizzard".to_owned())]
}

#[test]
fn team_art_section_lists_art_and_offers_uploads() {
    let html = team_art_section(&vec![], &art_leagues(), &art_teams(), "<words>");
    assert!(html.contains("doesn't come with any team logos") && html.contains("enctype=\"multipart/form-data\""));
    assert!(html.contains("<optgroup label=\"NFL\"><option value=\"espn:nfl:2\">Buffalo Blizzard</option>"));
    assert!(!html.contains("NHL"), "a league without teams gets no group");
    assert!(!html.contains("/admin/teams/logo?"), "nothing added yet");
    let rows = vec![TeamArtRow {
        team: "espn:nfl:2".to_owned(),
        label: "Buffalo <Blizzard>".to_owned(),
        logo: true,
        colors: Some(("#ff281e".to_owned(), None)),
        headlines: vec![],
        art: None,
    }];
    let html = team_art_section(&rows, &art_leagues(), &art_teams(), "<words>");
    assert!(html.contains("/admin/teams/logo?team=espn%3Anfl%3A2") && html.contains("Buffalo &lt;Blizzard&gt;"));
    assert!(html.contains("value=\"#ff281e\" disabled"));
    assert!(!html.contains("id=\"settings\""), "the section's forms are its own");
}

#[test]
fn team_art_rows_show_words_and_led_art() {
    let rows = vec![
        TeamArtRow {
            team: "a b/é".to_owned(),
            label: "A".to_owned(),
            logo: true,
            colors: Some(("#000000".to_owned(), Some("#ffffff".to_owned()))),
            headlines: vec!["KINGDOM TD!".to_owned(), "<GOAL>".to_owned()],
            art: Some((32, 16, 4)),
        },
        TeamArtRow {
            team: "x".to_owned(),
            label: "X".to_owned(),
            logo: false,
            colors: None,
            headlines: vec![],
            art: Some((8, 8, 1)),
        },
    ];
    let html = team_art_section(&rows, &vec![], &vec![], "");
    assert!(html.contains(
        "<tr><td><img src=\"/admin/teams/logo?team=a+b%2F%C3%A9\" alt=\"\" width=\"40\" height=\"40\"></td><td>A</td>\
         <td class=\"swatches\"><input type=\"color\" value=\"#000000\" disabled aria-label=\"#000000\">\
         <input type=\"color\" value=\"#ffffff\" disabled aria-label=\"#ffffff\"><br>KINGDOM TD! · &lt;GOAL&gt; · \
         LED art 32x16, 4 frames</td>"
    ));
    assert!(html.contains("<tr><td>–</td><td>X</td><td class=\"swatches\">From the scores<br>LED art 8x8, still</td>"));
    assert!(html.contains("name=\"team\" value=\"x\"><button>Remove</button>"));
    assert!(html.ends_with("<button>Import</button></form></section>"));
}

fn default_settings() -> FormSettings {
    FormSettings {
        leagues: vec!["nfl".to_owned()],
        favorites: vec!["espn:nfl:9".to_owned()],
        takeovers: TakeoverPolicy::All,
        widget_layout: WidgetLayout::default(),
        widgets: vec![(WidgetKind::GameOfTheDay, None), (WidgetKind::Scores, None)],
        scroll_mode: ScrollMode::Stepped,
        ticker_rows: 19,
        resolution: Resolution::default(),
        max_fps: 60,
        provider_logos: false,
        show_odds: false,
        spotlight_auto: true,
        spotlight_favorites: true,
        spotlight_primetime: false,
        spotlight_tracker: false,
        spotlight_game: None,
        weather_ticker: false,
        weather_alerts: false,
        units: Units::Fahrenheit,
        time_zone: None,
        quiet_hours: Some(QuietHours { from: (23, 0), to: (7, 0), dim: false }),
    }
}

fn supported() -> Vec<String> {
    ["nfl", "mlb", "nhl", "epl"].iter().map(|s| (*s).to_owned()).collect()
}

#[test]
fn full_form() {
    let form = pairs(&[
        ("league", "nfl"),
        ("order_nfl", "2"),
        ("league", "epl"),
        ("order_epl", "1"),
        ("order_mlb", "0"), // not checked: ignored
        ("favorite", "espn:nfl:2"),
        ("favorite", "espn:epl:364"),
        ("takeovers", "favorites"),
        ("widget_0", "scores"),
        ("widget_1", "game_of_the_day"),
        ("led_color", "#33ccff"),
        ("ticker_speed", "30"),
        ("ticker_rows", "21"),
        ("ticker_ratio", "0.45"),
        ("show_odds", "on"),
        ("resolution", "720p"),
        ("max_fps", "30"),
        ("glow", "0.4"),
        ("scroll_mode", "smooth"),
        ("quiet_enabled", "on"),
        ("quiet_from", "23:30"),
        ("quiet_to", "06:45"),
        ("time_zone", " America/Denver "),
    ]);
    let s = apply(&default_settings(), &supported(), &form).unwrap();
    assert_eq!(s.leagues, vec!["epl".to_owned(), "nfl".to_owned()], "ordered by order_<id>");
    assert_eq!(s.favorites.len(), 2);
    assert_eq!(s.takeovers, TakeoverPolicy::Favorites);
    let kinds: Vec<WidgetKind> = s.widgets.iter().map(|w| w.0).collect();
    assert_eq!(kinds, vec![WidgetKind::Scores, WidgetKind::GameOfTheDay]);
    assert_eq!(s.ticker_rows, 21);
    assert!(s.show_odds);
    assert_eq!((s.resolution, s.max_fps), (Resolution::P720, 30));
    assert_eq!(s.scroll_mode, ScrollMode::Smooth);
    assert_eq!(s.time_zone.as_deref(), Some("America/Denver"));
    let q = s.quiet_hours.unwrap();
    assert_eq!((q.from, q.to), ((23, 30), (6, 45)));
}

#[test]
fn layouts_take_one_widget_per_slot() {
    let form = pairs(&[
        ("league", "nfl"),
        ("widget_layout", "three"),
        ("widget_0", "weather"),
        ("widget_1", "scores"),
        ("widget_2", "standings"),
    ]);
    let s = apply(&default_settings(), &supported(), &form).unwrap();
    assert_eq!(s.widget_layout, WidgetLayout::Three);
    let kinds: Vec<WidgetKind> = s.widgets.iter().map(|w| w.0).collect();
    assert_eq!(kinds, vec![WidgetKind::Weather, WidgetKind::Scores, WidgetKind::Standings]);
    let single =
        pairs(&[("league", "nfl"), ("widget_layout", "single"), ("widget_0", "weather"), ("widget_1", "scores")]);
    assert_eq!(apply(&s, &supported(), &single).unwrap().widgets, vec![(WidgetKind::Weather, None)], "extra selects ignored");
    let bad = pairs(&[("league", "nfl"), ("widget_layout", "hexagon")]);
    assert!(apply(&s, &supported(), &bad).unwrap_err().contains("layout"));
}

#[test]
fn slot_options_come_from_the_kind_specific_field() {
    let form = pairs(&[
        ("league", "nfl"),
        ("league", "epl"),
        ("widget_layout", "even"),
        ("widget_0", "standings"),
        ("widget_0_standings", "epl"),
        ("widget_0_scores", "nfl"), // another kind's option: ignored
        ("widget_1", "scores"),
        ("widget_1_scores", ""),
    ]);
    let s = apply(&default_settings(), &supported(), &form).unwrap();
    assert_eq!(s.widgets[0].1.as_deref(), Some("epl"));
    assert_eq!(s.widgets[1].1, None, "blank means all leagues");
}

#[test]
fn widgets_need_every_slot_and_known_kinds() {
    // A missing slot keeps the current widgets.
    let form = pairs(&[("league", "nfl"), ("widget_layout", "even"), ("widget_0", "weather")]);
    let s = apply(&default_settings(), &supported(), &form).unwrap();
    assert_eq!(s.widgets, default_settings().widgets);
    // An unknown kind is refused, with the first bad slot named.
    let bad = pairs(&[("league", "nfl"), ("widget_layout", "single"), ("widget_0", "bogus")]);
    assert_eq!(apply(&default_settings(), &supported(), &bad).unwrap_err(), "unknown widget \"bogus\"");
    let bad2 = pairs(&[("league", "nfl"), ("widget_layout", "even"), ("widget_0", "x"), ("widget_1", "y")]);
    assert_eq!(apply(&default_settings(), &supported(), &bad2).unwrap_err(), "unknown widget \"x\"");
    // Options are trimmed.
    let form = pairs(&[("league", "nfl"), ("widget_layout", "single"), ("widget_0", "scores"), ("widget_0_scores", " nfl ")]);
    assert_eq!(apply(&default_settings(), &supported(), &form).unwrap().widgets, vec![(WidgetKind::Scores, Some("nfl".to_owned()))]);
}

/// "lat, lon" as two numbers, as the weather location reads coordinates.
fn coordinates(v: &str) -> Option<(f64, f64)> {
    let (a, b) = v.split_once(',')?;
    Some((a.trim().parse().ok()?, b.trim().parse().ok()?))
}

#[test]
fn location_field() {
    let kc = Some("Kansas City, Missouri");
    let loc = |v: &str| {
        let form = pairs(&[("location", v)]);
        let text = location_text(&form).unwrap();
        location(&form, kc, coordinates(&text))
    };
    assert!(matches!(location(&[], kc, None::<(f64, f64)>), LocationChange::Keep), "field absent");
    assert!(matches!(loc(" Kansas City, Missouri "), LocationChange::Keep), "unchanged");
    assert!(matches!(loc(""), LocationChange::Clear));
    assert!(matches!(loc("Oslo"), LocationChange::Lookup(ref s) if s == "Oslo"));
    assert!(matches!(loc("59.91, 10.75"), LocationChange::SetTo(p) if p.0 == 59.91));
    let s = apply(&default_settings(), &supported(), &pairs(&[("league", "nfl"), ("units", "celsius")])).unwrap();
    assert_eq!(s.units, Units::Celsius);
    assert!(!s.weather_ticker, "unticked");
    let s = apply(&s, &supported(), &pairs(&[("league", "nfl"), ("weather_ticker", "on")])).unwrap();
    assert!(s.weather_ticker);
}

#[test]
fn unchecked_extras_keep_current_values() {
    let current = FormSettings { quiet_hours: None, ..default_settings() };
    let s = apply(&current, &supported(), &pairs(&[("league", "mlb")])).unwrap();
    assert_eq!(s.leagues, vec!["mlb".to_owned()]);
    assert_eq!(
        (s.widget_layout, s.scroll_mode, s.ticker_rows, s.resolution, s.max_fps),
        (current.widget_layout, current.scroll_mode, current.ticker_rows, current.resolution, current.max_fps)
    );
    assert!(s.favorites.is_empty(), "an unticked favorite is removed");
    assert_eq!(s.quiet_hours, None);
}

#[test]
fn bad_input_is_explained() {
    let bad = |form: &[(&str, &str)]| apply(&default_settings(), &supported(), &pairs(form)).unwrap_err();
    assert!(bad(&[]).contains("at least one league"));
    assert!(bad(&[("league", "curling")]).contains("unknown league"));
    assert!(bad(&[("league", "nfl"), ("ticker_rows", "many")]).contains("not a number"));
    assert!(bad(&[("league", "nfl"), ("quiet_enabled", "on"), ("quiet_from", "late")]).contains("not a time"));
    assert!(bad(&[("league", "nfl"), ("takeovers", "sometimes")]).contains("takeover"));
    assert!(bad(&[("league", "nfl"), ("widget_layout", "single"), ("widget_0", "clock")]).contains("unknown widget"));
    // The exact texts, and the first bad field wins.
    assert_eq!(bad(&[("league", "curling")]), "unknown league \"curling\"");
    assert_eq!(bad(&[("league", "nfl"), ("order_nfl", "x")]), "order_nfl: \"x\" is not a number");
    assert_eq!(bad(&[("league", "nfl"), ("scroll_mode", "wavy"), ("units", "kelvin")]), "unknown scroll mode \"wavy\"");
    assert_eq!(bad(&[("league", "nfl"), ("resolution", "8k")]), "unknown resolution \"8k\"");
    assert_eq!(bad(&[("league", "nfl"), ("units", "kelvin")]), "unknown units \"kelvin\"");
}

#[test]
fn values_are_clamped_by_sanitize() {
    let s = apply(&default_settings(), &supported(), &pairs(&[("league", "nfl"), ("ticker_rows", "500")])).unwrap();
    assert_eq!(s.ticker_rows, 48);
    let s = apply(&default_settings(), &supported(), &pairs(&[("league", "nfl"), ("ticker_rows", "2"), ("max_fps", "45")]))
        .unwrap();
    assert_eq!((s.ticker_rows, s.max_fps), (9, 60));
}

#[test]
fn leagues_keep_the_supported_order_when_orders_tie() {
    let form = pairs(&[("league", "epl"), ("league", "nhl"), ("league", "mlb"), ("order_mlb", "5")]);
    let s = apply(&default_settings(), &supported(), &form).unwrap();
    assert_eq!(s.leagues, vec!["mlb".to_owned(), "nhl".to_owned(), "epl".to_owned()]);
}

fn info(id: &str, name: &str) -> (String, String) {
    (id.to_owned(), name.to_owned())
}

fn admin_view(followed: &[&str], leagues: Vec<(String, String)>, teams: Vec<(String, String, String)>) -> AdminView {
    AdminView {
        remote: false,
        notice: Notice::Nothing,
        followed: followed.iter().map(|s| (*s).to_owned()).collect(),
        leagues,
        teams,
        favorites: vec![],
        takeovers: TakeoverPolicy::All,
        spotlight: SpotlightSwitches { auto: true, primetime: false, favorites: true, tracker: false },
        spotlight_game: None,
        games: vec![],
        place: None,
        units: Units::Fahrenheit,
        weather_ticker: false,
        weather_alerts: false,
        time_zone: None,
        zones: vec![],
        quiet_hours: None,
        team_art: vec![],
        fantasy: vec![],
        fantasy_found: None,
        feeds: vec![],
        now: 0,
        host: "marqueet.local:7878".to_owned(),
        can_change_password: true,
        health: vec![],
        plays: vec![],
        widget_layout: WidgetLayout::Three,
        widget_kinds: vec![
            WidgetKindChoice { id: "game_of_the_day".to_owned(), label: "Game of the day".to_owned(), options: vec![] },
            WidgetKindChoice {
                id: "scores".to_owned(),
                label: "Scores".to_owned(),
                options: vec![("".to_owned(), "All leagues".to_owned()), ("nfl".to_owned(), "NFL".to_owned())],
            },
            WidgetKindChoice { id: "standings".to_owned(), label: "Standings".to_owned(), options: vec![] },
        ],
        widgets: vec![("scores".to_owned(), Some("nfl".to_owned()))],
        widget_fill: ("game_of_the_day".to_owned(), "scores".to_owned(), "standings".to_owned()),
        look: LookValues {
            styles: vec![
                ("broadcast".to_owned(), "Broadcast".to_owned(), "Like TV".to_owned()),
                ("ballpark".to_owned(), "Ballpark".to_owned(), "Like a park".to_owned()),
            ],
            style: "broadcast".to_owned(),
            team_colors: true,
            preset: true,
            roles: vec![("accent".to_owned(), "Accent".to_owned(), "#123456".to_owned())],
            hard_to_read: vec![],
            code: "broadcast".to_owned(),
        },
        provider_logos: false,
        display: DisplayValues {
            ticker_ratio: "0.33333334".to_owned(),
            led_color: "#ffb000".to_owned(),
            ticker_rows: 19,
            ticker_speed: "15".to_owned(),
            crawl_speed: "20".to_owned(),
            glow: "0.55".to_owned(),
            flicker: "0.25".to_owned(),
            scroll_mode: ScrollMode::Stepped,
            resolution: Resolution::Auto,
            max_fps: 60,
        },
        tv_output: None,
        show_odds: false,
        words: WordsLimits {
            plays: vec![("touchdown".to_owned(), "Touchdown".to_owned(), "TOUCHDOWN".to_owned())],
            headline_max: 14,
            line_max: 24,
            art_max_w: 64,
            art_max_h: 32,
            art_max_frames: 16,
            frame_ms_min: 50,
            frame_ms_max: 2000,
            frame_ms_default: 150,
        },
        playing: vec![],
        test_kinds: vec![("home_run".to_owned(), "Home run".to_owned()), ("warning".to_owned(), "Warning".to_owned())],
    }
}

#[test]
fn test_takeover_buttons_are_their_own_form() {
    let mut v = admin_view(&[], vec![], vec![]);
    v.playing = vec![("espn:nfl:1".to_owned(), "NFL · <Blizzard>".to_owned())];
    let h = render(&v);
    let section = &h[h.find("id=\"test-takeover\"").unwrap()..];
    assert!(section.contains("action=\"/admin/takeover/test\""));
    for (id, _) in &v.test_kinds {
        assert!(section.contains(&format!("value=\"{id}\"")), "{id}");
    }
    assert!(section.contains("NFL · &lt;Blizzard&gt;"), "escaped");
    let settings_form = &h[h.find("id=\"settings\"").unwrap()..];
    let end = settings_form.find("</form>").unwrap();
    assert!(!settings_form[..end].contains("/admin/takeover/test"), "not nested in the settings form");
}

#[test]
fn escapes_everything_interpolated() {
    assert_eq!(esc(r#"<a href="x">'&'</a>"#), "&lt;a href=&quot;x&quot;&gt;&#39;&amp;&#39;&lt;/a&gt;");
    let mut v = admin_view(
        &["nfl"],
        vec![info("nfl", "N<F>L")],
        vec![("espn:nfl:1".to_owned(), "nfl".to_owned(), "<b>".to_owned())],
    );
    v.favorites = vec!["\"><script>x</script>".to_owned()];
    v.notice = Notice::Error("<img src=x>".to_owned());
    let html = render(&v);
    assert!(!html.contains("<script>x") && !html.contains("<b>") && !html.contains("<img src=x"));
    assert!(html.contains("N&lt;F&gt;L") && html.contains("&lt;img src=x&gt;"));
}

#[test]
fn feed_tokens_show_once() {
    let mut v = admin_view(&[], vec![], vec![]);
    v.feeds = vec![FeedRow { name: "stocks".to_owned(), segments: 0, expires_at: None }];
    let html = render(&v);
    assert!(html.contains("New token") && html.contains("Bearer TOKEN"), "no token on an ordinary view");
    v.notice = Notice::NewToken { feed: "stocks".to_owned(), token: "abc123".to_owned() };
    let html = render(&v);
    assert!(html.contains("<code class=\"token\">abc123</code>") && html.contains("Bearer abc123"));
}

#[test]
fn password_form_only_when_it_can_change() {
    let mut v = admin_view(&[], vec![], vec![]);
    assert!(render(&v).contains("action=\"/admin/password\""));
    v.can_change_password = false;
    let html = render(&v);
    assert!(!html.contains("action=\"/admin/password\"") && html.contains("MARQUEET_ADMIN_PASSWORD"));
}

#[test]
fn followed_leagues_come_first_in_order() {
    let html = render(&admin_view(&["mlb", "nfl"], vec![info("nfl", "NFL"), info("nhl", "NHL"), info("mlb", "MLB")], vec![]));
    let at = |needle: &str| html.find(needle).unwrap();
    assert!(at("value=\"mlb\" checked") < at("value=\"nfl\" checked"));
    assert!(at("value=\"nfl\" checked") < at("value=\"nhl\">"), "unfollowed leagues are unchecked, last");
    assert!(html.contains("name=\"order_mlb\" value=\"1\"") && html.contains("name=\"order_nhl\" value=\"3\""));
}

#[test]
fn favorites_not_playing_stay_ticked() {
    let mut v = admin_view(
        &["nfl"],
        vec![info("nfl", "NFL")],
        vec![("espn:nfl:2".to_owned(), "nfl".to_owned(), "Blizzard".to_owned())],
    );
    v.favorites = vec!["espn:nfl:2".to_owned(), "espn:nfl:9".to_owned()];
    let html = render(&v);
    assert!(html.contains("value=\"espn:nfl:2\" data-league=\"NFL\" checked> Blizzard"));
    assert!(html.contains("Other saved favorites") && html.contains("value=\"espn:nfl:9\" data-league"));
    assert!(html.contains("value=\"espn:nfl:9\" data-league=\"Other saved favorites\" checked"));
}

#[test]
fn admin_page_sections_show_their_settings() {
    let mut v = admin_view(&["nfl"], vec![info("nfl", "NFL")], vec![]);
    v.remote = true;
    v.notice = Notice::Saved;
    v.takeovers = TakeoverPolicy::Favorites;
    v.spotlight_game = Some("g9".to_owned());
    v.games = vec![("g1".to_owned(), "NFL · KC at BUF".to_owned())];
    v.place = Some("Oslo".to_owned());
    v.units = Units::Celsius;
    v.time_zone = Some("Europe/Oslo".to_owned());
    v.zones = vec!["Europe/Oslo".to_owned()];
    v.quiet_hours = Some(QuietHours { from: (22, 5), to: (6, 30), dim: false });
    v.now = 10 * 60_000;
    v.feeds = vec![FeedRow { name: "stocks".to_owned(), segments: 1, expires_at: Some(10 * 60_000 + 90_000) }];
    v.health = vec![
        LeagueHealth { id: "nfl".to_owned(), games: 3, stale: false, failures: 2, last_error: None, last_success: Some(0) },
        LeagueHealth { id: "xfl".to_owned(), games: 0, stale: true, failures: 0, last_error: Some("<down>".to_owned()), last_success: None },
    ];
    v.plays = (0..13)
        .map(|i| PlayRow { time: format!("7:{i:02} PM"), title: "TD".to_owned(), detail: None, takeover: i == 0 })
        .collect();
    let html = render(&v);
    assert!(html.starts_with("<!doctype html>") && html.ends_with("</section></main></body></html>"));
    assert!(html.contains("<button>Log out</button>") && html.contains("Saved. The display updates in a moment."));
    assert!(html.contains("value=\"favorites\" checked> Favorites only"));
    assert!(html.contains("<option value=\"g1\">NFL · KC at BUF</option><option value=\"g9\" selected>A game that's no longer on</option>"));
    assert!(html.contains("value=\"Oslo\"") && html.contains("value=\"celsius\" checked"));
    assert!(html.contains("<option value=\"Europe/Oslo\"></datalist>"));
    assert!(html.contains("name=\"quiet_enabled\" checked>") && html.contains("<option value=\"black\" selected>"));
    assert!(html.contains("value=\"22:05\"") && html.contains("value=\"06:30\""));
    assert!(html.contains("<span class=\"good\">1 segment</span>, 1 min left"));
    assert!(html.contains("<tr><td>NFL</td><td>3</td><td>10m ago</td><td><span class=\"warn\">retrying (2)</span></td></tr>"));
    assert!(html.contains("<tr><td>xfl</td><td>0</td><td>never</td><td><span class=\"bad\">stale</span> &lt;down&gt;</td></tr>"));
    assert!(html.contains("7:11 PM") && !html.contains("7:12 PM"), "twelve plays at most");
    assert!(html.contains("<span class=\"tag\">takeover</span>"));
}

#[test]
fn fantasy_section_lists_teams_and_search() {
    let mut v = admin_view(&[], vec![], vec![]);
    v.fantasy = vec![FantasyRow {
        league_id: "100".to_owned(),
        roster_id: 2,
        league: "Office".to_owned(),
        team: "Bros".to_owned(),
        status: "Week 3".to_owned(),
    }];
    v.fantasy_found = Some(FantasyFound {
        user_id: "u1".to_owned(),
        display_name: "Rico".to_owned(),
        leagues: vec![FantasyLeagueChoice {
            id: "100".to_owned(),
            name: "Office".to_owned(),
            teams: vec![
                FantasyTeamChoice { roster_id: 1, name: "Others".to_owned(), owner_id: Some("u2".to_owned()) },
                FantasyTeamChoice { roster_id: 2, name: "Mine".to_owned(), owner_id: Some("u1".to_owned()) },
            ],
        }],
    });
    let html = render(&v);
    assert!(html.contains("name=\"roster_id\" value=\"2\"><button>Remove</button>"));
    assert!(html.contains("name=\"username\" required value=\"Rico\""));
    assert!(html.contains("<option value=\"1\">Others</option><option value=\"2\" selected>Mine</option>"));
}

#[test]
fn escaping_goes_piece_by_piece() {
    let (a, b) = ("Tom & \"Jerry\"", " <3 'cheese'");
    assert_eq!(esc(&format!("{a}{b}")), format!("{}{}", esc(a), esc(b)));
    // Every & begins an entity.
    let e = esc("&&<>\"'x&");
    for (i, _) in e.match_indices('&') {
        let rest = &e[i..];
        assert!(["&amp;", "&lt;", "&gt;", "&quot;", "&#39;"].iter().any(|ent| rest.starts_with(ent)), "{rest}");
    }
}

#[test]
fn display_section_shows_the_screen_and_the_tv() {
    let mut v = admin_view(&[], vec![], vec![]);
    v.display.resolution = Resolution::P720;
    v.display.max_fps = 30;
    v.show_odds = true;
    v.tv_output = Some(Status {
        applied: "1920x1080@60.0".to_owned(),
        modes: vec!["3840x2160@30.0".to_owned(), "1920x1080@60.0".to_owned(), "3840x2160@30.0".to_owned()],
    });
    let html = render(&v);
    assert!(html.contains("name=\"ticker_ratio\" value=\"0.33333334\"") && html.contains("name=\"led_color\" value=\"#ffb000\""));
    assert!(html.contains("<option value=\"720p\" selected>720p</option>"));
    assert!(html.contains("<option value=\"auto\">Automatic (1080p on a 4K TV)</option>"));
    assert!(html.contains("name=\"max_fps\" value=\"30\" checked>"));
    assert!(html.contains("Your TV is getting 1920×1080 at 60 Hz. It offers: 3840×2160 at 30 Hz, 1920×1080 at 60 Hz.</p>"));
    assert!(html.contains("name=\"show_odds\" checked>"));
}

#[test]
fn widgets_section_offers_every_layout() {
    let html = render(&admin_view(&[], vec![], vec![]));
    assert!(html.contains(
        "<label class=\"layout-choice\"><input type=\"radio\" name=\"widget_layout\" value=\"three\" checked>\
         <span class=\"mini mini-three\"><i></i><i></i><i></i></span>Three</label>"
    ));
    assert!(html.contains("value=\"single\"><span class=\"mini mini-single\"><i></i></span>Single</label>"));
    assert!(html.contains("<div class=\"slots\" id=\"slots\"><div class=\"slot\"><span>Slot 1</span>"));
    assert!(html.contains(
        "<select class=\"kind\" name=\"widget_0\" aria-label=\"Slot 1 widget\"><option value=\"game_of_the_day\">Game of the day</option>\
         <option value=\"scores\" selected>Scores</option>"
    ));
    assert!(html.contains(
        "<select class=\"opt opt-scores\" name=\"widget_0_scores\" aria-label=\"Slot 1 Scores\"><option value=\"\">All leagues</option>\
         <option value=\"nfl\" selected>NFL</option></select></div>"
    ));
    // Slots past the saved widgets show scores, then standings.
    assert!(html.contains("name=\"widget_1\" aria-label=\"Slot 2 widget\"><option value=\"game_of_the_day\">Game of the day</option><option value=\"scores\" selected>"));
    assert!(html.contains("name=\"widget_2_scores\" aria-label=\"Slot 3 Scores\"><option value=\"\">All leagues</option><option value=\"nfl\">NFL</option>"));
    assert!(!html.contains("widget_3"));
}

#[test]
fn look_section_offers_every_style_and_a_code() {
    let mut v = admin_view(&[], vec![], vec![]);
    let html = render(&v);
    assert!(html.contains("src=\"/admin/theme/ballpark.svg\""));
    assert!(html.contains("value=\"broadcast\" checked"));
    assert!(!html.contains("current.svg") && html.contains("<details class=\"custom\"><summary>"), "presets stay folded");
    v.look.preset = false;
    v.look.hard_to_read = vec![("Text".to_owned(), "Cards".to_owned())];
    let html = render(&v);
    assert!(html.contains("current.svg") && html.contains("details class=\"custom\" open"));
    assert!(html.contains("Text on Cards may be hard to read"));
    assert!(html.contains("name=\"color_accent\" value=\"#123456\"> Accent"));
}

#[test]
fn team_form_offers_words_and_led_art() {
    let html = render(&admin_view(&[], vec![], vec![]));
    assert!(html.contains("<label>Touchdown <input name=\"words_touchdown\" maxlength=\"14\" placeholder=\"TOUCHDOWN\""));
    assert!(html.contains("at most 64x32 (pixel-art"));
    assert!(html.contains("name=\"art_ms\" min=\"50\" max=\"2000\" placeholder=\"150\""));
}

/// The (name, value) pairs a browser submits for the settings form of
/// `html`: ticked checkboxes and radios, text and number inputs, and each
/// select's chosen option (its first when none is marked).
fn submitted(html: &str) -> Vec<(String, String)> {
    let form = &html[html.find("id=\"settings\"").unwrap()..html.find("</form>").unwrap()];
    let attr = |tag: &str, name: &str| {
        let key = format!("{name}=\"");
        tag.find(&key).map(|i| {
            let rest = &tag[i + key.len()..];
            rest[..rest.find('"').unwrap()].to_owned()
        })
    };
    let mut out = Vec::new();
    for tag in form.split('<').skip(1) {
        let tag = &tag[..tag.find('>').unwrap_or(tag.len())];
        if tag.starts_with("input") {
            let (Some(name), value) = (attr(tag, "name"), attr(tag, "value")) else { continue };
            let kind = attr(tag, "type").unwrap_or_default();
            if (kind == "checkbox" || kind == "radio") && !tag.contains(" checked") {
                continue;
            }
            let empty = if kind == "checkbox" || kind == "radio" { "on" } else { "" };
            out.push((name, value.unwrap_or_else(|| empty.into())));
        } else if tag.starts_with("select") {
            let name = attr(tag, "name").unwrap();
            let rest = &form[form.find(tag).unwrap()..];
            let body = &rest[..rest.find("</select>").unwrap()];
            let options: Vec<&str> = body.split("<option").skip(1).collect();
            let opt = options.iter().find(|o| o.contains(" selected")).or(options.first()).unwrap();
            out.push((name, attr(opt, "value").unwrap()));
        }
    }
    out
}

fn kind_id(k: WidgetKind) -> &'static str {
    match k {
        WidgetKind::GameOfTheDay => "game_of_the_day",
        WidgetKind::Scores => "scores",
        WidgetKind::Standings => "standings",
        WidgetKind::Weather => "weather",
        WidgetKind::Fantasy => "fantasy",
        WidgetKind::Bracket => "bracket",
    }
}

/// The admin page's view of `s`, with `leagues` as the supported ones.
fn view_of(s: &FormSettings, leagues: &[(String, String)]) -> AdminView {
    let mut v = admin_view(&[], leagues.to_vec(), vec![]);
    v.followed = s.leagues.clone();
    v.favorites = s.favorites.clone();
    v.takeovers = s.takeovers;
    v.spotlight = SpotlightSwitches {
        auto: s.spotlight_auto,
        primetime: s.spotlight_primetime,
        favorites: s.spotlight_favorites,
        tracker: s.spotlight_tracker,
    };
    v.spotlight_game = s.spotlight_game.clone();
    v.units = s.units;
    v.weather_ticker = s.weather_ticker;
    v.weather_alerts = s.weather_alerts;
    v.time_zone = s.time_zone.clone();
    v.quiet_hours = s.quiet_hours;
    v.widget_layout = s.widget_layout;
    v.widgets = s.widgets.iter().map(|(k, o)| (kind_id(*k).to_owned(), o.clone())).collect();
    v.provider_logos = s.provider_logos;
    v.show_odds = s.show_odds;
    v.display.ticker_rows = s.ticker_rows;
    v.display.scroll_mode = s.scroll_mode;
    v.display.resolution = s.resolution;
    v.display.max_fps = s.max_fps;
    v
}

#[test]
fn form_round_trips_through_the_parser() {
    // Every value the page renders must parse back to the same settings.
    let settings = FormSettings {
        leagues: vec!["nfl".to_owned(), "mlb".to_owned()],
        quiet_hours: Some(QuietHours { from: (23, 30), to: (6, 0), dim: false }),
        time_zone: Some("America/Chicago".to_owned()),
        ..default_settings()
    };
    let leagues = [info("nfl", "NFL"), info("mlb", "MLB"), info("nhl", "NHL")];
    let html = render(&view_of(&settings, &leagues));
    let pairs = submitted(&html);
    let ids: Vec<String> = leagues.iter().map(|l| l.0.clone()).collect();
    let parsed = apply(&default_settings(), &ids, &pairs).unwrap();
    assert_eq!(format!("{parsed:?}"), format!("{settings:?}"));
}

#[test]
fn every_control_reads_back() {
    // The other values of each control, through the page and back.
    let settings = FormSettings {
        leagues: vec!["nhl".to_owned(), "nfl".to_owned(), "mlb".to_owned()],
        favorites: vec![],
        takeovers: TakeoverPolicy::Off,
        widget_layout: WidgetLayout::Three,
        widgets: vec![
            (WidgetKind::Standings, None),
            (WidgetKind::Scores, Some("nfl".to_owned())),
            (WidgetKind::GameOfTheDay, None),
        ],
        scroll_mode: ScrollMode::Smooth,
        ticker_rows: 48,
        resolution: Resolution::P720,
        max_fps: 30,
        provider_logos: true,
        show_odds: true,
        spotlight_auto: false,
        spotlight_favorites: false,
        spotlight_primetime: true,
        spotlight_tracker: true,
        spotlight_game: None,
        weather_ticker: true,
        weather_alerts: true,
        units: Units::Celsius,
        time_zone: Some("Europe/Oslo".to_owned()),
        quiet_hours: Some(QuietHours { from: (22, 5), to: (7, 45), dim: true }),
    };
    let leagues = [info("nfl", "NFL"), info("mlb", "MLB"), info("nhl", "NHL")];
    let html = render(&view_of(&settings, &leagues));
    let ids: Vec<String> = leagues.iter().map(|l| l.0.clone()).collect();
    let parsed = apply(&default_settings(), &ids, &submitted(&html)).unwrap();
    assert_eq!(format!("{parsed:?}"), format!("{settings:?}"));
    let off = FormSettings { quiet_hours: None, ..settings };
    let html = render(&view_of(&off, &leagues));
    let parsed = apply(&default_settings(), &ids, &submitted(&html)).unwrap();
    assert_eq!(format!("{parsed:?}"), format!("{off:?}"));
}

#[test]
fn unread_fields_change_nothing() {
    let form = pairs(&[("league", "nfl"), ("takeovers", "off"), ("ticker_rows", "30")]);
    let base = apply(&default_settings(), &supported(), &form).unwrap();
    for (i, extra) in [("location", "Oslo"), ("csrf", "x"), ("save", "")].iter().enumerate() {
        let mut more = form.clone();
        more.insert(i.min(more.len()), (extra.0.to_owned(), extra.1.to_owned()));
        let got = apply(&default_settings(), &supported(), &more).unwrap();
        assert_eq!(format!("{got:?}"), format!("{base:?}"));
    }
    // An error stays the same error.
    let bad = pairs(&[("league", "nfl"), ("units", "kelvin")]);
    let mut more = bad.clone();
    more.insert(0, ("location".to_owned(), "Oslo".to_owned()));
    assert_eq!(apply(&default_settings(), &supported(), &more).unwrap_err(), "unknown units \"kelvin\"");
}

#[test]
fn a_notice_is_the_only_difference_between_pages() {
    let m = "Too <many> tries";
    let plain = login(false);
    let with = login_message(m);
    let notice = format!("<h2>Log in</h2><p class=\"notice err\" role=\"alert\">{}</p>", esc(m));
    assert_eq!(with, plain.replacen("<h2>Log in</h2>", &notice, 1));
    let e = "That code isn't the one on the screen.";
    let notice = format!("</p><p class=\"notice err\" role=\"alert\">{}</p><label>Code", esc(e));
    assert_eq!(setup(Some(e)), setup(None).replacen("</p><label>Code", &notice, 1));
    assert!(setup(None).contains("<form method=\"post\" action=\"/setup\">"));
    assert!(!setup(None).contains("notice err"));
}
