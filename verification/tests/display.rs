use marqueet::frame_stats::{FrameReport, FrameStats};
use marqueet::cli::{parse_layout, parse_score, parse_size, parse_widget, HomeAway, WidgetKind};
use marqueet::config::{Resolution, ScrollMode, WidgetLayout};
use marqueet::upscale::render_size;

#[test]
fn parses_score_specs() {
    assert_eq!(parse_score("mock:nfl:1:home:7"), Ok(("mock:nfl:1".into(), HomeAway::Home, 7)));
    assert_eq!(parse_score("g:away:3"), Ok(("g".into(), HomeAway::Away, 3)));
    assert!(parse_score("mock:nfl:1:left:7").is_err());
    assert!(parse_score("7").is_err());
}

#[test]
fn parses_sizes() {
    assert_eq!(parse_size("1366x768"), Ok((1366, 768)));
    assert_eq!(parse_size("1024X768"), Ok((1024, 768)));
    assert!(parse_size("1366").is_err());
    assert!(parse_size("10x10").is_err());
}

#[test]
fn a_4k_screen_draws_at_1080p_and_smaller_screens_as_they_are() {
    assert_eq!(render_size((3840, 2160), Some(1080)), (1920, 1080));
    assert_eq!(render_size((1920, 1080), Some(1080)), (1920, 1080));
    assert_eq!(render_size((1366, 768), Some(1080)), (1366, 768), "never scaled up");
    assert_eq!(render_size((3840, 2160), None), (3840, 2160), "native");
    assert_eq!(render_size((3840, 2160), Some(720)), (1280, 720));
}

#[test]
fn resolution_and_frame_rate_settings() {
    for r in Resolution::ALL {
        assert_eq!(Resolution::from_id(r.id()), Some(r));
    }
    assert_eq!(Resolution::default().max_height(), Some(1080), "4K TVs draw at 1080p unless told otherwise");
    assert_eq!(Resolution::Native.max_height(), None);
}

#[test]
fn size_errors_say_what_is_wrong() {
    assert_eq!(parse_size("1366").unwrap_err(), "expected WIDTHxHEIGHT, e.g. 1366x768");
    assert_eq!(parse_size("wide x 768").unwrap_err(), "bad width");
    assert_eq!(parse_size("1366x-1").unwrap_err(), "bad height");
    assert_eq!(parse_size("10x10").unwrap_err(), "size out of range");
    assert_eq!(parse_size(" 320 x 240 "), Ok((320, 240)));
    assert_eq!(parse_size("8192x8192"), Ok((8192, 8192)));
    assert_eq!(parse_size("8193x8192").unwrap_err(), "size out of range");
    assert_eq!(parse_size("+1366x768"), Ok((1366, 768)));
    assert_eq!(parse_size("99999999999x768").unwrap_err(), "bad width");
    assert_eq!(parse_size("1366x768x2").unwrap_err(), "bad height");
}

#[test]
fn score_errors_say_what_is_wrong() {
    assert_eq!(parse_score("7").unwrap_err(), "expected GAME_ID:home|away:POINTS, e.g. mock:nfl:1:home:7");
    assert_eq!(parse_score("home:7").unwrap_err(), "expected GAME_ID:home|away:POINTS, e.g. mock:nfl:1:home:7");
    assert_eq!(parse_score("g:left:7").unwrap_err(), "side must be home or away");
    assert_eq!(parse_score("g:home:seven").unwrap_err(), "points must be a whole number");
    assert_eq!(parse_score("g:home:70000").unwrap_err(), "points must be a whole number");
    assert_eq!(parse_score(":away:0"), Ok((String::new(), HomeAway::Away, 0)));
}

#[test]
fn layouts_and_widgets_by_name() {
    for l in WidgetLayout::ALL {
        assert_eq!(WidgetLayout::from_id(l.id()), Some(l));
        assert_eq!(parse_layout(&format!(" {} ", l.id())), Ok(l));
    }
    assert_eq!(WidgetLayout::default(), WidgetLayout::WideLeft);
    assert_eq!(WidgetLayout::Three.slots(), 3);
    assert_eq!(WidgetLayout::Single.slots(), 1);
    assert_eq!(WidgetLayout::Even.label(), "Halves");
    assert_eq!(WidgetLayout::from_id("hexagon"), None);
    assert_eq!(parse_layout("hexagon").unwrap_err(), "expected wide_left, wide_right, even, three or single");
    assert_eq!(parse_widget("gotd"), Ok(WidgetKind::GameOfTheDay));
    assert_eq!(parse_widget(" bracket "), Ok(WidgetKind::Bracket));
    assert_eq!(
        parse_widget("clock").unwrap_err(),
        "unknown widget \"clock\" (game_of_the_day, scores, standings, weather, fantasy, bracket)"
    );
    assert_eq!(ScrollMode::default(), ScrollMode::Stepped);
}

#[test]
fn resolution_ids_labels_and_heights() {
    assert_eq!(Resolution::from_id("2160p"), Some(Resolution::P2160));
    assert_eq!(Resolution::from_id("4k"), None);
    assert_eq!(Resolution::Auto.label(), "Automatic (1080p on a 4K TV)");
    assert_eq!(Resolution::P1440.max_height(), Some(1440));
    assert_eq!(Resolution::P720.tv_mode(30), "1280x720@30");
    assert_eq!(Resolution::P1440.tv_mode(0), "2560x1440@0");
    assert_eq!(Resolution::P1080.tv_mode(65535), "1920x1080@65535");
}

#[test]
fn render_size_edge_cases() {
    assert_eq!(render_size((3, 4000), Some(1000)), (1, 1000), "at least one pixel wide");
    assert_eq!(render_size((3840, 2160), Some(0)), (3840, 2160), "no limit of zero");
    assert_eq!(render_size((1000, 1001), Some(1000)), (999, 1000));
}

#[test]
fn frame_stats_report_every_ten_seconds_and_start_over() {
    let mut stats = FrameStats::new();
    assert_eq!(stats.record(2_000_000, 1_000_000_000), None);
    assert_eq!(stats.record(3_000_000, 9_999_999_999), None);
    assert_eq!(stats.frames, 2);
    assert_eq!(stats.busy_nanos, 5_000_000);
    let report = stats.record(1_000_000, 10_000_000_000).unwrap();
    assert_eq!(report, FrameReport { frames: 3, busy_nanos: 6_000_000, elapsed_nanos: 10_000_000_000 });
    assert_eq!(stats, FrameStats::new());
    assert_eq!(stats.record(7, 12), None);
    assert_eq!(stats.frames, 1);
    assert_eq!(stats.busy_nanos, 7);
}
