//! The admin page's feeds and status sections: each feed with what it
//! shows and an example request, and each followed league's health with
//! the latest plays.
use vstd::prelude::*;
use crate::admin::page::{esc, escaped, Notice};
use crate::admin::sections::{or_empty, find_league, league_name};
use crate::text::{dec, push_dec};

verus! {

// ---------------------------------------------------------------------------
// Feeds
// ---------------------------------------------------------------------------

/// A feed on the admin page (its token isn't kept): its name, how many
/// segments it shows and, while it shows them, until when (milliseconds
/// since the epoch).
#[derive(Clone, Debug)]
pub struct FeedRow {
    pub name: String,
    pub segments: usize,
    pub expires_at: Option<i64>,
}

pub const FEEDS_START: &'static str =
    "<section id=\"feeds\"><h2>Feeds</h2><p class=\"hint\">Let your own scripts put things on the \
     sign: stock prices, server status, the doorbell. Each feed gets a token; send it as \
     <code>Authorization: Bearer …</code>. See <code>docs/FEEDS.md</code> for the format.</p>";

pub const FEEDS_TABLE: &'static str =
    "<table class=\"feeds\"><thead><tr><th>Feed</th><th>On screen</th><th></th><th></th></tr></thead><tbody>";

pub const FEEDS_TABLE_END: &'static str = "</tbody></table>";

pub const NEW_FEED: &'static str =
    "<form method=\"post\" action=\"/admin/feeds\" class=\"row new-feed\"><label>New feed \
     <input name=\"name\" required pattern=\"[a-z0-9_\\-]{1,32}\" placeholder=\"stocks\" \
     title=\"1-32 of a-z, 0-9, - and _\"></label><button>Create</button></form>";

pub const EXAMPLE_START: &'static str = "<details><summary>Example</summary><pre>curl -X POST http://";

pub const EXAMPLE_PATH: &'static str = "/api/feeds/";

pub const EXAMPLE_AUTH: &'static str = " \\\n  -H 'Authorization: Bearer ";

pub const EXAMPLE_END: &'static str =
    "' \\\n  -H 'Content-Type: application/json' \\\n  \
     -d '{\"segments\": [{\"text\": \"AAPL 189.20\", \"detail\": \"+1.2%\", \"color\": \"green\"}]}'</pre></details></section>";

/// Whole minutes from `now` to `t`, at least one.
pub open spec fn minutes_left(t: i64, now: i64) -> int {
    let m = (t - now) / 60000;
    if m < 1 {
        1
    } else {
        m
    }
}

/// What a feed shows: its segments and the minutes left while it shows
/// anything, else "idle".
pub open spec fn feed_state(f: FeedRow, now: i64) -> Seq<char> {
    match f.expires_at {
        Some(t) => if t > now {
            "<span class=\"good\">"@ + dec(f.segments as nat) + " segment"@ + (if f.segments == 1 {
                ""@
            } else {
                "s"@
            }) + "</span>, "@ + dec(minutes_left(t, now) as nat) + " min left"@
        } else {
            "idle"@
        },
        None => "idle"@,
    }
}

/// A feed shows "idle" exactly when it has no content on screen: no
/// expiry, or one that isn't after now. While its content is on screen
/// the row gives its segment count and the whole minutes left, at least
/// one: the largest number of whole minutes before the expiry, or one
/// when less than two minutes are left.
pub proof fn law_feed_state_follows_expiry(f: FeedRow, now: i64)
    ensures
        (feed_state(f, now) == "idle"@) <==> !(f.expires_at matches Some(t) && t > now),
        f.expires_at is Some && f.expires_at->0 > now ==> exists|m: nat|
            {
                &&& feed_state(f, now) == "<span class=\"good\">"@ + dec(f.segments as nat) + " segment"@
                    + (if f.segments == 1 {
                    ""@
                } else {
                    "s"@
                }) + "</span>, "@ + #[trigger] dec(m) + " min left"@
                &&& m >= 1
                &&& (m > 1 ==> m * 60000 <= f.expires_at->0 - now)
                &&& f.expires_at->0 - now < (m + 1) * 60000
            },
{
    reveal_strlit("idle");
    reveal_strlit("<span class=\"good\">");
    if let Some(t) = f.expires_at {
        if t > now {
            let st = feed_state(f, now);
            assert(st[0] == '<');
            assert("idle"@[0] == 'i');
            let m = minutes_left(t, now) as nat;
            assert(m >= 1);
            assert(feed_state(f, now) == "<span class=\"good\">"@ + dec(f.segments as nat) + " segment"@ + (if f.segments == 1 {
                ""@
            } else {
                "s"@
            }) + "</span>, "@ + dec(m) + " min left"@);
        }
    }
}

/// A feed's row, with buttons for a new token and for revoking it.
pub open spec fn feed_row(f: FeedRow, now: i64) -> Seq<char> {
    let n = escaped(f.name@);
    "<tr><td>"@ + n + "</td><td>"@ + feed_state(f, now)
        + "</td><td><form method=\"post\" action=\"/admin/feeds/token\"><input type=\"hidden\" name=\"name\" value=\""@
        + n
        + "\"><button>New token</button></form></td><td><form method=\"post\" action=\"/admin/feeds/revoke\"><input type=\"hidden\" name=\"name\" value=\""@
        + n + "\"><button>Revoke</button></form></td></tr>"@
}

/// The rows, in order.
pub open spec fn feed_rows(fs: Seq<FeedRow>, now: i64) -> Seq<char>
    decreases fs.len(),
{
    if fs.len() == 0 {
        Seq::empty()
    } else {
        feed_rows(fs.drop_last(), now) + feed_row(fs.last(), now)
    }
}

/// The feed and token the example uses: a new token's, else the first
/// feed with "TOKEN", else "stocks".
pub open spec fn example_names(feeds: Seq<FeedRow>, notice: Notice) -> (Seq<char>, Seq<char>) {
    match notice {
        Notice::NewToken { feed, token } => (feed@, token@),
        _ => (if feeds.len() > 0 {
            feeds[0].name@
        } else {
            "stocks"@
        }, "TOKEN"@),
    }
}

/// "Feeds": each feed with what it shows, a form for a new one, and an
/// example request for this server.
pub open spec fn feeds_text(feeds: Seq<FeedRow>, now: i64, notice: Notice, host: Seq<char>) -> Seq<char> {
    let (name, token) = example_names(feeds, notice);
    FEEDS_START@ + (if feeds.len() > 0 {
        FEEDS_TABLE@ + feed_rows(feeds, now) + FEEDS_TABLE_END@
    } else {
        Seq::empty()
    }) + NEW_FEED@ + EXAMPLE_START@ + escaped(host) + EXAMPLE_PATH@ + escaped(name) + EXAMPLE_AUTH@ + escaped(token)
        + EXAMPLE_END@
}

fn push_feed_row(h: &mut String, f: &FeedRow, now: i64)
    ensures
        final(h)@ == old(h)@ + feed_row(*f, now),
{
    let n = esc(f.name.as_str());
    h.append("<tr><td>");
    h.append(n.as_str());
    h.append("</td><td>");
    let ghost mid = h@;
    match f.expires_at {
        Some(t) if t > now => {
            h.append("<span class=\"good\">");
            push_dec(h, f.segments as u64);
            h.append(" segment");
            h.append(if f.segments == 1 {
                ""
            } else {
                "s"
            });
            h.append("</span>, ");
            let d: i128 = t as i128 - now as i128;
            let m: i128 = d / 60000;
            let mins: u64 = if m < 1 {
                1
            } else {
                m as u64
            };
            assert(mins as int == minutes_left(t, now));
            push_dec(h, mins);
            h.append(" min left");
        },
        _ => {
            h.append("idle");
        },
    }
    assert(h@ =~= mid + feed_state(*f, now));
    h.append("</td><td><form method=\"post\" action=\"/admin/feeds/token\"><input type=\"hidden\" name=\"name\" value=\"");
    h.append(n.as_str());
    h.append("\"><button>New token</button></form></td><td><form method=\"post\" action=\"/admin/feeds/revoke\"><input type=\"hidden\" name=\"name\" value=\"");
    h.append(n.as_str());
    h.append("\"><button>Revoke</button></form></td></tr>");
    assert(h@ =~= old(h)@ + feed_row(*f, now));
}

/// "Feeds" for the admin page; `now` in milliseconds since the epoch, and
/// `host` this server's address as the browser sees it.
pub fn feeds_section(feeds: &Vec<FeedRow>, now: i64, notice: &Notice, host: &str) -> (h: String)
    ensures
        h@ == feeds_text(feeds@, now, *notice, host@),
{
    let mut h = FEEDS_START.to_owned();
    if feeds.len() > 0 {
        h.append(FEEDS_TABLE);
        let ghost start = h@;
        let mut i: usize = 0;
        while i < feeds.len()
            invariant
                i <= feeds@.len(),
                h@ == start + feed_rows(feeds@.take(i as int), now),
            decreases feeds@.len() - i,
        {
            assert(feeds@.take(i + 1).drop_last() =~= feeds@.take(i as int));
            assert(feeds@.take(i + 1).last() == feeds@[i as int]);
            push_feed_row(&mut h, &feeds[i], now);
            i = i + 1;
        }
        assert(feeds@.take(feeds@.len() as int) =~= feeds@);
        h.append(FEEDS_TABLE_END);
    }
    let ghost before = h@;
    h.append(NEW_FEED);
    h.append(EXAMPLE_START);
    h.append(esc(host).as_str());
    h.append(EXAMPLE_PATH);
    match notice {
        Notice::NewToken { feed, token } => {
            h.append(esc(feed.as_str()).as_str());
            h.append(EXAMPLE_AUTH);
            h.append(esc(token.as_str()).as_str());
        },
        _ => {
            if feeds.len() > 0 {
                h.append(esc(feeds[0].name.as_str()).as_str());
            } else {
                h.append(esc("stocks").as_str());
            }
            h.append(EXAMPLE_AUTH);
            h.append(esc("TOKEN").as_str());
        },
    }
    h.append(EXAMPLE_END);
    assert(h@ =~= feeds_text(feeds@, now, *notice, host@));
    h
}

// ---------------------------------------------------------------------------
// Status
// ---------------------------------------------------------------------------

/// Fetch health for one followed league: its games, whether its data is
/// stale, failures in a row, the last error, and when it last worked
/// (milliseconds since the epoch).
#[derive(Clone, Debug)]
pub struct LeagueHealth {
    pub id: String,
    pub games: usize,
    pub stale: bool,
    pub failures: u32,
    pub last_error: Option<String>,
    pub last_success: Option<i64>,
}

/// A recent play for the status list: when (as the page's clock shows
/// it), its title and detail, and whether it took over the screen.
#[derive(Clone, Debug)]
pub struct PlayRow {
    pub time: String,
    pub title: String,
    pub detail: Option<String>,
    pub takeover: bool,
}

pub const STATUS_START: &'static str =
    "<section class=\"status\"><h2>Status</h2><table><thead><tr><th>League</th><th>Games</th><th>Last update</th><th>State</th></tr></thead><tbody>";

pub const PLAYS_START: &'static str = "</tbody></table><h3>Recent plays</h3>";

pub const NO_PLAYS: &'static str = "<p class=\"empty\">Nothing yet.</p>";

pub const PAGE_END: &'static str = "</section></main></body></html>";

/// Most recent plays listed.
pub const MAX_PLAYS: usize = 12;

/// A league's state: stale (with its last error), retrying, ok, or waiting.
pub open spec fn health_state(l: LeagueHealth) -> Seq<char> {
    if l.stale {
        "<span class=\"bad\">stale</span> "@ + escaped(or_empty(l.last_error))
    } else if l.failures > 0 {
        "<span class=\"warn\">retrying ("@ + dec(l.failures as nat) + ")</span>"@
    } else if l.last_success is Some {
        "<span class=\"good\">ok</span>"@
    } else {
        "waiting"@
    }
}

/// A league's status row.
pub open spec fn health_row(l: LeagueHealth, leagues: Seq<(String, String)>, now: i64) -> Seq<char> {
    "<tr><td>"@ + escaped(league_name(leagues, l.id@)) + "</td><td>"@ + dec(l.games as nat) + "</td><td>"@ + (
    match l.last_success {
        Some(t) => crate::admin::page::ago_text(t, now),
        None => "never"@,
    }) + "</td><td>"@ + health_state(l) + "</td></tr>"@
}

/// The status rows, in order.
pub open spec fn health_rows(hs: Seq<LeagueHealth>, leagues: Seq<(String, String)>, now: i64) -> Seq<char>
    decreases hs.len(),
{
    if hs.len() == 0 {
        Seq::empty()
    } else {
        health_rows(hs.drop_last(), leagues, now) + health_row(hs.last(), leagues, now)
    }
}

/// A recent play's line.
pub open spec fn play_item(p: PlayRow) -> Seq<char> {
    "<li><time>"@ + p.time@ + "</time> <strong>"@ + escaped(p.title@) + "</strong> "@ + escaped(or_empty(p.detail))
        + " <span class=\"tag\">"@ + (if p.takeover {
        "takeover"@
    } else {
        "flash"@
    }) + "</span></li>"@
}

/// The plays' lines, in order.
pub open spec fn play_items(ps: Seq<PlayRow>) -> Seq<char>
    decreases ps.len(),
{
    if ps.len() == 0 {
        Seq::empty()
    } else {
        play_items(ps.drop_last()) + play_item(ps.last())
    }
}

/// "Status": each followed league's health, then the latest plays (at
/// most [`MAX_PLAYS`]); this ends the page.
pub open spec fn status_text(
    health: Seq<LeagueHealth>,
    leagues: Seq<(String, String)>,
    now: i64,
    plays: Seq<PlayRow>,
) -> Seq<char> {
    STATUS_START@ + health_rows(health, leagues, now) + PLAYS_START@ + (if plays.len() == 0 {
        NO_PLAYS@
    } else {
        "<ul class=\"alerts\">"@ + play_items(
            if plays.len() > MAX_PLAYS {
                plays.take(MAX_PLAYS as int)
            } else {
                plays
            },
        ) + "</ul>"@
    }) + PAGE_END@
}

fn push_health_row(h: &mut String, l: &LeagueHealth, leagues: &Vec<(String, String)>, now: i64)
    ensures
        final(h)@ == old(h)@ + health_row(*l, leagues@, now),
{
    h.append("<tr><td>");
    let name = match find_league(leagues, &l.id) {
        Some(k) => esc(leagues[k].1.as_str()),
        None => esc(l.id.as_str()),
    };
    h.append(name.as_str());
    h.append("</td><td>");
    push_dec(h, l.games as u64);
    h.append("</td><td>");
    match l.last_success {
        Some(t) => h.append(crate::admin::page::ago(t, now).as_str()),
        None => h.append("never"),
    }
    h.append("</td><td>");
    let ghost mid = h@;
    if l.stale {
        h.append("<span class=\"bad\">stale</span> ");
        match &l.last_error {
            Some(e) => h.append(esc(e.as_str()).as_str()),
            None => {
                assert(escaped(or_empty(l.last_error)) =~= Seq::<char>::empty());
            },
        }
    } else if l.failures > 0 {
        h.append("<span class=\"warn\">retrying (");
        push_dec(h, l.failures as u64);
        h.append(")</span>");
    } else if l.last_success.is_some() {
        h.append("<span class=\"good\">ok</span>");
    } else {
        h.append("waiting");
    }
    assert(h@ =~= mid + health_state(*l));
    h.append("</td></tr>");
    assert(h@ =~= old(h)@ + health_row(*l, leagues@, now));
}

fn push_play(h: &mut String, p: &PlayRow)
    ensures
        final(h)@ == old(h)@ + play_item(*p),
{
    h.append("<li><time>");
    h.append(p.time.as_str());
    h.append("</time> <strong>");
    h.append(esc(p.title.as_str()).as_str());
    h.append("</strong> ");
    match &p.detail {
        Some(d) => h.append(esc(d.as_str()).as_str()),
        None => {
            assert(escaped(or_empty(p.detail)) =~= Seq::<char>::empty());
        },
    }
    h.append(" <span class=\"tag\">");
    h.append(if p.takeover {
        "takeover"
    } else {
        "flash"
    });
    h.append("</span></li>");
    assert(h@ =~= old(h)@ + play_item(*p));
}

/// "Status", which ends the admin page: each followed league's health
/// (`now` in milliseconds since the epoch) and the latest plays, newest
/// first as given.
pub fn status_section(
    health: &Vec<LeagueHealth>,
    leagues: &Vec<(String, String)>,
    now: i64,
    plays: &Vec<PlayRow>,
) -> (h: String)
    ensures
        h@ == status_text(health@, leagues@, now, plays@),
{
    let mut h = STATUS_START.to_owned();
    let ghost start = h@;
    let mut i: usize = 0;
    while i < health.len()
        invariant
            i <= health@.len(),
            h@ == start + health_rows(health@.take(i as int), leagues@, now),
        decreases health@.len() - i,
    {
        assert(health@.take(i + 1).drop_last() =~= health@.take(i as int));
        assert(health@.take(i + 1).last() == health@[i as int]);
        push_health_row(&mut h, &health[i], leagues, now);
        i = i + 1;
    }
    assert(health@.take(health@.len() as int) =~= health@);
    h.append(PLAYS_START);
    let ghost mid = h@;
    if plays.len() == 0 {
        h.append(NO_PLAYS);
    } else {
        h.append("<ul class=\"alerts\">");
        let n = if plays.len() > MAX_PLAYS {
            MAX_PLAYS
        } else {
            plays.len()
        };
        let ghost shown = if plays@.len() > MAX_PLAYS {
            plays@.take(MAX_PLAYS as int)
        } else {
            plays@
        };
        assert(shown =~= plays@.take(n as int));
        let ghost ul = h@;
        let mut j: usize = 0;
        while j < n
            invariant
                j <= n <= plays@.len(),
                h@ == ul + play_items(plays@.take(j as int)),
            decreases n - j,
        {
            assert(plays@.take(j + 1).drop_last() =~= plays@.take(j as int));
            assert(plays@.take(j + 1).last() == plays@[j as int]);
            push_play(&mut h, &plays[j]);
            j = j + 1;
        }
        h.append("</ul>");
    }
    h.append(PAGE_END);
    assert(h@ =~= status_text(health@, leagues@, now, plays@));
    h
}

} // verus!
