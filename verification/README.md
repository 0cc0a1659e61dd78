# marqueet

The logic of Marqueet, a sports ticker for TVs and LED signs, as a library
whose functions carry contracts proved by Verus.

- `src/` — the verified library: display settings and their ids
  (`config`), the drawing size under a resolution limit (`upscale`), frame
  statistics (`frame_stats`), the display's command-line values (`cli`),
  the TV output request and status files (`tv_output`), the admin page
  (`admin`: its HTML section by section and as a whole, the team picker
  and team art section, the form's fields and the form applied to the
  settings it holds), and the server's alert history, takeover policy,
  rate limits, feed tokens, team art limits, provider logo choice, playoff
  backfill steps and poll jitter (`hub`). What the page shows of the
  themes, widget kinds and test takeovers comes in as plain values, and
  fractional display values as the text they print as; the form's look,
  LED color and fractional fields are not applied here. The form's laws
  (`admin::reads_back`): what the page's controls send reads back as the
  settings they show, and fields the form doesn't read change nothing. Text helpers (`text`) and keyed tables (`keyed`)
  are shared by them.
- `tests/` — tests on concrete values, run against the compiled library.
- `app/` — what touches the outside world: files in the snap's data
  folder, the clock, floating-point rates, and the serde forms of the
  display settings.
