//! Overlay rows: fitting model and session rows into a panel width, mapping
//! the picker cursor to a row, and which overlays host a text field.

use vstd::prelude::*;

use crate::text::{byte_len, byte_len_chars, byte_len_sat, chars_of, extend_chars, extend_str, string_of};
use crate::text::string_views;
use crate::text::{decimal, push_decimal};
use super::width::{extended_graphemes, graphemes_of, str_width, unicode_str_width};

verus! {

/// The ellipsis used when a row is cut.
pub open spec fn ellipsis() -> Seq<char> {
    seq!['…']
}

/// `s` cut to at most `max_width` characters, its tail replaced by `ellipsis`
/// when cut; when even the ellipsis does not fit, the ellipsis is clipped.
pub open spec fn spec_truncate_with_ellipsis(
    s: Seq<char>,
    max_width: nat,
    ellipsis: Seq<char>,
) -> Seq<char> {
    if max_width == 0 {
        Seq::empty()
    } else if s.len() <= max_width {
        s
    } else if max_width <= ellipsis.len() {
        ellipsis.take(max_width as int)
    } else {
        s.take(max_width - ellipsis.len()) + ellipsis
    }
}

fn take_chars(s: &[char], n: usize) -> (r: Vec<char>)
    requires
        n <= s@.len(),
    ensures
        r@ == s@.take(n as int),
{
    let mut r: Vec<char> = Vec::new();
    let mut i: usize = 0;
    while i < n
        invariant
            n <= s@.len(),
            i <= n,
            r@ == s@.take(i as int),
        decreases n - i,
    {
        r.push(s[i]);
        assert(r@ =~= s@.take(i + 1));
        i += 1;
    }
    r
}

/// Truncate `s` so it occupies at most `max_width` characters, replacing the
/// tail with `ellipsis` when truncation is needed.
pub fn truncate_with_ellipsis(s: &str, max_width: usize, ellipsis: &str) -> (r: String)
    ensures
        r@ == spec_truncate_with_ellipsis(s@, max_width as nat, ellipsis@),
{
    if max_width == 0 {
        return String::new();
    }
    let cs = chars_of(s);
    if cs.len() <= max_width {
        return string_of(&cs);
    }
    let es = chars_of(ellipsis);
    if max_width <= es.len() {
        return string_of(&take_chars(&es, max_width));
    }
    let mut head = take_chars(&cs, max_width - es.len());
    extend_chars(&mut head, &es);
    string_of(&head)
}

/// A model-picker row: marker, name, and the parenthesised id when it fits;
/// otherwise only the (truncated) name.
pub open spec fn spec_format_model_row(
    marker: Seq<char>,
    name: Seq<char>,
    id: Seq<char>,
    max_width: nat,
) -> Seq<char> {
    let overhead = marker.len() + 2;
    if max_width <= overhead {
        marker
    } else {
        let budget = (max_width - overhead) as nat;
        let id_part = " ("@ + id + ")"@;
        if id_part.len() <= budget {
            marker + " "@ + spec_truncate_with_ellipsis(name, (budget - id_part.len()) as nat, ellipsis())
                + id_part
        } else {
            marker + " "@ + spec_truncate_with_ellipsis(name, budget, ellipsis())
        }
    }
}

/// Format a single model-picker row, truncated to fit `max_width` characters
/// (with one character of slack) so the row never wraps.
pub fn format_model_row(marker: &str, display_name: &str, id: &str, max_width: usize) -> (r: String)
    ensures
        r@ == spec_format_model_row(marker@, display_name@, id@, max_width as nat),
{
    proof {
        reveal_strlit(" (");
        reveal_strlit(")");
        reveal_strlit(" ");
        reveal_strlit("…");
    }
    let m = chars_of(marker);
    if max_width <= m.len() || max_width - m.len() <= 2 {
        return string_of(&m);
    }
    let budget = max_width - m.len() - 2;
    let mut id_part = chars_of(" (");
    extend_str(&mut id_part, id);
    extend_str(&mut id_part, ")");
    let mut out = m;
    extend_str(&mut out, " ");
    if id_part.len() <= budget {
        let name = truncate_with_ellipsis(display_name, budget - id_part.len(), "…");
        extend_str(&mut out, name.as_str());
        extend_chars(&mut out, &id_part);
    } else {
        let name = truncate_with_ellipsis(display_name, budget, "…");
        extend_str(&mut out, name.as_str());
    }
    string_of(&out)
}

/// A session-list row: two spaces, the title, the parenthesised model when it
/// fits, two spaces; empty when not even the leading padding fits.
pub open spec fn spec_format_session_row(title: Seq<char>, model: Seq<char>, max_width: nat) -> Seq<
    char,
> {
    let tail = " ("@ + model + ")"@;
    if max_width <= 2 {
        Seq::empty()
    } else {
        let budget = (max_width - 2) as nat;
        if tail.len() + 2 <= budget {
            "  "@ + spec_truncate_with_ellipsis(title, (budget - tail.len() - 2) as nat, ellipsis())
                + tail + "  "@
        } else {
            "  "@ + spec_truncate_with_ellipsis(title, budget, ellipsis()) + "  "@
        }
    }
}

/// Format a single session row, truncated to fit `max_width` characters.
pub fn format_session_row(title: &str, model: &str, max_width: usize) -> (r: String)
    ensures
        r@ == spec_format_session_row(title@, model@, max_width as nat),
{
    proof {
        reveal_strlit(" (");
        reveal_strlit(")");
        reveal_strlit("  ");
        reveal_strlit("…");
    }
    let mut tail = chars_of(" (");
    extend_str(&mut tail, model);
    extend_str(&mut tail, ")");
    if max_width <= 2 {
        return String::new();
    }
    let budget = max_width - 2;
    let mut out = chars_of("  ");
    if tail.len() <= budget && budget - tail.len() >= 2 {
        let t = truncate_with_ellipsis(title, budget - tail.len() - 2, "…");
        extend_str(&mut out, t.as_str());
        extend_chars(&mut out, &tail);
    } else {
        let t = truncate_with_ellipsis(title, budget, "…");
        extend_str(&mut out, t.as_str());
    }
    extend_str(&mut out, "  ");
    string_of(&out)
}

/// A row of the grouped model picker.
#[derive(Debug)]
pub enum Row {
    Header { label: String },
    Model { entry_idx: usize, is_current: bool },
}

/// Number of model rows among the first `i` rows.
pub open spec fn model_rows_before(rows: Seq<Row>, i: int) -> nat
    decreases i,
{
    if i <= 0 {
        0
    } else {
        model_rows_before(rows, i - 1) + if rows[i - 1] is Model {
            1nat
        } else {
            0nat
        }
    }
}

/// The row showing model entry `cursor`: the row of the `cursor`-th model
/// row; when there is none, `cursor` clamped to the last row (0 when empty).
pub open spec fn spec_cursor_to_row(rows: Seq<Row>, cursor: nat) -> int {
    if exists|i: int| 0 <= i < rows.len() && rows[i] is Model && model_rows_before(rows, i) == cursor {
        choose|i: int| 0 <= i < rows.len() && rows[i] is Model && model_rows_before(rows, i) == cursor
    } else if rows.len() == 0 {
        0
    } else if cursor < rows.len() {
        cursor as int
    } else {
        rows.len() - 1
    }
}

proof fn lemma_model_rows_unique(rows: Seq<Row>, i: int, j: int)
    requires
        0 <= i < j < rows.len(),
        rows[i] is Model,
    ensures
        model_rows_before(rows, i) < model_rows_before(rows, j),
    decreases j - i,
{
    if j > i + 1 {
        lemma_model_rows_unique(rows, i, j - 1);
    }
}

/// Translate the picker cursor from model-entry index to row index.
pub fn cursor_to_row(rows: &[Row], cursor: usize) -> (r: usize)
    ensures
        r == spec_cursor_to_row(rows@, cursor as nat),
{
    let mut model_count: usize = 0;
    let mut i: usize = 0;
    while i < rows.len()
        invariant
            i <= rows@.len(),
            model_count == model_rows_before(rows@, i as int),
            model_count <= cursor,
        decreases rows@.len() - i,
    {
        if let Row::Model { .. } = &rows[i] {
            if model_count == cursor {
                proof {
                    assert forall|k: int|
                        0 <= k < rows@.len() && rows@[k] is Model && model_rows_before(rows@, k)
                            == cursor implies k == i by {
                        if k < i {
                            lemma_model_rows_unique(rows@, k, i as int);
                        }
                        if k > i {
                            lemma_model_rows_unique(rows@, i as int, k);
                        }
                    }
                }
                return i;
            }
            model_count += 1;
        }
        i += 1;
    }
    proof {
        assert forall|k: int|
            0 <= k < rows@.len() && rows@[k] is Model implies model_rows_before(rows@, k)
                != cursor by {
            lemma_model_rows_monotone(rows@, k + 1, rows@.len() as int);
        }
    }
    if rows.len() == 0 {
        0
    } else if cursor < rows.len() {
        cursor
    } else {
        rows.len() - 1
    }
}

proof fn lemma_model_rows_monotone(rows: Seq<Row>, i: int, j: int)
    requires
        0 <= i <= j <= rows.len(),
    ensures
        model_rows_before(rows, i) <= model_rows_before(rows, j),
    decreases j - i,
{
    if i < j {
        lemma_model_rows_monotone(rows, i, j - 1);
    }
}

/// `value`, or `default` when `value` is zero.
pub fn fallback(value: u16, default: u16) -> (r: u16)
    ensures
        r == (if value == 0 {
            default
        } else {
            value
        }),
{
    if value == 0 {
        default
    } else {
        value
    }
}

/// The overlay shown above the session screen.
#[derive(Debug, Clone, Copy, PartialEq, Eq, Structural)]
pub enum Overlay {
    Closed,
    Tools,
    Skills,
    Theme,
    SlashPicker,
    FilePicker,
    ModelPicker,
    SessionList,
    RenameSession,
    ConnectProvider,
    Choice,
}

/// Step of the connect-provider flow.
#[derive(Debug, Clone, Copy, PartialEq, Eq, Structural)]
pub enum ConnectStep {
    PickProvider,
    EnterKey,
    Validating,
    Done,
}

/// True while an overlay hosts a text field: the model picker's search, or
/// the connect-provider API key input.
pub fn active_overlay_text_input(overlay: Overlay, step: ConnectStep) -> (r: bool)
    ensures
        r == (overlay == Overlay::ModelPicker || (overlay == Overlay::ConnectProvider && step
            == ConnectStep::EnterKey)),
{
    overlay == Overlay::ModelPicker || (overlay == Overlay::ConnectProvider && step
        == ConnectStep::EnterKey)
}

/// The panel title of an overlay and, for the scrolled lists, the key hint
/// beside it; `None` when no overlay is open.
pub open spec fn spec_overlay_title(overlay: Overlay, step: ConnectStep) -> Option<
    (Seq<char>, Option<Seq<char>>),
> {
    match overlay {
        Overlay::Closed => None,
        Overlay::Tools => Some(("Tools"@, None)),
        Overlay::Skills => Some(("Skills"@, Some("Enter insert, Esc close"@))),
        Overlay::Theme => Some(("Theme"@, None)),
        Overlay::SlashPicker => Some((" commands  (↑↓ to move, Enter to run, Esc to close) "@, None)),
        Overlay::FilePicker => Some(("Files"@, Some("Enter insert, Esc close"@))),
        Overlay::ModelPicker => Some(("Model"@, Some("type to search, Esc close"@))),
        Overlay::SessionList => Some(("Sessions"@, Some("Esc close, d delete"@))),
        Overlay::RenameSession => Some(("Rename session"@, None)),
        Overlay::ConnectProvider => Some(
            (
                match step {
                    ConnectStep::PickProvider => "Connect Provider"@,
                    ConnectStep::EnterKey => "Enter API Key"@,
                    ConnectStep::Validating => "Validating..."@,
                    ConnectStep::Done => "Connected!"@,
                },
                None,
            ),
        ),
        Overlay::Choice => Some(("Choose"@, None)),
    }
}

fn title_of(title: &str, hint: Option<&str>) -> (r: Option<(String, Option<String>)>)
    ensures
        r matches Some((t, h)) && t@ == title@ && match hint {
            Some(x) => h matches Some(y) && y@ == x@,
            None => h is None,
        },
{
    Some(
        (
            string_of(&chars_of(title)),
            match hint {
                Some(x) => Some(string_of(&chars_of(x))),
                None => None,
            },
        ),
    )
}

/// The title (and key hint) of the open overlay's panel.
pub fn overlay_title(overlay: Overlay, step: ConnectStep) -> (r: Option<(String, Option<String>)>)
    ensures
        match spec_overlay_title(overlay, step) {
            None => r is None,
            Some((t, h)) => r matches Some((rt, rh)) && rt@ == t && match h {
                Some(x) => rh matches Some(y) && y@ == x,
                None => rh is None,
            },
        },
{
    match overlay {
        Overlay::Closed => None,
        Overlay::Tools => title_of("Tools", None),
        Overlay::Skills => title_of("Skills", Some("Enter insert, Esc close")),
        Overlay::Theme => title_of("Theme", None),
        Overlay::SlashPicker => title_of(" commands  (↑↓ to move, Enter to run, Esc to close) ", None),
        Overlay::FilePicker => title_of("Files", Some("Enter insert, Esc close")),
        Overlay::ModelPicker => title_of("Model", Some("type to search, Esc close")),
        Overlay::SessionList => title_of("Sessions", Some("Esc close, d delete")),
        Overlay::RenameSession => title_of("Rename session", None),
        Overlay::ConnectProvider => match step {
            ConnectStep::PickProvider => title_of("Connect Provider", None),
            ConnectStep::EnterKey => title_of("Enter API Key", None),
            ConnectStep::Validating => title_of("Validating...", None),
            ConnectStep::Done => title_of("Connected!", None),
        },
        Overlay::Choice => title_of("Choose", None),
    }
}

/// The model picker's position footer: none without a search; `" 0/<total> "`
/// when nothing matches; otherwise `" <cursor+1>/<filtered> · <filtered>/<total> "`.
pub open spec fn spec_model_picker_footer(
    searching: bool,
    cursor: nat,
    filtered: nat,
    total: nat,
) -> Option<Seq<char>> {
    if !searching {
        None
    } else if filtered == 0 {
        Some(" 0/"@ + decimal(total) + " "@)
    } else {
        Some(
            " "@ + decimal(cursor + 1) + "/"@ + decimal(filtered) + " · "@ + decimal(filtered) + "/"@
                + decimal(total) + " "@,
        )
    }
}

/// The model picker's footer for a search with `filtered` of `total` models
/// matching and the cursor on match `cursor`.
pub fn model_picker_footer(searching: bool, cursor: usize, filtered: usize, total: usize) -> (r:
    Option<String>)
    requires
        cursor < usize::MAX,
    ensures
        match spec_model_picker_footer(searching, cursor as nat, filtered as nat, total as nat) {
            None => r is None,
            Some(t) => r matches Some(x) && x@ == t,
        },
{
    if !searching {
        return None;
    }
    if filtered == 0 {
        let mut out = chars_of(" 0/");
        push_decimal(&mut out, total as u64);
        extend_str(&mut out, " ");
        let r = string_of(&out);
        proof {
            assert(r@ =~= " 0/"@ + decimal(total as nat) + " "@);
        }
        return Some(r);
    }
    let mut out = chars_of(" ");
    push_decimal(&mut out, cursor as u64 + 1);
    extend_str(&mut out, "/");
    push_decimal(&mut out, filtered as u64);
    extend_str(&mut out, " · ");
    push_decimal(&mut out, filtered as u64);
    extend_str(&mut out, "/");
    push_decimal(&mut out, total as u64);
    extend_str(&mut out, " ");
    let r = string_of(&out);
    proof {
        assert(r@ =~= " "@ + decimal(cursor as nat + 1) + "/"@ + decimal(filtered as nat) + " · "@
            + decimal(filtered as nat) + "/"@ + decimal(total as nat) + " "@);
    }
    Some(r)
}

/// Rows before line `i`: the sum of the first `i` wrapped line heights.
pub open spec fn rows_before(heights: Seq<usize>, i: int) -> int
    decreases i,
{
    if i <= 0 {
        0
    } else {
        rows_before(heights, i - 1) + heights[i - 1] as int
    }
}

/// The choice panel's follow-scroll: the scroll moves just enough to show
/// the cursor line's first row in a body `rows` high, then is clamped so it
/// never passes the last full page. `heights` are the body lines' wrapped
/// heights; a cursor past the last line counts as row 0.
pub open spec fn spec_choice_scroll(heights: Seq<usize>, cursor_line: int, prev: int, rows: int) -> int {
    let cursor_start = if 0 <= cursor_line < heights.len() {
        rows_before(heights, cursor_line)
    } else {
        0
    };
    let total = rows_before(heights, heights.len() as int);
    let s = if cursor_start < prev {
        cursor_start
    } else if rows > 0 && cursor_start >= prev + rows {
        cursor_start + 1 - rows
    } else {
        prev
    };
    let last = if total > rows {
        total - rows
    } else {
        0
    };
    if s < last {
        s
    } else {
        last
    }
}

proof fn lemma_rows_before_monotone(heights: Seq<usize>, i: int, j: int)
    requires
        0 <= i <= j,
    ensures
        rows_before(heights, i) <= rows_before(heights, j),
    decreases j - i,
{
    if i < j {
        lemma_rows_before_monotone(heights, i, j - 1);
    }
}

/// Follow-scroll of the choice panel.
pub fn choice_scroll(heights: &Vec<usize>, cursor_line: usize, prev: usize, rows: usize) -> (r: usize)
    requires
        rows_before(heights@, heights@.len() as int) <= usize::MAX,
    ensures
        r == spec_choice_scroll(heights@, cursor_line as int, prev as int, rows as int),
{
    let mut total: usize = 0;
    let mut cursor_start: usize = 0;
    let mut i: usize = 0;
    while i < heights.len()
        invariant
            i <= heights@.len(),
            rows_before(heights@, heights@.len() as int) <= usize::MAX,
            total == rows_before(heights@, i as int),
            cursor_start == if cursor_line < i {
                rows_before(heights@, cursor_line as int)
            } else {
                0
            },
        decreases heights@.len() - i,
    {
        proof {
            lemma_rows_before_monotone(heights@, i + 1, heights@.len() as int);
        }
        if i == cursor_line {
            cursor_start = total;
        }
        total = total + heights[i];
        i += 1;
    }
    let mut scroll = prev;
    if cursor_start < scroll {
        scroll = cursor_start;
    } else if rows > 0 && cursor_start - scroll >= rows {
        scroll = cursor_start - rows + 1;
    }
    let last = if total > rows {
        total - rows
    } else {
        0
    };
    if scroll < last {
        scroll
    } else {
        last
    }
}

/// A provider row of the connect picker: the marker `▶` on the selected row.
pub open spec fn provider_row(name: Seq<char>, selected: bool) -> Seq<char> {
    "  "@ + (if selected {
        "▶"@
    } else {
        " "@
    }) + " "@ + name
}

/// The text lines of the connect-provider panel. `names` are the providers'
/// display names in picker order and `selected` the highlighted row;
/// `provider` is the chosen provider's name, `key` the typed key, `glyph` the
/// text cursor drawn after it and `error` the last validation failure.
pub open spec fn spec_connect_lines(
    step: ConnectStep,
    names: Seq<Seq<char>>,
    selected: Option<usize>,
    provider: Seq<char>,
    key: Seq<char>,
    glyph: Seq<char>,
    error: Option<Seq<char>>,
) -> Seq<Seq<char>> {
    match step {
        ConnectStep::PickProvider => seq!["Select a provider to connect:"@] + Seq::new(
            names.len(),
            |i: int| provider_row(names[i], selected == Some(i as usize)),
        ) + seq![""@, "↑↓ select  Enter confirm  Esc cancel"@],
        ConnectStep::EnterKey => seq![
            "Provider: "@ + provider,
            ""@,
            "Enter your API key (type directly):"@,
            ""@,
            "  "@ + key + glyph,
        ] + (match error {
            Some(e) => seq![""@, "✗ "@ + e],
            None => Seq::empty(),
        }) + seq![""@, "Enter submit  Esc cancel"@],
        ConnectStep::Validating => seq!["Validating API key..."@],
        ConnectStep::Done => seq!["✓ Connected successfully!"@, ""@, "Enter or Esc to close"@],
    }
}

fn push_line(out: &mut Vec<String>, text: &str)
    ensures
        string_views(final(out)@) == string_views(old(out)@).push(text@),
{
    out.push(string_of(&chars_of(text)));
    assert(string_views(out@) =~= string_views(old(out)@).push(text@));
}

/// The text of the connect-provider panel for its current step.
pub fn connect_provider_text(
    step: ConnectStep,
    names: &Vec<String>,
    selected: Option<usize>,
    provider: &str,
    key: &str,
    glyph: &str,
    error: Option<&str>,
) -> (r: Vec<String>)
    ensures
        string_views(r@) == spec_connect_lines(
            step,
            string_views(names@),
            selected,
            provider@,
            key@,
            glyph@,
            match error {
                Some(e) => Some(e@),
                None => None,
            },
        ),
{
    let ghost err = match error {
        Some(e) => Some(e@),
        None => None,
    };
    let ghost want = spec_connect_lines(step, string_views(names@), selected, provider@, key@, glyph@, err);
    let mut out: Vec<String> = Vec::new();
    match step {
        ConnectStep::PickProvider => {
            push_line(&mut out, "Select a provider to connect:");
            let mut i: usize = 0;
            while i < names.len()
                invariant
                    i <= names@.len(),
                    string_views(out@) == seq!["Select a provider to connect:"@] + Seq::new(
                        i as nat,
                        |j: int| provider_row(names@[j]@, selected == Some(j as usize)),
                    ),
                decreases names@.len() - i,
            {
                let is_sel = match selected {
                    Some(k) => k == i,
                    None => false,
                };
                let mut line = chars_of("  ");
                extend_str(&mut line, if is_sel { "▶" } else { " " });
                extend_str(&mut line, " ");
                extend_str(&mut line, names[i].as_str());
                let ghost before = string_views(out@);
                out.push(string_of(&line));
                proof {
                    assert(line@ =~= provider_row(names@[i as int]@, selected == Some(i)));
                    assert(string_views(out@) =~= before.push(line@));
                    assert(string_views(out@) =~= seq!["Select a provider to connect:"@] + Seq::new(
                        (i + 1) as nat,
                        |j: int| provider_row(names@[j]@, selected == Some(j as usize)),
                    ));
                }
                i += 1;
            }
            push_line(&mut out, "");
            push_line(&mut out, "↑↓ select  Enter confirm  Esc cancel");
            proof {
                assert(Seq::new(names@.len(), |j: int| provider_row(names@[j]@, selected == Some(j as usize)))
                    =~= Seq::new(
                    string_views(names@).len(),
                    |j: int| provider_row(string_views(names@)[j], selected == Some(j as usize)),
                ));
                assert(string_views(out@) =~= want);
            }
        },
        ConnectStep::EnterKey => {
            let mut first = chars_of("Provider: ");
            extend_str(&mut first, provider);
            let first_s = string_of(&first);
            push_line(&mut out, first_s.as_str());
            push_line(&mut out, "");
            push_line(&mut out, "Enter your API key (type directly):");
            push_line(&mut out, "");
            let mut k = chars_of("  ");
            extend_str(&mut k, key);
            extend_str(&mut k, glyph);
            let k_s = string_of(&k);
            push_line(&mut out, k_s.as_str());
            match error {
                Some(e) => {
                    push_line(&mut out, "");
                    let mut m = chars_of("✗ ");
                    extend_str(&mut m, e);
                    let m_s = string_of(&m);
                    push_line(&mut out, m_s.as_str());
                },
                None => {},
            }
            push_line(&mut out, "");
            push_line(&mut out, "Enter submit  Esc cancel");
            proof {
                assert(string_views(out@) =~= want);
            }
        },
        ConnectStep::Validating => {
            push_line(&mut out, "Validating API key...");
            proof {
                assert(string_views(out@) =~= want);
            }
        },
        ConnectStep::Done => {
            push_line(&mut out, "✓ Connected successfully!");
            push_line(&mut out, "");
            push_line(&mut out, "Enter or Esc to close");
            proof {
                assert(string_views(out@) =~= want);
            }
        },
    }
    out
}

/// Concatenation of editor lines without separators.
pub open spec fn joined(lines: Seq<String>) -> Seq<char>
    decreases lines.len(),
{
    if lines.len() == 0 {
        Seq::empty()
    } else {
        joined(lines.drop_last()) + lines.last()@
    }
}

fn join_lines(lines: &Vec<String>) -> (r: Vec<char>)
    ensures
        r@ == joined(lines@),
{
    let mut out: Vec<char> = Vec::new();
    let mut i: usize = 0;
    while i < lines.len()
        invariant
            i <= lines@.len(),
            out@ == joined(lines@.take(i as int)),
        decreases lines@.len() - i,
    {
        proof {
            assert(lines@.take(i + 1).drop_last() =~= lines@.take(i as int));
        }
        extend_str(&mut out, lines[i].as_str());
        i += 1;
    }
    assert(lines@.take(lines@.len() as int) =~= lines@);
    out
}

/// The text shown in the API-key field: the key editor's lines, then any text
/// still in the composer, all joined without separators.
pub fn connect_provider_key_text(key_lines: &Vec<String>, composer_lines: &Vec<String>) -> (r:
    String)
    ensures
        r@ == joined(key_lines@) + joined(composer_lines@),
{
    let mut text = join_lines(key_lines);
    let rest = join_lines(composer_lines);
    extend_chars(&mut text, &rest);
    string_of(&text)
}

/// Index of the grapheme the cursor sits on: the number of leading graphemes
/// that start before byte `cursor_byte`, where each starts at the byte sum of
/// those before it (`acc` being the start of the first of `gs`).
pub open spec fn cursor_grapheme(gs: Seq<Seq<char>>, acc: nat, cursor_byte: nat) -> nat
    decreases gs.len(),
{
    if gs.len() == 0 || acc >= cursor_byte {
        0
    } else {
        1 + cursor_grapheme(gs.drop_first(), acc + byte_len(gs[0]), cursor_byte)
    }
}

/// Scroll back from grapheme `start`, taking the grapheme before it while
/// the columns taken (`before`) stay under `width`; the first visible
/// grapheme and the columns before the cursor.
pub open spec fn scroll_start(gs: Seq<Seq<char>>, start: nat, before: nat, width: nat) -> (nat, nat)
    decreases start,
{
    if start == 0 || start > gs.len() {
        (start, before)
    } else if before + unicode_str_width(gs[start - 1]) >= width {
        (start, before)
    } else {
        scroll_start(gs, (start - 1) as nat, before + unicode_str_width(gs[start - 1]), width)
    }
}

/// The leading graphemes of `gs` that fit in `width` columns after `used`.
pub open spec fn visible_from(gs: Seq<Seq<char>>, used: nat, width: nat) -> Seq<char>
    decreases gs.len(),
{
    if gs.len() == 0 || used + unicode_str_width(gs[0]) > width {
        Seq::empty()
    } else {
        gs[0] + visible_from(gs.drop_first(), used + unicode_str_width(gs[0]), width)
    }
}

/// The model-search field scrolled so the cursor stays visible: the visible
/// text, and the columns between its start and the cursor.
pub open spec fn spec_model_search_layout(query: Seq<char>, cursor: nat, width: nat) -> (
    Seq<char>,
    nat,
) {
    let gs = extended_graphemes(query);
    let c = if cursor < query.len() {
        cursor as int
    } else {
        query.len() as int
    };
    let cg = cursor_grapheme(gs, 0, byte_len_sat(query.take(c)));
    let (start, before) = scroll_start(gs, cg, 0, width);
    (visible_from(gs.skip(start as int), 0, width), before)
}

proof fn lemma_visible_from_step(gs: Seq<Seq<char>>, k: int, used: nat, width: nat)
    requires
        0 <= k < gs.len(),
        used + unicode_str_width(gs[k]) <= width,
    ensures
        visible_from(gs.skip(k), used, width) == gs[k] + visible_from(
            gs.skip(k + 1),
            used + unicode_str_width(gs[k]),
            width,
        ),
{
    assert(gs.skip(k)[0] == gs[k]);
    assert(gs.skip(k).drop_first() =~= gs.skip(k + 1));
}

/// Lay out the model-search query in `width` columns around the cursor
/// (a character index): the visible part, and the cursor's column in it.
pub fn model_search_layout(query: &str, cursor: usize, width: usize) -> (r: (String, usize))
    ensures
        r.0@ == spec_model_search_layout(query@, cursor as nat, width as nat).0,
        r.1 == spec_model_search_layout(query@, cursor as nat, width as nat).1,
{
    let gs = graphemes_of(query);
    let ghost gv = string_views(gs@);
    let qs = chars_of(query);
    let c = if cursor < qs.len() {
        cursor
    } else {
        qs.len()
    };
    let mut head: Vec<char> = Vec::new();
    let mut i: usize = 0;
    while i < c
        invariant
            c <= qs@.len(),
            i <= c,
            head@ == qs@.take(i as int),
        decreases c - i,
    {
        head.push(qs[i]);
        assert(head@ =~= qs@.take(i + 1));
        i += 1;
    }
    let cursor_byte = byte_len_chars(&head);
    // The grapheme the cursor is on.
    let mut acc: usize = 0;
    let mut cg: usize = 0;
    proof {
        assert(gv.skip(0) =~= gv);
    }
    while cg < gs.len() && acc < cursor_byte
        invariant
            gv == string_views(gs@),
            cg <= gs@.len(),
            acc <= usize::MAX,
            cursor_grapheme(gv, 0, cursor_byte as nat) == cg + cursor_grapheme(
                gv.skip(cg as int),
                acc as nat,
                cursor_byte as nat,
            ),
        decreases gs@.len() - cg,
    {
        let b = byte_len_chars(&chars_of(gs[cg].as_str()));
        proof {
            assert(gv.skip(cg as int)[0] == gv[cg as int]);
            assert(gv.skip(cg as int).drop_first() =~= gv.skip(cg + 1));
            let nxt: nat = (acc + byte_len(gv[cg as int])) as nat;
            if nxt > usize::MAX {
                assert(gv.skip(cg + 1).len() == 0 || nxt >= cursor_byte);
                if gv.skip(cg + 1).len() > 0 {
                    assert(cursor_grapheme(gv.skip(cg + 1), nxt, cursor_byte as nat) == 0);
                    assert(cursor_grapheme(gv.skip(cg + 1), usize::MAX as nat, cursor_byte as nat)
                        == 0);
                }
            }
        }
        acc = acc.saturating_add(b);
        cg += 1;
    }
    proof {
        if cg < gs@.len() {
            assert(cursor_grapheme(gv.skip(cg as int), acc as nat, cursor_byte as nat) == 0);
        } else {
            assert(gv.skip(cg as int).len() == 0);
        }
    }
    // Scroll back while the graphemes before the cursor fit.
    let mut start: usize = cg;
    let mut before: usize = 0;
    let mut done = false;
    while start > 0 && !done
        invariant
            gv == string_views(gs@),
            start <= cg <= gs@.len(),
            before <= width,
            scroll_start(gv, cg as nat, 0, width as nat) == if done {
                (start as nat, before as nat)
            } else {
                scroll_start(gv, start as nat, before as nat, width as nat)
            },
        decreases start + (if done { 0int } else { 1int }),
    {
        let w = str_width(gs[start - 1].as_str());
        if w >= width - before {
            done = true;
        } else {
            before = before + w;
            start = start - 1;
        }
    }
    // The graphemes that fit from there.
    let mut visible: Vec<char> = Vec::new();
    let mut used: usize = 0;
    let mut k: usize = start;
    let mut full = false;
    let ghost vis = visible_from(gv.skip(start as int), 0, width as nat);
    while k < gs.len() && !full
        invariant
            gv == string_views(gs@),
            start <= k <= gs@.len(),
            used <= width,
            vis == visible_from(gv.skip(start as int), 0, width as nat),
            full ==> vis == visible@,
            !full ==> vis == visible@ + visible_from(gv.skip(k as int), used as nat, width as nat),
        decreases gs@.len() - k + (if full { 0int } else { 1int }),
    {
        let w = str_width(gs[k].as_str());
        proof {
            assert(gv.skip(k as int)[0] == gv[k as int]);
            assert(gv.skip(k as int).drop_first() =~= gv.skip(k + 1));
        }
        if w > width - used {
            full = true;
            proof {
                assert(visible@ + Seq::<char>::empty() =~= visible@);
            }
        } else {
            let ghost before_vis = visible@;
            extend_str(&mut visible, gs[k].as_str());
            proof {
                lemma_visible_from_step(gv, k as int, used as nat, width as nat);
                assert(before_vis + (gv[k as int] + visible_from(
                    gv.skip(k + 1),
                    (used + w) as nat,
                    width as nat,
                )) =~= visible@ + visible_from(gv.skip(k + 1), (used + w) as nat, width as nat));
            }
            used = used + w;
            k += 1;
        }
    }
    proof {
        if !full {
            assert(gv.skip(k as int).len() == 0);
            assert(visible@ + Seq::<char>::empty() =~= visible@);
        }
    }
    (string_of(&visible), before)
}

} // verus!
