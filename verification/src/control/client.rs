//! The control client: its requests, how it reads the answers, and what it
//! shows of them.
use super::protocol::{
    BackupResponse, CertDetailResponse, CertEventSummary, CertSummary, ControlRequest,
    RenewResponse, StatusResponse,
};
use crate::cert::clock;
use crate::config;
use crate::json;
use crate::json::{DocumentFacts, JsonDocument, JsonFacts, JsonKind};
use crate::number;
use crate::text;
use vstd::prelude::*;

verus! {

/// A quotient rounded to the nearest whole number, ties to even.
pub open spec fn nearest(num: nat, den: nat) -> nat {
    let q = num / den;
    let twice = 2 * (num % den);
    if twice > den || (twice == den && q % 2 == 1) {
        q + 1
    } else {
        q
    }
}

/// The spacing of double-precision numbers from `bound / 2` up to `bound`, and
/// beyond: it doubles with each power of two.
pub open spec fn spacing(n: nat, unit: nat, bound: nat) -> nat
    decreases (if n >= bound { n + 1 - bound } else { 0 }),
    when bound > 0
{
    if n < bound {
        unit
    } else {
        spacing(n, 2 * unit, 2 * bound)
    }
}

/// The double-precision number nearest to a whole number.
pub open spec fn as_double(n: nat) -> nat {
    if n < 0x20_0000_0000_0000 {
        n
    } else {
        let unit = spacing(n, 2, 0x40_0000_0000_0000);
        nearest(n, unit) * unit
    }
}

/// A byte count in a unit, to one decimal place.
pub open spec fn in_unit(bytes: nat, unit: nat, name: Seq<char>) -> Seq<char> {
    let tenths = nearest(as_double(bytes) * 10, unit);
    number::decimal(tenths / 10) + "."@ + number::decimal(tenths % 10) + name
}

/// A byte count in words.
pub open spec fn bytes_text(bytes: nat) -> Seq<char> {
    if bytes < 0x400 {
        number::decimal(bytes) + " B"@
    } else if bytes < 0x10_0000 {
        in_unit(bytes, 0x400, " KB"@)
    } else if bytes < 0x4000_0000 {
        in_unit(bytes, 0x10_0000, " MB"@)
    } else {
        in_unit(bytes, 0x4000_0000, " GB"@)
    }
}

fn nearest_of(num: u128, den: u128) -> (r: u128)
    requires
        0 < den < 0x1_0000_0000_0000_0000,
        num < 0x100_0000_0000_0000_0000,
    ensures
        r == nearest(num as nat, den as nat),
        r <= num + 1,
{
    let q: u128 = num / den;
    let twice: u128 = 2 * (num % den);
    assert(q <= num) by (nonlinear_arith)
        requires
            q == num / den,
            den > 0,
    ;
    if twice > den || (twice == den && q % 2 == 1) {
        q + 1
    } else {
        q
    }
}

/// Rounding to a multiple moves a number by at most that much.
proof fn nearest_is_near(n: nat, unit: nat)
    requires
        unit > 0,
    ensures
        nearest(n, unit) * unit <= n + unit,
{
    let q = n / unit;
    assert(q * unit <= n && (q + 1) * unit <= n + unit) by (nonlinear_arith)
        requires
            q == n / unit,
            unit > 0,
    ;
}

fn as_double_of(n: u64) -> (r: u128)
    ensures
        r == as_double(n as nat),
        r < 0x2_0000_0000_0000_0000,
{
    if n < 0x20_0000_0000_0000 {
        return n as u128;
    }
    let mut unit: u128 = 2;
    let mut bound: u128 = 0x40_0000_0000_0000;
    while n as u128 >= bound
        invariant
            spacing(n as nat, 2, 0x40_0000_0000_0000) == spacing(
                n as nat,
                unit as nat,
                bound as nat,
            ),
            0 < unit,
            bound == unit * 0x20_0000_0000_0000,
            bound <= 0x2_0000_0000_0000_0000,
        decreases 0x2_0000_0000_0000_0000 - bound,
    {
        unit = unit * 2;
        bound = bound * 2;
    }
    proof {
        nearest_is_near(n as nat, unit as nat);
        assert(nearest(n as nat, unit as nat) <= n + 1) by {
            let q = n as nat / unit as nat;
            assert(q <= n) by (nonlinear_arith)
                requires
                    q == n as nat / unit as nat,
                    unit > 0,
            ;
        }
    }
    let q: u128 = nearest_of(n as u128, unit);
    assert(q * unit <= n + unit);
    q * unit
}

fn in_unit_of(bytes: u64, unit: u64, name: &str) -> (r: String)
    requires
        unit > 0,
    ensures
        r@ == in_unit(bytes as nat, unit as nat, name@),
{
    let double: u128 = as_double_of(bytes);
    let tenths: u128 = nearest_of(double * 10, unit as u128);
    let whole: u128 = tenths / 10;
    let digits = number::wide_decimal_of(whole);
    let last = number::decimal_of((tenths % 10) as u64);
    text::cat4(digits.as_str(), ".", last.as_str(), name)
}

/// Formats a byte count into human-readable representation.
pub fn format_bytes(bytes: u64) -> (r: String)
    ensures
        r@ == bytes_text(bytes as nat),
{
    if bytes < 0x400 {
        let digits = number::decimal_of(bytes);
        text::cat2(digits.as_str(), " B")
    } else if bytes < 0x10_0000 {
        in_unit_of(bytes, 0x400, " KB")
    } else if bytes < 0x4000_0000 {
        in_unit_of(bytes, 0x10_0000, " MB")
    } else {
        in_unit_of(bytes, 0x4000_0000, " GB")
    }
}

/// A number of seconds in days, hours, minutes and seconds, from the first
/// that is not zero on.
pub open spec fn uptime_text(secs: nat) -> Seq<char> {
    let days = secs / 86400;
    let hours = secs % 86400 / 3600;
    let mins = secs % 3600 / 60;
    let seconds = number::decimal(secs % 60) + "s"@;
    let with_mins = number::decimal(mins) + "m "@ + seconds;
    let with_hours = number::decimal(hours) + "h "@ + with_mins;
    if days > 0 {
        number::decimal(days) + "d "@ + with_hours
    } else if hours > 0 {
        with_hours
    } else if mins > 0 {
        with_mins
    } else {
        seconds
    }
}

/// Formats seconds into an uptime string.
pub fn format_uptime(secs: u64) -> (r: String)
    ensures
        r@ == uptime_text(secs as nat),
{
    let days: u64 = secs / 86400;
    let hours: u64 = secs % 86400 / 3600;
    let mins: u64 = secs % 3600 / 60;
    let s = number::decimal_of(secs % 60);
    let seconds = text::cat2(s.as_str(), "s");
    let m = number::decimal_of(mins);
    let with_mins = text::cat3(m.as_str(), "m ", seconds.as_str());
    let h = number::decimal_of(hours);
    let with_hours = text::cat3(h.as_str(), "h ", with_mins.as_str());
    if days > 0 {
        let d = number::decimal_of(days);
        text::cat3(d.as_str(), "d ", with_hours.as_str())
    } else if hours > 0 {
        with_hours
    } else if mins > 0 {
        with_mins
    } else {
        seconds
    }
}

/// How long ago a timestamp is, in the largest whole unit; a timestamp in the
/// future is zero seconds ago.
pub open spec fn age_text(now: int, ts: int) -> Seq<char> {
    let age: nat = if now > ts {
        (now - ts) as nat
    } else {
        0
    };
    if age < 60 {
        number::decimal(age) + "s ago"@
    } else if age < 3600 {
        number::decimal(age / 60) + "m ago"@
    } else if age < 86400 {
        number::decimal(age / 3600) + "h ago"@
    } else {
        number::decimal(age / 86400) + "d ago"@
    }
}

/// Formats the age of a timestamp relative to the current time.
pub fn format_age(now: i64, ts: i64) -> (r: String)
    ensures
        r@ == age_text(now as int, ts as int),
{
    let age: u64 = if now > ts {
        (now as i128 - ts as i128) as u64
    } else {
        0
    };
    if age < 60 {
        let n = number::decimal_of(age);
        text::cat2(n.as_str(), "s ago")
    } else if age < 3600 {
        let n = number::decimal_of(age / 60);
        text::cat2(n.as_str(), "m ago")
    } else if age < 86400 {
        let n = number::decimal_of(age / 3600);
        text::cat2(n.as_str(), "h ago")
    } else {
        let n = number::decimal_of(age / 86400);
        text::cat2(n.as_str(), "d ago")
    }
}

/// The look of a text on the terminal.
#[derive(Debug, Clone, Copy, PartialEq, Eq, Structural)]
pub enum Tone {
    Plain,
    Bold,
    Grey,
    White,
    Green,
    GreenBold,
    Yellow,
    YellowBold,
    Cyan,
    CyanBold,
    DarkCyan,
    Red,
    RedBold,
    WhiteBold,
}

/// A text with its look.
#[derive(Debug)]
pub struct Span {
    pub text: String,
    pub tone: Tone,
}

/// A text with its look.
pub struct SpanFacts {
    pub text: Seq<char>,
    pub tone: Tone,
}

impl View for Span {
    type V = SpanFacts;

    open spec fn view(&self) -> SpanFacts {
        SpanFacts { text: self.text@, tone: self.tone }
    }
}

/// The texts of a row.
pub open spec fn row_of(v: Seq<Span>) -> Seq<SpanFacts> {
    v.map_values(|s: Span| s@)
}

/// A text with its look.
pub open spec fn styled(text: Seq<char>, tone: Tone) -> SpanFacts {
    SpanFacts { text, tone }
}

/// A text with its look.
pub fn span(s: &str, tone: Tone) -> (r: Span)
    ensures
        r@ == styled(s@, tone),
{
    Span { text: s.to_owned(), tone }
}

/// The cell that shows a certificate's state.
pub open spec fn state_cell(state: Seq<char>) -> SpanFacts {
    if state == "issued"@ {
        styled("● issued"@, Tone::GreenBold)
    } else if state == "ordering"@ {
        styled("● ordering"@, Tone::YellowBold)
    } else if state == "renewing"@ {
        styled("● renewing"@, Tone::CyanBold)
    } else if state == "failed"@ {
        styled("● failed"@, Tone::RedBold)
    } else if state == "pending"@ {
        styled("○ pending"@, Tone::Grey)
    } else {
        styled(state, Tone::Plain)
    }
}

/// Formats a certificate state label into a colored cell.
pub fn styled_state_cell(state: &str) -> (r: Span)
    ensures
        r@ == state_cell(state@),
{
    if text::same(state, "issued") {
        span("● issued", Tone::GreenBold)
    } else if text::same(state, "ordering") {
        span("● ordering", Tone::YellowBold)
    } else if text::same(state, "renewing") {
        span("● renewing", Tone::CyanBold)
    } else if text::same(state, "failed") {
        span("● failed", Tone::RedBold)
    } else if text::same(state, "pending") {
        span("○ pending", Tone::Grey)
    } else {
        span(state, Tone::Plain)
    }
}

/// The cell that shows the days a certificate has left.
pub open spec fn days_cell(not_after: Option<i64>, now: i64) -> SpanFacts {
    match not_after {
        None => styled("-"@, Tone::Grey),
        Some(ts) => if ts <= now {
            styled("expired"@, Tone::Red)
        } else {
            let days = (ts - now) / 86400;
            styled(
                number::decimal(days as nat) + "d"@,
                if days < 10 {
                    Tone::Yellow
                } else {
                    Tone::Green
                },
            )
        },
    }
}

/// Shows the days a certificate has left.
pub fn days_left_cell(not_after: Option<i64>, now: i64) -> (r: Span)
    ensures
        r@ == days_cell(not_after, now),
{
    match not_after {
        None => span("-", Tone::Grey),
        Some(ts) => {
            if ts <= now {
                span("expired", Tone::Red)
            } else {
                let days: u64 = (ts as i128 - now as i128) as u64 / 86400;
                let n = number::decimal_of(days);
                let s = text::cat2(n.as_str(), "d");
                span(
                    s.as_str(),
                    if days < 10 {
                        Tone::Yellow
                    } else {
                        Tone::Green
                    },
                )
            }
        },
    }
}

/// The header of the certificate list.
pub open spec fn list_header(with_ids: bool) -> Seq<Seq<char>> {
    let rest = seq!["NAME"@, "STATE"@, "DAYS-LEFT"@, "ACTIVE"@, "LAST EVENT AGE"@];
    if with_ids {
        seq!["CERT-ID"@] + rest
    } else {
        rest
    }
}

/// The header of the certificate list; certificates are numbered where all of
/// a hostname's are shown.
pub fn cert_list_header(with_ids: bool) -> (v: Vec<&'static str>)
    ensures
        v@.map_values(|s: &'static str| s@) == list_header(with_ids),
{
    let mut v: Vec<&'static str> = Vec::new();
    if with_ids {
        v.push("CERT-ID");
    }
    v.push("NAME");
    v.push("STATE");
    v.push("DAYS-LEFT");
    v.push("ACTIVE");
    v.push("LAST EVENT AGE");
    assert(v@.map_values(|s: &'static str| s@) =~= list_header(with_ids));
    v
}

/// A row of the certificate list. The first row is the root domain's.
pub open spec fn list_row(cert: CertSummary, is_root: bool, with_ids: bool, now: i64) -> Seq<
    SpanFacts,
> {
    let name = if is_root {
        styled("★ "@ + cert.name@, Tone::WhiteBold)
    } else {
        styled("  "@ + cert.name@, Tone::Plain)
    };
    let active = if cert.active {
        styled("✔ yes"@, Tone::Green)
    } else {
        styled("✖ no"@, Tone::Grey)
    };
    let age = match cert.last_event {
        Some(e) => styled(age_text(now as int, e.at as int), Tone::Grey),
        None => styled("-"@, Tone::Grey),
    };
    let rest = seq![name, state_cell(cert.state@), days_cell(cert.not_after, now), active, age];
    if with_ids {
        let id = match cert.cert_id {
            Some(id) => number::signed_decimal(id as int),
            None => "-"@,
        };
        seq![styled(id, Tone::Cyan)] + rest
    } else {
        rest
    }
}

/// A row of the certificate list.
pub fn cert_list_row(cert: &CertSummary, is_root: bool, with_ids: bool, now: i64) -> (v: Vec<Span>)
    ensures
        row_of(v@) == list_row(*cert, is_root, with_ids, now),
{
    let mut v: Vec<Span> = Vec::new();
    if with_ids {
        match cert.cert_id {
            Some(id) => {
                let n = number::signed_decimal_of(id as i64);
                v.push(span(n.as_str(), Tone::Cyan));
            },
            None => v.push(span("-", Tone::Cyan)),
        }
    }
    if is_root {
        let name = text::cat2("★ ", cert.name.as_str());
        v.push(span(name.as_str(), Tone::WhiteBold));
    } else {
        let name = text::cat2("  ", cert.name.as_str());
        v.push(span(name.as_str(), Tone::Plain));
    }
    v.push(styled_state_cell(cert.state.as_str()));
    v.push(days_left_cell(cert.not_after, now));
    v.push(
        if cert.active {
            span("✔ yes", Tone::Green)
        } else {
            span("✖ no", Tone::Grey)
        },
    );
    match &cert.last_event {
        Some(e) => {
            let age = format_age(now, e.at);
            v.push(span(age.as_str(), Tone::Grey));
        },
        None => v.push(span("-", Tone::Grey)),
    }
    assert(row_of(v@) =~= list_row(*cert, is_root, with_ids, now));
    v
}

/// A timestamp in words, or a dash.
pub open spec fn moment(ts: Option<i64>) -> Seq<char> {
    match ts {
        Some(t) => clock::timestamp_text(t as int),
        None => "-"@,
    }
}

fn moment_of(ts: Option<i64>) -> (r: String)
    ensures
        r@ == moment(ts),
{
    match ts {
        Some(t) => clock::format_unix_timestamp(t),
        None => "-".to_owned(),
    }
}

/// A text, or a dash.
pub open spec fn or_dash(s: Option<String>) -> Seq<char> {
    match s {
        Some(t) => t@,
        None => "-"@,
    }
}

fn or_dash_of(s: &Option<String>) -> (r: &str)
    ensures
        r@ == or_dash(*s),
{
    match s {
        Some(t) => t.as_str(),
        None => "-",
    }
}

/// The cell that shows until when a certificate is valid.
pub open spec fn until_cell(not_after: Option<i64>, now: i64) -> SpanFacts {
    match not_after {
        None => styled("-"@, Tone::Grey),
        Some(ts) => if ts > now {
            styled(
                clock::timestamp_text(ts as int) + " ("@ + number::decimal(
                    ((ts - now) / 86400) as nat,
                ) + " days remaining)"@,
                Tone::Green,
            )
        } else {
            styled(clock::timestamp_text(ts as int) + " (expired)"@, Tone::Red)
        },
    }
}

fn valid_until_cell(not_after: Option<i64>, now: i64) -> (r: Span)
    ensures
        r@ == until_cell(not_after, now),
{
    match not_after {
        None => span("-", Tone::Grey),
        Some(ts) => {
            let formatted = clock::format_unix_timestamp(ts);
            if ts > now {
                let days: u64 = (ts as i128 - now as i128) as u64 / 86400;
                let n = number::decimal_of(days);
                let s = text::cat4(formatted.as_str(), " (", n.as_str(), " days remaining)");
                span(s.as_str(), Tone::Green)
            } else {
                let s = text::cat2(formatted.as_str(), " (expired)");
                span(s.as_str(), Tone::Red)
            }
        },
    }
}

/// The rows of the view of one certificate: a property and its value.
pub open spec fn detail_view(d: CertDetailResponse, now: i64) -> Seq<(Seq<char>, SpanFacts)> {
    let active = if d.active {
        styled("✔ yes"@, Tone::GreenBold)
    } else {
        styled("✖ no"@, Tone::Grey)
    };
    let rows = seq![
        ("State"@, state_cell(d.state@.label())),
        ("Active"@, active),
        ("Provider"@, styled(d.provider@, Tone::Plain)),
        ("Issuer"@, styled(or_dash(d.issuer), Tone::Plain)),
        ("Valid From"@, styled(moment(d.not_before), Tone::Plain)),
        ("Valid Until"@, until_cell(d.not_after, now)),
        ("Last Active"@, styled(moment(d.last_active_at), Tone::Plain)),
    ];
    match d.cert_id {
        Some(id) => rows.push(
            ("Certificate ID"@, styled(number::signed_decimal(id as int), Tone::Plain)),
        ),
        None => rows,
    }
}

/// The rows of a property list.
pub open spec fn properties(v: Seq<(&'static str, Span)>) -> Seq<(Seq<char>, SpanFacts)> {
    v.map_values(|p: (&'static str, Span)| (p.0@, p.1@))
}

/// The rows of the view of one certificate.
pub fn cert_detail_rows(d: &CertDetailResponse, now: i64) -> (v: Vec<(&'static str, Span)>)
    ensures
        properties(v@) == detail_view(*d, now),
{
    let mut v: Vec<(&'static str, Span)> = Vec::new();
    v.push(("State", styled_state_cell(d.state.label())));
    v.push(
        (
            "Active",
            if d.active {
                span("✔ yes", Tone::GreenBold)
            } else {
                span("✖ no", Tone::Grey)
            },
        ),
    );
    v.push(("Provider", span(d.provider.as_str(), Tone::Plain)));
    v.push(("Issuer", span(or_dash_of(&d.issuer), Tone::Plain)));
    let from = moment_of(d.not_before);
    v.push(("Valid From", span(from.as_str(), Tone::Plain)));
    v.push(("Valid Until", valid_until_cell(d.not_after, now)));
    let last = moment_of(d.last_active_at);
    v.push(("Last Active", span(last.as_str(), Tone::Plain)));
    if let Some(id) = d.cert_id {
        let n = number::signed_decimal_of(id as i64);
        v.push(("Certificate ID", span(n.as_str(), Tone::Plain)));
    }
    assert(properties(v@) =~= detail_view(*d, now));
    v
}

/// The row of a lifecycle event: when, what, and its detail.
pub open spec fn event_view(e: CertEventSummary) -> Seq<SpanFacts> {
    let tone = if e.kind@ == "issued"@ || e.kind@ == "renewed"@ {
        Tone::GreenBold
    } else if e.kind@ == "failed"@ {
        Tone::RedBold
    } else {
        Tone::Yellow
    };
    seq![
        styled(clock::timestamp_text(e.at as int), Tone::Plain),
        styled("● "@ + e.kind@, tone),
        styled(or_dash(e.detail), Tone::Plain),
    ]
}

/// The row of a lifecycle event.
pub fn event_row(e: &CertEventSummary) -> (v: Vec<Span>)
    ensures
        row_of(v@) == event_view(*e),
{
    let tone = if text::same(e.kind.as_str(), "issued") || text::same(e.kind.as_str(), "renewed") {
        Tone::GreenBold
    } else if text::same(e.kind.as_str(), "failed") {
        Tone::RedBold
    } else {
        Tone::Yellow
    };
    let at = clock::format_unix_timestamp(e.at);
    let kind = text::cat2("● ", e.kind.as_str());
    let mut v: Vec<Span> = Vec::new();
    v.push(span(at.as_str(), Tone::Plain));
    v.push(span(kind.as_str(), tone));
    v.push(span(or_dash_of(&e.detail), Tone::Plain));
    assert(row_of(v@) =~= event_view(*e));
    v
}

/// The lines of a view.
pub open spec fn lines_of(v: Seq<Vec<Span>>) -> Seq<Seq<SpanFacts>> {
    v.map_values(|l: Vec<Span>| row_of(l@))
}

/// A line with a label in front of a value.
pub open spec fn labelled(label: Seq<char>, value: SpanFacts) -> Seq<SpanFacts> {
    seq![
        styled("  "@, Tone::Plain),
        styled(label, Tone::Grey),
        styled(" "@, Tone::Plain),
        value,
    ]
}

/// A line with a label in front of a value.
pub fn labelled_line(label: &str, value: Span) -> (v: Vec<Span>)
    ensures
        row_of(v@) == labelled(label@, value@),
{
    let mut v: Vec<Span> = Vec::new();
    v.push(span("  ", Tone::Plain));
    v.push(span(label, Tone::Grey));
    v.push(span(" ", Tone::Plain));
    v.push(value);
    assert(row_of(v@) =~= labelled(label@, value@));
    v
}

/// A line with one text.
pub open spec fn single(value: SpanFacts) -> Seq<SpanFacts> {
    seq![value]
}

/// A line with one text.
pub fn single_line(value: Span) -> (v: Vec<Span>)
    ensures
        row_of(v@) == single(value@),
{
    let mut v: Vec<Span> = Vec::new();
    v.push(value);
    assert(row_of(v@) =~= single(value@));
    v
}

/// The state of the root certificate in the status view.
pub open spec fn root_cell(state: Seq<char>) -> SpanFacts {
    if state == "issued"@ {
        styled("● issued (valid)"@, Tone::GreenBold)
    } else if state == "ordering"@ {
        styled("● ordering"@, Tone::YellowBold)
    } else if state == "renewing"@ {
        styled("● renewing"@, Tone::CyanBold)
    } else if state == "failed"@ {
        styled("● failed"@, Tone::RedBold)
    } else {
        styled("○ "@ + state, Tone::Plain)
    }
}

fn root_state_cell(state: &str) -> (r: Span)
    ensures
        r@ == root_cell(state@),
{
    if text::same(state, "issued") {
        span("● issued (valid)", Tone::GreenBold)
    } else if text::same(state, "ordering") {
        span("● ordering", Tone::YellowBold)
    } else if text::same(state, "renewing") {
        span("● renewing", Tone::CyanBold)
    } else if text::same(state, "failed") {
        span("● failed", Tone::RedBold)
    } else {
        let s = text::cat2("○ ", state);
        span(s.as_str(), Tone::Plain)
    }
}

/// The title of the status view.
pub open spec fn status_title(r: StatusResponse, protocol: u32) -> Seq<SpanFacts> {
    seq![
        styled("Weaver Server Status"@, Tone::CyanBold),
        styled(" "@, Tone::Plain),
        styled("—"@, Tone::Grey),
        styled(" "@, Tone::Plain),
        styled(
            "v"@ + r.version@ + " (protocol v"@ + number::decimal(protocol as nat) + ")"@,
            Tone::White,
        ),
        styled(" "@, Tone::Plain),
        styled("•"@, Tone::Grey),
        styled(" "@, Tone::Plain),
        styled("PID "@ + number::decimal(r.pid as nat), Tone::Grey),
    ]
}

fn status_title_line(r: &StatusResponse, protocol: u32) -> (v: Vec<Span>)
    ensures
        row_of(v@) == status_title(*r, protocol),
{
    let p = number::decimal_of(protocol as u64);
    let version = text::cat5("v", r.version.as_str(), " (protocol v", p.as_str(), ")");
    let n = number::decimal_of(r.pid as u64);
    let pid = text::cat2("PID ", n.as_str());
    let mut v: Vec<Span> = Vec::new();
    v.push(span("Weaver Server Status", Tone::CyanBold));
    v.push(span(" ", Tone::Plain));
    v.push(span("—", Tone::Grey));
    v.push(span(" ", Tone::Plain));
    v.push(span(version.as_str(), Tone::White));
    v.push(span(" ", Tone::Plain));
    v.push(span("•", Tone::Grey));
    v.push(span(" ", Tone::Plain));
    v.push(span(pid.as_str(), Tone::Grey));
    assert(row_of(v@) =~= status_title(*r, protocol));
    v
}

/// The line that counts certificates in the status view.
pub open spec fn inventory(r: StatusResponse) -> Seq<SpanFacts> {
    labelled(
        "Inventory:"@,
        styled(number::decimal(r.cert_counts.issued as nat), Tone::GreenBold),
    ) + seq![
        styled(" issued  •  "@, Tone::Plain),
        styled(number::decimal(r.cert_counts.ordering as nat), Tone::Yellow),
        styled(" ordering  •  "@, Tone::Plain),
        styled(number::decimal(r.cert_counts.failed as nat), Tone::Red),
        styled(" failed  •  "@, Tone::Plain),
        styled(number::decimal(r.cert_counts.inactive as nat), Tone::Grey),
        styled(" inactive"@, Tone::Plain),
    ]
}

fn inventory_line(r: &StatusResponse) -> (v: Vec<Span>)
    ensures
        row_of(v@) == inventory(*r),
{
    let issued = number::decimal_of(r.cert_counts.issued as u64);
    let ordering = number::decimal_of(r.cert_counts.ordering as u64);
    let failed = number::decimal_of(r.cert_counts.failed as u64);
    let inactive = number::decimal_of(r.cert_counts.inactive as u64);
    let mut v = labelled_line("Inventory:", span(issued.as_str(), Tone::GreenBold));
    let ghost first = v@;
    let ghost start = row_of(v@);
    v.push(span(" issued  •  ", Tone::Plain));
    v.push(span(ordering.as_str(), Tone::Yellow));
    v.push(span(" ordering  •  ", Tone::Plain));
    v.push(span(failed.as_str(), Tone::Red));
    v.push(span(" failed  •  ", Tone::Plain));
    v.push(span(inactive.as_str(), Tone::Grey));
    v.push(span(" inactive", Tone::Plain));
    proof {
        assert(start.len() == 4 && first.len() == 4);
        assert(v@.len() == 11);
        assert forall|i: int| 0 <= i < 4 implies #[trigger] row_of(v@)[i] == start[i] by {
            assert(v@[i] == first[i]);
        }
        assert(row_of(v@).subrange(0, 4) =~= start);
    }
    assert(row_of(v@) =~= inventory(*r));
    v
}

/// The lines of the status view, blank lines between its sections.
pub open spec fn status_view(r: StatusResponse, protocol: u32) -> Seq<Seq<SpanFacts>> {
    let endpoints = seq![
        single(styled("Endpoints"@, Tone::WhiteBold)),
        labelled("Root Domain:"@, styled(r.root_domain@, Tone::Bold)),
        labelled("HTTP:"@, styled(r.listeners.http@, Tone::Plain)),
        labelled("HTTPS:"@, styled(r.listeners.https@, Tone::Plain)),
    ];
    let control = if r.control_socket@.len() == 0 {
        seq![]
    } else {
        seq![labelled("Control:"@, styled(r.control_socket@, Tone::Plain))]
    };
    seq![
        status_title(r, protocol),
        labelled("Uptime:"@, styled(uptime_text(r.uptime as nat), Tone::Plain)),
        seq![],
    ] + endpoints + control + seq![
        seq![],
        single(styled("Certificates"@, Tone::WhiteBold)),
        labelled("Root:"@, root_cell(r.root_cert@)),
        inventory(r),
        seq![],
        single(styled("Storage"@, Tone::WhiteBold)),
        labelled(
            "Database:"@,
            styled(r.db_path@ + " ("@ + bytes_text(r.db_size as nat) + ")"@, Tone::Plain),
        ),
        labelled("Schema:"@, styled("v"@ + number::decimal(r.schema_version as nat), Tone::Plain)),
    ]
}

/// The lines of the status view.
pub fn status_lines(r: &StatusResponse, protocol: u32) -> (v: Vec<Vec<Span>>)
    ensures
        lines_of(v@) == status_view(*r, protocol),
{
    let uptime = format_uptime(r.uptime);
    let size = format_bytes(r.db_size);
    let db = text::cat4(r.db_path.as_str(), " (", size.as_str(), ")");
    let n = number::decimal_of(r.schema_version as u64);
    let schema = text::cat2("v", n.as_str());
    let mut v: Vec<Vec<Span>> = Vec::new();
    v.push(status_title_line(r, protocol));
    v.push(labelled_line("Uptime:", span(uptime.as_str(), Tone::Plain)));
    v.push(Vec::new());
    v.push(single_line(span("Endpoints", Tone::WhiteBold)));
    v.push(labelled_line("Root Domain:", span(r.root_domain.as_str(), Tone::Bold)));
    v.push(labelled_line("HTTP:", span(r.listeners.http.as_str(), Tone::Plain)));
    v.push(labelled_line("HTTPS:", span(r.listeners.https.as_str(), Tone::Plain)));
    if !text::is_blank(r.control_socket.as_str()) {
        v.push(labelled_line("Control:", span(r.control_socket.as_str(), Tone::Plain)));
    }
    v.push(Vec::new());
    v.push(single_line(span("Certificates", Tone::WhiteBold)));
    v.push(labelled_line("Root:", root_state_cell(r.root_cert.as_str())));
    v.push(inventory_line(r));
    v.push(Vec::new());
    v.push(single_line(span("Storage", Tone::WhiteBold)));
    v.push(labelled_line("Database:", span(db.as_str(), Tone::Plain)));
    v.push(labelled_line("Schema:", span(schema.as_str(), Tone::Plain)));
    proof {
        assert(row_of(Seq::<Span>::empty()) =~= Seq::<SpanFacts>::empty());
        assert(lines_of(v@) =~= status_view(*r, protocol));
    }
    v
}

/// The exit code for an answer that is shown as it came: failure where it is
/// no JSON or says that it is not ok.
pub open spec fn raw_exit_code(doc: Result<DocumentFacts, Seq<char>>) -> i32 {
    match doc {
        Err(_) => 1,
        Ok(d) => if d.member("ok"@) == Some(JsonFacts::Bool(false)) {
            1
        } else {
            0
        },
    }
}

fn says_not_ok(doc: &JsonDocument) -> (r: bool)
    ensures
        r == (doc@.member("ok"@) == Some(JsonFacts::Bool(false))),
{
    match doc.member("ok") {
        Some(JsonKind::Bool(b)) => !*b,
        _ => false,
    }
}

/// The exit code for an answer that is shown as it came.
pub fn exit_code_of(doc: &Result<JsonDocument, String>) -> (r: i32)
    ensures
        r == raw_exit_code(json::document(*doc)),
{
    match doc {
        Err(_) => 1,
        Ok(d) => if says_not_ok(d) {
            1
        } else {
            0
        },
    }
}

/// The exit code for a line that is shown as it came.
pub fn raw_answer(trimmed: &str) -> (r: i32)
    ensures
        r == raw_exit_code(json::parsed_json(trimmed@)),
{
    let doc = json::parse_json(trimmed);
    exit_code_of(&doc)
}

/// The text of a member, if it is one.
pub open spec fn text_member(d: DocumentFacts, name: Seq<char>) -> Option<Seq<char>> {
    match d.member(name) {
        Some(JsonFacts::Text(s)) => Some(s),
        _ => None,
    }
}

fn text_of<'a>(doc: &'a JsonDocument, name: &str) -> (r: Option<&'a str>)
    ensures
        (match r {
            Some(s) => Some(s@),
            None => None,
        }) == text_member(doc@, name@),
{
    match doc.member(name) {
        Some(JsonKind::Text(s)) => Some(s.as_str()),
        _ => None,
    }
}

/// What is shown of an answer that is not the expected one: its error message,
/// else the answer itself.
pub open spec fn shown_error(trimmed: Seq<char>, doc: Result<DocumentFacts, Seq<char>>) -> Seq<
    char,
> {
    match doc {
        Ok(d) => match text_member(d, "error"@) {
            Some(e) => e,
            None => trimmed,
        },
        Err(_) => trimmed,
    }
}

/// Picks what is shown of an answer that is not the expected one.
pub fn error_in(trimmed: &str, doc: &Result<JsonDocument, String>) -> (r: String)
    ensures
        r@ == shown_error(trimmed@, json::document(*doc)),
{
    match doc {
        Ok(d) => match text_of(d, "error") {
            Some(e) => e.to_owned(),
            None => trimmed.to_owned(),
        },
        Err(_) => trimmed.to_owned(),
    }
}

/// What is shown of an answer that is not the expected one.
pub fn unexpected_answer(trimmed: &str) -> (r: String)
    ensures
        r@ == shown_error(trimmed@, json::parsed_json(trimmed@)),
{
    let doc = json::parse_json(trimmed);
    error_in(trimmed, &doc)
}

/// What a line of the stream of `cert.wait` leads to.
#[derive(Debug)]
pub struct WaitLine {
    /// What is shown on standard output.
    pub shown: Option<Vec<Span>>,
    /// What is shown as an error.
    pub error: Option<String>,
    /// The exit code, where the wait is over.
    pub exit: Option<i32>,
}

/// What a line leads to, as text.
pub struct WaitFacts {
    pub shown: Option<Seq<SpanFacts>>,
    pub error: Option<Seq<char>>,
    pub exit: Option<i32>,
}

impl View for WaitLine {
    type V = WaitFacts;

    open spec fn view(&self) -> WaitFacts {
        WaitFacts {
            shown: match self.shown {
                Some(l) => Some(row_of(l@)),
                None => None,
            },
            error: text::opt(self.error),
            exit: self.exit,
        }
    }
}

/// A line that reports a state.
pub open spec fn state_line(name: Seq<char>, state: Seq<char>) -> Seq<SpanFacts> {
    let (mark, mark_tone, word, word_tone) = if state == "issued"@ {
        ("✓"@, Tone::GreenBold, "issued (valid)"@, Tone::GreenBold)
    } else if state == "failed"@ {
        ("✗"@, Tone::RedBold, "failed"@, Tone::RedBold)
    } else if state == "ordering"@ {
        ("●"@, Tone::Yellow, "ordering..."@, Tone::Yellow)
    } else if state == "renewing"@ {
        ("●"@, Tone::Cyan, "renewing..."@, Tone::Cyan)
    } else {
        ("●"@, Tone::Plain, state, Tone::Plain)
    };
    seq![
        styled(mark, mark_tone),
        styled(" Certificate '"@, Tone::Plain),
        styled(name, Tone::CyanBold),
        styled("' -> "@, Tone::Plain),
        styled(word, word_tone),
    ]
}

fn state_spans(name: &str, state: &str) -> (v: Vec<Span>)
    ensures
        row_of(v@) == state_line(name@, state@),
{
    let (mark, mark_tone, word, word_tone) = if text::same(state, "issued") {
        ("✓", Tone::GreenBold, "issued (valid)", Tone::GreenBold)
    } else if text::same(state, "failed") {
        ("✗", Tone::RedBold, "failed", Tone::RedBold)
    } else if text::same(state, "ordering") {
        ("●", Tone::Yellow, "ordering...", Tone::Yellow)
    } else if text::same(state, "renewing") {
        ("●", Tone::Cyan, "renewing...", Tone::Cyan)
    } else {
        ("●", Tone::Plain, state, Tone::Plain)
    };
    let mut v: Vec<Span> = Vec::new();
    v.push(span(mark, mark_tone));
    v.push(span(" Certificate '", Tone::Plain));
    v.push(span(name, Tone::CyanBold));
    v.push(span("' -> ", Tone::Plain));
    v.push(span(word, word_tone));
    assert(row_of(v@) =~= state_line(name@, state@));
    v
}

/// What a document of the stream leads to: an issued certificate ends the wait
/// with success, a failed one with code 4, an error with code 1. Nothing is
/// shown where the lines are shown as they came.
pub open spec fn wait_verdict(doc: Result<DocumentFacts, Seq<char>>, raw: bool) -> WaitFacts {
    match doc {
        Err(_) => WaitFacts { shown: None, error: None, exit: None },
        Ok(d) => match text_member(d, "state"@) {
            Some(state) => {
                let name = match text_member(d, "name"@) {
                    Some(n) => n,
                    None => ""@,
                };
                WaitFacts {
                    shown: if raw {
                        None
                    } else {
                        Some(state_line(name, state))
                    },
                    error: if !raw && state == "failed"@ {
                        match text_member(d, "error"@) {
                            Some(e) => Some("Issuance failed: "@ + e),
                            None => None,
                        }
                    } else {
                        None
                    },
                    exit: if state == "issued"@ {
                        Some(0)
                    } else if state == "failed"@ {
                        Some(4)
                    } else {
                        None
                    },
                }
            },
            None => if d.member("ok"@) == Some(JsonFacts::Bool(false)) {
                WaitFacts {
                    shown: None,
                    error: if raw {
                        None
                    } else {
                        match text_member(d, "error"@) {
                            Some(e) => Some(e),
                            None => Some("Wait error"@),
                        }
                    },
                    exit: Some(1),
                }
            } else {
                WaitFacts { shown: None, error: None, exit: None }
            },
        },
    }
}

/// Decides what a document of the stream leads to.
pub fn wait_step(doc: &Result<JsonDocument, String>, raw: bool) -> (r: WaitLine)
    ensures
        r@ == wait_verdict(json::document(*doc), raw),
{
    let doc = match doc {
        Ok(d) => d,
        Err(_) => return WaitLine { shown: None, error: None, exit: None },
    };
    match text_of(doc, "state") {
        Some(state) => {
            let name: &str = match text_of(doc, "name") {
                Some(n) => n,
                None => "",
            };
            let failed = text::same(state, "failed");
            let exit: Option<i32> = if text::same(state, "issued") {
                Some(0)
            } else if failed {
                Some(4)
            } else {
                None
            };
            let error = if !raw && failed {
                match text_of(doc, "error") {
                    Some(e) => Some(text::cat2("Issuance failed: ", e)),
                    None => None,
                }
            } else {
                None
            };
            WaitLine {
                shown: if raw {
                    None
                } else {
                    Some(state_spans(name, state))
                },
                error,
                exit,
            }
        },
        None => if says_not_ok(doc) {
            let message: &str = match text_of(doc, "error") {
                Some(e) => e,
                None => "Wait error",
            };
            WaitLine {
                shown: None,
                error: if raw {
                    None
                } else {
                    Some(message.to_owned())
                },
                exit: Some(1),
            }
        } else {
            WaitLine { shown: None, error: None, exit: None }
        },
    }
}

/// Decides what a line of the stream leads to.
pub fn wait_line(trimmed: &str, raw: bool) -> (r: WaitLine)
    ensures
        r@ == wait_verdict(json::parsed_json(trimmed@), raw),
{
    let doc = json::parse_json(trimmed);
    wait_step(&doc, raw)
}

/// What reading the stream of `cert.wait` gave.
#[derive(Debug)]
pub enum WaitRead {
    /// The stream has ended.
    End,
    /// A line.
    Line(String),
    /// Reading failed.
    Failed(String),
}

/// What reading the stream leads to: its end ends the wait with success, a
/// failure with code 1; a blank line is skipped.
pub open spec fn wait_read_verdict(read: WaitRead, raw: bool) -> WaitFacts {
    match read {
        WaitRead::End => WaitFacts { shown: None, error: None, exit: Some(0) },
        WaitRead::Failed(e) => WaitFacts {
            shown: None,
            error: Some("Failed reading from control socket: "@ + e@),
            exit: Some(1),
        },
        WaitRead::Line(line) => if text::trimmed(line@).len() == 0 {
            WaitFacts { shown: None, error: None, exit: None }
        } else {
            wait_verdict(json::parsed_json(text::trimmed(line@)), raw)
        },
    }
}

/// Decides what reading the stream leads to.
pub fn wait_read(read: &WaitRead, raw: bool) -> (r: WaitLine)
    ensures
        r@ == wait_read_verdict(*read, raw),
{
    match read {
        WaitRead::End => WaitLine { shown: None, error: None, exit: Some(0) },
        WaitRead::Failed(e) => WaitLine {
            shown: None,
            error: Some(text::cat2("Failed reading from control socket: ", e.as_str())),
            exit: Some(1),
        },
        WaitRead::Line(line) => {
            let trimmed = text::trim(line.as_str());
            if text::is_blank(trimmed) {
                WaitLine { shown: None, error: None, exit: None }
            } else {
                wait_line(trimmed, raw)
            }
        },
    }
}

/// The texts among the items of an array.
pub open spec fn text_items(items: Seq<Option<Seq<char>>>) -> Seq<Seq<char>>
    decreases items.len(),
{
    if items.len() == 0 {
        Seq::empty()
    } else {
        match items.last() {
            Some(s) => text_items(items.drop_last()).push(s),
            None => text_items(items.drop_last()),
        }
    }
}

/// The hostnames that an answer to `cert.renew` says are renewed.
pub open spec fn renewed_in(doc: Result<DocumentFacts, Seq<char>>) -> Seq<Seq<char>> {
    match doc {
        Ok(d) => match d.member("renewed"@) {
            Some(JsonFacts::Array(items)) => text_items(items),
            _ => Seq::empty(),
        },
        Err(_) => Seq::empty(),
    }
}

/// The hostnames that an answer to `cert.renew` says are renewed.
pub fn renewed_hosts(doc: &Result<JsonDocument, String>) -> (r: Vec<String>)
    ensures
        text::texts(r@) == renewed_in(json::document(*doc)),
{
    let mut r: Vec<String> = Vec::new();
    assert(text::texts(r@) =~= Seq::<Seq<char>>::empty());
    if let Ok(d) = doc {
        if let Some(JsonKind::Array(items)) = d.member("renewed") {
            let ghost all = items@.map_values(|o: Option<String>| text::opt(o));
            let mut i: usize = 0;
            while i < items.len()
                invariant
                    i <= items@.len(),
                    all == items@.map_values(|o: Option<String>| text::opt(o)),
                    text::texts(r@) == text_items(all.take(i as int)),
                decreases items@.len() - i,
            {
                let ghost done = text::texts(r@);
                assert(all.take(i + 1).drop_last() == all.take(i as int));
                assert(all.take(i + 1).last() == text::opt(items@[i as int]));
                if let Some(s) = &items[i] {
                    r.push(s.clone());
                    assert(text::texts(r@) =~= done.push(s@));
                }
                i += 1;
            }
            assert(all.take(all.len() as int) == all);
        }
    }
    r
}

/// What follows an answer to `cert.renew` that is shown as it came: the exit
/// code, and the hostnames to wait for.
pub fn raw_renewal(trimmed: &str, wait: bool) -> (r: (i32, Vec<String>))
    ensures
        r.0 == raw_exit_code(json::parsed_json(trimmed@)),
        text::texts(r.1@) == (if wait && r.0 == 0 {
            renewed_in(json::parsed_json(trimmed@))
        } else {
            Seq::empty()
        }),
{
    let doc = json::parse_json(trimmed);
    let code: i32 = exit_code_of(&doc);
    if wait && code == 0 {
        (code, renewed_hosts(&doc))
    } else {
        let none: Vec<String> = Vec::new();
        assert(text::texts(none@) =~= Seq::<Seq<char>>::empty());
        (code, none)
    }
}

/// The lines that show a queued renewal.
pub open spec fn renewal_view(r: RenewResponse) -> Seq<Seq<SpanFacts>> {
    let head = seq![
        seq![
            styled("✓"@, Tone::GreenBold),
            styled(" Certificate renewal queued"@, Tone::Plain),
        ],
        labelled(
            "Target:"@,
            styled(config::joined(text::texts(r.renewed@), ", "@), Tone::CyanBold),
        ),
    ];
    if r.skipped_inactive@.len() == 0 {
        head
    } else {
        head.push(
            labelled(
                "Skipped:"@,
                styled(config::joined(text::texts(r.skipped_inactive@), ", "@), Tone::Grey),
            ).push(styled(" (inactive)"@, Tone::Plain)),
        )
    }
}

/// The lines that show a queued renewal.
pub fn renewal_lines(r: &RenewResponse) -> (v: Vec<Vec<Span>>)
    ensures
        lines_of(v@) == renewal_view(*r),
{
    let mut v: Vec<Vec<Span>> = Vec::new();
    let mut head: Vec<Span> = Vec::new();
    head.push(span("✓", Tone::GreenBold));
    head.push(span(" Certificate renewal queued", Tone::Plain));
    assert(row_of(head@) =~= seq![
        styled("✓"@, Tone::GreenBold),
        styled(" Certificate renewal queued"@, Tone::Plain),
    ]);
    v.push(head);
    let renewed = config::join(&r.renewed, ", ");
    v.push(labelled_line("Target:", span(renewed.as_str(), Tone::CyanBold)));
    if r.skipped_inactive.len() > 0 {
        let skipped = config::join(&r.skipped_inactive, ", ");
        let mut line = labelled_line("Skipped:", span(skipped.as_str(), Tone::Grey));
        let ghost start = row_of(line@);
        line.push(span(" (inactive)", Tone::Plain));
        assert(row_of(line@) =~= start.push(styled(" (inactive)"@, Tone::Plain)));
        v.push(line);
    }
    assert(lines_of(v@) =~= renewal_view(*r));
    v
}

/// The lines that show a backup.
pub open spec fn backup_view(r: BackupResponse) -> Seq<Seq<SpanFacts>> {
    seq![
        seq![
            styled("✓"@, Tone::GreenBold),
            styled(" Database backup created"@, Tone::Plain),
        ],
        labelled("Destination:"@, styled(r.path@, Tone::Bold)),
        labelled("File Size:"@, styled(bytes_text(r.size as nat), Tone::Plain)),
    ]
}

/// The lines that show a backup.
pub fn backup_lines(r: &BackupResponse) -> (v: Vec<Vec<Span>>)
    ensures
        lines_of(v@) == backup_view(*r),
{
    let mut v: Vec<Vec<Span>> = Vec::new();
    let mut head: Vec<Span> = Vec::new();
    head.push(span("✓", Tone::GreenBold));
    head.push(span(" Database backup created", Tone::Plain));
    assert(row_of(head@) =~= seq![
        styled("✓"@, Tone::GreenBold),
        styled(" Database backup created"@, Tone::Plain),
    ]);
    v.push(head);
    v.push(labelled_line("Destination:", span(r.path.as_str(), Tone::Bold)));
    let size = format_bytes(r.size);
    v.push(labelled_line("File Size:", span(size.as_str(), Tone::Plain)));
    assert(lines_of(v@) =~= backup_view(*r));
    v
}

/// A request with nothing but its verb.
pub fn request(cmd: &str) -> (r: ControlRequest)
    ensures
        r.v == 1,
        r.cmd@ == cmd@,
        r.name is None,
        r.limit is None,
        r.timeout_s is None,
        r.all is None,
        r.force is None,
        r.path is None,
        r.no_only_best is None,
{
    ControlRequest {
        v: 1,
        cmd: cmd.to_owned(),
        name: None,
        limit: None,
        timeout_s: None,
        all: None,
        force: None,
        path: None,
        no_only_best: None,
    }
}

/// A flag that is sent only where it is set.
pub open spec fn flag(b: bool) -> Option<bool> {
    if b {
        Some(true)
    } else {
        None
    }
}

/// The request `cert.status`.
pub fn cert_status_request(name: Option<String>, limit: Option<usize>, no_only_best: bool) -> (r:
    ControlRequest)
    ensures
        r.v == 1,
        r.cmd@ == "cert.status"@,
        r.name == name,
        r.limit == limit,
        r.timeout_s is None,
        r.all is None,
        r.force is None,
        r.path is None,
        r.no_only_best == flag(no_only_best),
{
    let mut r = request("cert.status");
    r.name = name;
    r.limit = limit;
    r.no_only_best = if no_only_best {
        Some(true)
    } else {
        None
    };
    r
}

/// The request `cert.wait`.
pub fn cert_wait_request(name: Option<String>, timeout_s: Option<u64>) -> (r: ControlRequest)
    ensures
        r.v == 1,
        r.cmd@ == "cert.wait"@,
        r.name == name,
        r.limit is None,
        r.timeout_s == timeout_s,
        r.all is None,
        r.force is None,
        r.path is None,
        r.no_only_best is None,
{
    let mut r = request("cert.wait");
    r.name = name;
    r.timeout_s = timeout_s;
    r
}

/// The request `cert.renew`.
pub fn cert_renew_request(name: Option<String>, all: bool, force: bool) -> (r: ControlRequest)
    ensures
        r.v == 1,
        r.cmd@ == "cert.renew"@,
        r.name == name,
        r.limit is None,
        r.timeout_s is None,
        r.all == flag(all),
        r.force == flag(force),
        r.path is None,
        r.no_only_best is None,
{
    let mut r = request("cert.renew");
    r.name = name;
    r.all = if all {
        Some(true)
    } else {
        None
    };
    r.force = if force {
        Some(true)
    } else {
        None
    };
    r
}

/// The request `backup`.
pub fn backup_request(path: String) -> (r: ControlRequest)
    ensures
        r.v == 1,
        r.cmd@ == "backup"@,
        r.name is None,
        r.limit is None,
        r.timeout_s is None,
        r.all is None,
        r.force is None,
        r.path == Some(path),
        r.no_only_best is None,
{
    let mut r = request("backup");
    r.path = Some(path);
    r
}

/// Why the control socket could not be reached.
#[derive(Debug)]
pub enum ConnectFailure {
    /// Nobody listens there.
    Unreachable,
    PermissionDenied,
    Other(String),
}

/// What is shown where the control socket could not be reached, and the exit
/// code: 3 where nobody listens, else 1.
pub fn connect_failure(failure: &ConnectFailure, path: &str) -> (r: (Vec<String>, i32))
    ensures
        match *failure {
            ConnectFailure::Unreachable => text::texts(r.0@) == seq![
                "Error: Cannot connect to control socket at "@ + path@,
                "Hint: systemctl status weaver-server"@,
            ] && r.1 == 3,
            ConnectFailure::PermissionDenied => text::texts(r.0@) == seq![
                "Error: Permission denied connecting to control socket at "@ + path@,
                "Hint: run with sudo or join group 'weaver'"@,
            ] && r.1 == 1,
            ConnectFailure::Other(e) => text::texts(r.0@) == seq![
                "Error: Failed to connect to control socket at "@ + path@ + ": "@ + e@,
            ] && r.1 == 1,
        },
{
    let mut lines: Vec<String> = Vec::new();
    match failure {
        ConnectFailure::Unreachable => {
            lines.push(text::cat2("Error: Cannot connect to control socket at ", path));
            lines.push("Hint: systemctl status weaver-server".to_owned());
            assert(text::texts(lines@) =~= seq![
                "Error: Cannot connect to control socket at "@ + path@,
                "Hint: systemctl status weaver-server"@,
            ]);
            (lines, 3)
        },
        ConnectFailure::PermissionDenied => {
            lines.push(
                text::cat2("Error: Permission denied connecting to control socket at ", path),
            );
            lines.push("Hint: run with sudo or join group 'weaver'".to_owned());
            assert(text::texts(lines@) =~= seq![
                "Error: Permission denied connecting to control socket at "@ + path@,
                "Hint: run with sudo or join group 'weaver'"@,
            ]);
            (lines, 1)
        },
        ConnectFailure::Other(e) => {
            lines.push(
                text::cat4(
                    "Error: Failed to connect to control socket at ",
                    path,
                    ": ",
                    e.as_str(),
                ),
            );
            assert(text::texts(lines@) =~= seq![
                "Error: Failed to connect to control socket at "@ + path@ + ": "@ + e@,
            ]);
            (lines, 1)
        },
    }
}

/// Client and server end a wait together: an event ends it for the client
/// exactly where it is the last that the server sends.
pub proof fn wait_ends_on_both_sides(s: crate::cert::state::StateFacts, d: DocumentFacts, raw: bool)
    requires
        text_member(d, "state"@) == Some(s.label()),
    ensures
        wait_verdict(Ok(d), raw).exit is Some == super::server::is_terminal(s),
        wait_verdict(Ok(d), raw).exit == Some(0i32) <==> s is Issued,
{
    reveal_strlit("issued");
    reveal_strlit("failed");
    reveal_strlit("pending");
    reveal_strlit("ordering");
    reveal_strlit("renewing");
    assert("issued"@[0] == 'i' && "failed"@[0] == 'f' && "pending"@[0] == 'p' && "ordering"@[0]
        == 'o' && "renewing"@[0] == 'r');
}

} // verus!
