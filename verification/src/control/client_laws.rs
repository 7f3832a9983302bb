//! What the command line shows of the server's answers.
use super::client::{
    self, backup_lines, backup_request, cert_detail_rows, cert_list_header, cert_list_row,
    cert_renew_request, cert_status_request, cert_wait_request, connect_failure, days_left_cell,
    error_in, event_row, exit_code_of, format_age, format_bytes, format_uptime, raw_answer,
    raw_renewal, renewal_lines, renewed_hosts, request, status_lines, styled_state_cell,
    unexpected_answer, wait_line, wait_read, wait_step, ConnectFailure, Span, Tone, WaitLine,
    WaitRead,
};
use super::protocol::{
    BackupResponse, CertDetailResponse, CertEventSummary, CertSummary, ControlRequest,
    RenewResponse, StatusResponse,
};
use crate::cert::clock;
use crate::cert::state::CertState;
use crate::config;
use crate::json::{self, DocumentFacts, JsonDocument, JsonFacts};
use crate::number;
use crate::text;
use vstd::prelude::*;

verus! {

/// The number is the nearest whole number of tenths of the unit; in the middle, the even one.
pub open spec fn nearest_tenths(bytes: int, unit: int, tenths: int) -> bool {
    let off = 2 * (10 * bytes - tenths * unit);
    &&& -unit <= off <= unit
    &&& (off == unit || off == -unit) ==> tenths % 2 == 0
}

/// The text tells so many tenths of a unit.
pub open spec fn tells_tenths(r: Seq<char>, tenths: nat, unit: Seq<char>) -> bool {
    r == number::decimal(tenths / 10) + "."@ + number::decimal(tenths % 10) + unit
}

proof fn nearest_is_near(num: nat, unit: nat)
    requires
        unit > 0,
    ensures
        ({
            let t = client::nearest(num, unit);
            let off = 2 * (num - t * unit);
            &&& -unit <= off <= unit
            &&& (off == unit || off == -unit) ==> t % 2 == 0
        }),
{
    let q = num / unit;
    let m = num % unit;
    assert(num == q * unit + m && 0 <= m < unit) by (nonlinear_arith)
        requires
            unit > 0,
            q == num / unit,
            m == num % unit,
    ;
    assert((q + 1) * unit == q * unit + unit) by (nonlinear_arith);
}

/// A size is told in bytes below a kibibyte, and otherwise in the largest of KB, MB and GB
/// that it reaches, rounded to a tenth. (From two to the 53 bytes on, the number of bytes is
/// itself rounded before.)
pub proof fn sizes_are_told(bytes: u64, r: String, unit: nat, name: Seq<char>) -> (tenths: nat)
    requires
        call_ensures(format_bytes, (bytes,), r),
        bytes < 0x20_0000_0000_0000,
        bytes < 0x10_0000 ==> unit == 0x400 && name == " KB"@,
        0x10_0000 <= bytes < 0x4000_0000 ==> unit == 0x10_0000 && name == " MB"@,
        0x4000_0000 <= bytes ==> unit == 0x4000_0000 && name == " GB"@,
    ensures
        bytes < 0x400 ==> r@ == number::decimal(bytes as nat) + " B"@,
        bytes >= 0x400 ==> tells_tenths(r@, tenths, name) && nearest_tenths(
            bytes as int,
            unit as int,
            tenths as int,
        ),
{
    let t = client::nearest(client::as_double(bytes as nat) * 10, unit);
    nearest_is_near(client::as_double(bytes as nat) * 10, unit);
    t
}

/// The whole parts of a duration.
pub open spec fn makes_up(secs: int, d: int, h: int, m: int, s: int) -> bool {
    &&& secs == ((d * 24 + h) * 60 + m) * 60 + s
    &&& 0 <= d
    &&& 0 <= h < 24
    &&& 0 <= m < 60
    &&& 0 <= s < 60
}

/// An uptime is told in days, hours, minutes and seconds, from the first that is not zero
/// on.
pub proof fn uptimes_are_told(secs: u64, r: String, d: int, h: int, m: int, s: int)
    requires
        call_ensures(format_uptime, (secs,), r),
        makes_up(secs as int, d, h, m, s),
    ensures
        ({
            let tail = number::decimal(s as nat) + "s"@;
            let minutes = number::decimal(m as nat) + "m "@ + tail;
            let hours = number::decimal(h as nat) + "h "@ + minutes;
            let days = number::decimal(d as nat) + "d "@ + hours;
            &&& d > 0 ==> r@ == days
            &&& d == 0 && h > 0 ==> r@ == hours
            &&& d == 0 && h == 0 && m > 0 ==> r@ == minutes
            &&& d == 0 && h == 0 && m == 0 ==> r@ == tail
        }),
{
    parts_are_whole(secs as int, d, h, m, s);
}

proof fn parts_are_whole(n: int, d: int, h: int, m: int, s: int)
    requires
        makes_up(n, d, h, m, s),
    ensures
        n / 86400 == d,
        n % 86400 / 3600 == h,
        n % 3600 / 60 == m,
        n % 60 == s,
{
    let day = h * 3600 + m * 60 + s;
    assert(n == d * 86400 + day);
    vstd::arithmetic::div_mod::lemma_fundamental_div_mod_converse(n, 86400, d, day);
    let hour = m * 60 + s;
    vstd::arithmetic::div_mod::lemma_fundamental_div_mod_converse(day, 3600, h, hour);
    vstd::arithmetic::div_mod::lemma_fundamental_div_mod_converse(n, 3600, d * 24 + h, hour);
    vstd::arithmetic::div_mod::lemma_fundamental_div_mod_converse(hour, 60, m, s);
    vstd::arithmetic::div_mod::lemma_fundamental_div_mod_converse(
        n,
        60,
        (d * 24 + h) * 60 + m,
        s,
    );
}

/// An age is told in the largest of seconds, minutes, hours and days that it reaches, rounded
/// down; nothing is younger than zero seconds.
pub proof fn ages_are_told(now: i64, ts: i64, r: String, n: nat, rest: int)
    requires
        call_ensures(format_age, (now, ts), r),
    ensures
        now <= ts ==> r@ == number::decimal(0) + "s ago"@,
        0 <= now - ts < 60 ==> r@ == number::decimal((now - ts) as nat) + "s ago"@,
        60 <= now - ts < 3600 && now - ts == n * 60 + rest && 0 <= rest < 60 ==> r@
            == number::decimal(n) + "m ago"@,
        3600 <= now - ts < 86400 && now - ts == n * 3600 + rest && 0 <= rest < 3600 ==> r@
            == number::decimal(n) + "h ago"@,
        86400 <= now - ts && now - ts == n * 86400 + rest && 0 <= rest < 86400 ==> r@
            == number::decimal(n) + "d ago"@,
{
}

/// Each state of a certificate has its look; an unknown one is shown as it is.
pub proof fn states_have_a_look(state: &str, r: Span)
    requires
        call_ensures(styled_state_cell, (state,), r),
    ensures
        state@ == "issued"@ ==> r.text@ == "● issued"@ && r.tone is GreenBold,
        state@ == "ordering"@ ==> r.text@ == "● ordering"@ && r.tone is YellowBold,
        state@ == "renewing"@ ==> r.text@ == "● renewing"@ && r.tone is CyanBold,
        state@ == "failed"@ ==> r.text@ == "● failed"@ && r.tone is RedBold,
        state@ == "pending"@ ==> r.text@ == "○ pending"@ && r.tone is Grey,
        state@ != "issued"@ && state@ != "ordering"@ && state@ != "renewing"@ && state@ != "failed"@
            && state@ != "pending"@ ==> r.text@ == state@ && r.tone is Plain,
{
    different_states();
}

proof fn different_states()
    ensures
        "issued"@[0] == 'i',
        "ordering"@[0] == 'o',
        "renewing"@[0] == 'r',
        "failed"@[0] == 'f',
        "pending"@[0] == 'p',
{
    reveal_strlit("issued");
    reveal_strlit("ordering");
    reveal_strlit("renewing");
    reveal_strlit("failed");
    reveal_strlit("pending");
}

/// The days that a certificate has left are shown rounded down, in yellow below ten; an
/// expired one is told, and without an expiry there is a dash.
pub proof fn days_left_are_shown(not_after: Option<i64>, now: i64, r: Span, days: nat, rest: int)
    requires
        call_ensures(days_left_cell, (not_after, now), r),
    ensures
        not_after is None ==> r.text@ == "-"@ && r.tone is Grey,
        not_after matches Some(ts) ==> {
            &&& ts <= now ==> r.text@ == "expired"@ && r.tone is Red
            &&& ts > now && ts - now == days * 86400 + rest && 0 <= rest < 86400 ==> {
                &&& r.text@ == number::decimal(days) + "d"@
                &&& days < 10 <==> r.tone is Yellow
                &&& days >= 10 <==> r.tone is Green
            }
        },
{
}

/// The columns of the certificate list; the IDs come first where they are shown.
pub proof fn the_list_has_these_columns(with_ids: bool, r: Vec<&'static str>)
    requires
        call_ensures(cert_list_header, (with_ids,), r),
    ensures
        ({
            let at: int = if with_ids {
                1
            } else {
                0
            };
            &&& r@.len() == at + 5
            &&& with_ids ==> r@[0]@ == "CERT-ID"@
            &&& r@[at]@ == "NAME"@
            &&& r@[at + 1]@ == "STATE"@
            &&& r@[at + 2]@ == "DAYS-LEFT"@
            &&& r@[at + 3]@ == "ACTIVE"@
            &&& r@[at + 4]@ == "LAST EVENT AGE"@
        }),
{
    let names = r@.map_values(|s: &'static str| s@);
    assert(forall|i: int| 0 <= i < r@.len() ==> #[trigger] names[i] == r@[i]@);
    let at: int = if with_ids {
        1
    } else {
        0
    };
    assert(names.len() == r@.len());
    assert(names[at] == r@[at]@ && names[at + 1] == r@[at + 1]@ && names[at + 2] == r@[at + 2]@);
    assert(names[at + 3] == r@[at + 3]@ && names[at + 4] == r@[at + 4]@ && names[0] == r@[0]@);
}

/// A row of the certificate list has what its columns say: the name, marked for the root, the
/// state, the days left, the activity and the age of the last event.
pub proof fn certificates_have_a_row(
    cert: &CertSummary,
    is_root: bool,
    with_ids: bool,
    now: i64,
    r: Vec<Span>,
    state_text: &str,
    state: Span,
    days: Span,
    age: String,
)
    requires
        call_ensures(cert_list_row, (cert, is_root, with_ids, now), r),
        state_text@ == cert.state@,
        call_ensures(styled_state_cell, (state_text,), state),
        call_ensures(days_left_cell, (cert.not_after, now), days),
        cert.last_event matches Some(e) ==> call_ensures(format_age, (now, e.at), age),
    ensures
        ({
            let at: int = if with_ids {
                1
            } else {
                0
            };
            &&& r@.len() == at + 5
            &&& with_ids ==> r@[0].tone is Cyan && (cert.cert_id is None ==> r@[0].text@ == "-"@)
                && (cert.cert_id matches Some(id) ==> r@[0].text@ == number::signed_decimal(
                id as int,
            ))
            &&& is_root ==> r@[at].text@ == "★ "@ + cert.name@ && r@[at].tone is WhiteBold
            &&& !is_root ==> r@[at].text@ == "  "@ + cert.name@ && r@[at].tone is Plain
            &&& r@[at + 1].text@ == state.text@ && r@[at + 1].tone == state.tone
            &&& r@[at + 2].text@ == days.text@ && r@[at + 2].tone == days.tone
            &&& cert.active ==> r@[at + 3].text@ == "✔ yes"@ && r@[at + 3].tone is Green
            &&& !cert.active ==> r@[at + 3].text@ == "✖ no"@ && r@[at + 3].tone is Grey
            &&& r@[at + 4].tone is Grey
            &&& cert.last_event is None ==> r@[at + 4].text@ == "-"@
            &&& cert.last_event is Some ==> r@[at + 4].text@ == age@
        }),
{
    let row = client::row_of(r@);
    let at: int = if with_ids {
        1
    } else {
        0
    };
    assert(row.len() == r@.len());
    assert(row[at] == r@[at]@ && row[at + 1] == r@[at + 1]@ && row[at + 2] == r@[at + 2]@);
    assert(row[at + 3] == r@[at + 3]@ && row[at + 4] == r@[at + 4]@ && row[0] == r@[0]@);
}

/// The view of one certificate has a row for each of these properties, in this order; the ID
/// comes last, where there is one. What is not known is a dash.
pub proof fn certificates_have_a_view(
    d: &CertDetailResponse,
    now: i64,
    r: Vec<(&'static str, Span)>,
    label: &'static str,
    state: Span,
    from: String,
    until: String,
    active_at: String,
    days: nat,
    rest: int,
)
    requires
        call_ensures(cert_detail_rows, (d, now), r),
        call_ensures(CertState::label, (&d.state,), label),
        call_ensures(styled_state_cell, (label,), state),
        d.not_before matches Some(t) ==> call_ensures(clock::format_unix_timestamp, (t,), from),
        d.not_after matches Some(t) ==> call_ensures(clock::format_unix_timestamp, (t,), until),
        d.last_active_at matches Some(t) ==> call_ensures(
            clock::format_unix_timestamp,
            (t,),
            active_at,
        ),
    ensures
        r@.len() == (if d.cert_id is Some {
            8int
        } else {
            7
        }),
        r@[0].0@ == "State"@ && r@[0].1.text@ == state.text@ && r@[0].1.tone == state.tone,
        r@[1].0@ == "Active"@,
        d.active ==> r@[1].1.text@ == "✔ yes"@ && r@[1].1.tone is GreenBold,
        !d.active ==> r@[1].1.text@ == "✖ no"@ && r@[1].1.tone is Grey,
        r@[2].0@ == "Provider"@ && r@[2].1.text@ == d.provider@ && r@[2].1.tone is Plain,
        r@[3].0@ == "Issuer"@ && r@[3].1.tone is Plain,
        d.issuer is None ==> r@[3].1.text@ == "-"@,
        d.issuer matches Some(s) ==> r@[3].1.text@ == s@,
        r@[4].0@ == "Valid From"@ && r@[4].1.tone is Plain,
        d.not_before is None ==> r@[4].1.text@ == "-"@,
        d.not_before is Some ==> r@[4].1.text@ == from@,
        r@[5].0@ == "Valid Until"@,
        d.not_after is None ==> r@[5].1.text@ == "-"@ && r@[5].1.tone is Grey,
        d.not_after matches Some(ts) ==> {
            &&& ts <= now ==> r@[5].1.text@ == until@ + " (expired)"@ && r@[5].1.tone is Red
            &&& ts > now && ts - now == days * 86400 + rest && 0 <= rest < 86400 ==> r@[5].1.text@
                == until@ + " ("@ + number::decimal(days) + " days remaining)"@
                && r@[5].1.tone is Green
        },
        r@[6].0@ == "Last Active"@ && r@[6].1.tone is Plain,
        d.last_active_at is None ==> r@[6].1.text@ == "-"@,
        d.last_active_at is Some ==> r@[6].1.text@ == active_at@,
        d.cert_id matches Some(id) ==> r@[7].0@ == "Certificate ID"@ && r@[7].1.text@
            == number::signed_decimal(id as int) && r@[7].1.tone is Plain,
{
    let rows = client::properties(r@);
    assert(rows.len() == r@.len());
    assert(forall|i: int| 0 <= i < r@.len() ==> #[trigger] rows[i] == (r@[i].0@, r@[i].1@));
    assert(rows[0] == (r@[0].0@, r@[0].1@) && rows[1] == (r@[1].0@, r@[1].1@));
    assert(rows[2] == (r@[2].0@, r@[2].1@) && rows[3] == (r@[3].0@, r@[3].1@));
    assert(rows[4] == (r@[4].0@, r@[4].1@) && rows[5] == (r@[5].0@, r@[5].1@));
    assert(rows[6] == (r@[6].0@, r@[6].1@));
    if d.cert_id is Some {
        assert(rows[7] == (r@[7].0@, r@[7].1@));
    }
}

/// An event is shown with its time, its kind in the colour of its outcome, and its detail or
/// a dash.
pub proof fn events_are_shown(e: &CertEventSummary, r: Vec<Span>, at: String)
    requires
        call_ensures(event_row, (e,), r),
        call_ensures(clock::format_unix_timestamp, (e.at,), at),
    ensures
        r@.len() == 3,
        r@[0].text@ == at@ && r@[0].tone is Plain,
        r@[1].text@ == "● "@ + e.kind@,
        e.kind@ == "issued"@ || e.kind@ == "renewed"@ <==> r@[1].tone is GreenBold,
        e.kind@ == "failed"@ <==> r@[1].tone is RedBold,
        e.kind@ != "issued"@ && e.kind@ != "renewed"@ && e.kind@ != "failed"@
            <==> r@[1].tone is Yellow,
        r@[2].tone is Plain,
        e.detail is None ==> r@[2].text@ == "-"@,
        e.detail matches Some(s) ==> r@[2].text@ == s@,
{
    reveal_strlit("issued");
    reveal_strlit("renewed");
    reveal_strlit("failed");
    assert("issued"@[0] == 'i' && "renewed"@[0] == 'r' && "failed"@[0] == 'f');
    let row = client::row_of(r@);
    assert(row.len() == r@.len());
    assert(row[0] == r@[0]@ && row[1] == r@[1]@ && row[2] == r@[2]@);
}

/// The line has a label in front of a value.
pub open spec fn is_labelled(l: Seq<Span>, label: Seq<char>, value: Seq<char>, tone: Tone) -> bool {
    &&& l.len() >= 4
    &&& l[0].text@ == "  "@ && l[0].tone is Plain
    &&& l[1].text@ == label && l[1].tone is Grey
    &&& l[2].text@ == " "@ && l[2].tone is Plain
    &&& l[3].text@ == value && l[3].tone == tone
}

/// The line is a title.
pub open spec fn is_title(l: Seq<Span>, title: Seq<char>) -> bool {
    l.len() == 1 && l[0].text@ == title && l[0].tone is WhiteBold
}

pub(crate) proof fn lines_are_rows(v: Seq<Vec<Span>>, i: int)
    requires
        0 <= i < v.len(),
    ensures
        client::lines_of(v).len() == v.len(),
        client::lines_of(v)[i] == client::row_of(v[i]@),
        client::lines_of(v)[i].len() == v[i]@.len(),
        forall|k: int|
            0 <= k < v[i]@.len() ==> (#[trigger] v[i]@[k])@ == client::lines_of(v)[i][k],
{
}

pub(crate) proof fn labelled_rows(l: Seq<Span>, label: Seq<char>, value: client::SpanFacts)
    requires
        l.len() >= 4,
        client::row_of(l).take(4) == client::labelled(label, value),
    ensures
        is_labelled(l, label, value.text, value.tone),
{
    let row = client::row_of(l);
    let t = row.take(4);
    assert(t[0] == l[0]@ && t[1] == l[1]@ && t[2] == l[2]@ && t[3] == l[3]@);
}

/// The status is shown in four sections with a blank line between them: the server, its
/// endpoints, its certificates and its storage. The control socket is left out where it has
/// no path.
#[verifier::rlimit(60)]
pub proof fn the_status_is_shown(
    r: &StatusResponse,
    protocol: u32,
    v: Vec<Vec<Span>>,
    uptime: String,
    size: String,
)
    requires
        call_ensures(status_lines, (r, protocol), v),
        call_ensures(format_uptime, (r.uptime,), uptime),
        call_ensures(format_bytes, (r.db_size,), size),
    ensures
        ({
            let at: int = if r.control_socket@.len() == 0 {
                7
            } else {
                8
            };
            let issued = number::decimal(r.cert_counts.issued as nat);
            let root = r.root_cert@;
            &&& v@.len() == at + 8
            &&& v@[0]@.len() == 9
            &&& v@[0]@[0].text@ == "Weaver Server Status"@
            &&& v@[0]@[4].text@ == "v"@ + r.version@ + " (protocol v"@ + number::decimal(
                protocol as nat,
            ) + ")"@
            &&& v@[0]@[8].text@ == "PID "@ + number::decimal(r.pid as nat)
            &&& is_labelled(v@[1]@, "Uptime:"@, uptime@, Tone::Plain)
            &&& v@[2]@.len() == 0
            &&& is_title(v@[3]@, "Endpoints"@)
            &&& is_labelled(v@[4]@, "Root Domain:"@, r.root_domain@, Tone::Bold)
            &&& is_labelled(v@[5]@, "HTTP:"@, r.listeners.http@, Tone::Plain)
            &&& is_labelled(v@[6]@, "HTTPS:"@, r.listeners.https@, Tone::Plain)
            &&& at == 8 ==> is_labelled(v@[7]@, "Control:"@, r.control_socket@, Tone::Plain)
            &&& v@[at]@.len() == 0
            &&& is_title(v@[at + 1]@, "Certificates"@)
            &&& root == "issued"@ ==> is_labelled(
                v@[at + 2]@,
                "Root:"@,
                "● issued (valid)"@,
                Tone::GreenBold,
            )
            &&& root == "ordering"@ ==> is_labelled(
                v@[at + 2]@,
                "Root:"@,
                "● ordering"@,
                Tone::YellowBold,
            )
            &&& root == "renewing"@ ==> is_labelled(
                v@[at + 2]@,
                "Root:"@,
                "● renewing"@,
                Tone::CyanBold,
            )
            &&& root == "failed"@ ==> is_labelled(
                v@[at + 2]@,
                "Root:"@,
                "● failed"@,
                Tone::RedBold,
            )
            &&& root != "issued"@ && root != "ordering"@ && root != "renewing"@ && root
                != "failed"@ ==> is_labelled(v@[at + 2]@, "Root:"@, "○ "@ + root, Tone::Plain)
            &&& v@[at + 3]@.len() == 11
            &&& is_labelled(v@[at + 3]@, "Inventory:"@, issued, Tone::GreenBold)
            &&& v@[at + 3]@[4].text@ == " issued  •  "@
            &&& v@[at + 3]@[5].text@ == number::decimal(r.cert_counts.ordering as nat)
            &&& v@[at + 3]@[6].text@ == " ordering  •  "@
            &&& v@[at + 3]@[7].text@ == number::decimal(r.cert_counts.failed as nat)
            &&& v@[at + 3]@[8].text@ == " failed  •  "@
            &&& v@[at + 3]@[9].text@ == number::decimal(r.cert_counts.inactive as nat)
            &&& v@[at + 3]@[10].text@ == " inactive"@
            &&& v@[at + 4]@.len() == 0
            &&& is_title(v@[at + 5]@, "Storage"@)
            &&& is_labelled(
                v@[at + 6]@,
                "Database:"@,
                r.db_path@ + " ("@ + size@ + ")"@,
                Tone::Plain,
            )
            &&& is_labelled(
                v@[at + 7]@,
                "Schema:"@,
                "v"@ + number::decimal(r.schema_version as nat),
                Tone::Plain,
            )
        }),
{
    different_states();
    let lines = client::lines_of(v@);
    let at: int = if r.control_socket@.len() == 0 {
        7
    } else {
        8
    };
    assert(lines.len() == v@.len());
    assert(lines.len() == at + 8);
    lines_are_rows(v@, 0);
    assert(v@[0]@[0]@ == lines[0][0] && v@[0]@[4]@ == lines[0][4] && v@[0]@[8]@ == lines[0][8]);
    lines_are_rows(v@, 1);
    assert(lines[1].take(4) =~= lines[1]);
    labelled_rows(v@[1]@, "Uptime:"@, client::styled(uptime@, Tone::Plain));
    lines_are_rows(v@, 2);
    lines_are_rows(v@, 3);
    assert(v@[3]@[0]@ == lines[3][0]);
    lines_are_rows(v@, 4);
    assert(lines[4].take(4) =~= lines[4]);
    labelled_rows(v@[4]@, "Root Domain:"@, client::styled(r.root_domain@, Tone::Bold));
    lines_are_rows(v@, 5);
    assert(lines[5].take(4) =~= lines[5]);
    labelled_rows(v@[5]@, "HTTP:"@, client::styled(r.listeners.http@, Tone::Plain));
    lines_are_rows(v@, 6);
    assert(lines[6].take(4) =~= lines[6]);
    labelled_rows(v@[6]@, "HTTPS:"@, client::styled(r.listeners.https@, Tone::Plain));
    lines_are_rows(v@, 7);
    if at == 8 {
        assert(lines[7].take(4) =~= lines[7]);
        labelled_rows(v@[7]@, "Control:"@, client::styled(r.control_socket@, Tone::Plain));
    }
    lines_are_rows(v@, at);
    lines_are_rows(v@, at + 1);
    assert(v@[at + 1]@[0]@ == lines[at + 1][0]);
    lines_are_rows(v@, at + 2);
    assert(lines[at + 2].take(4) =~= lines[at + 2]);
    labelled_rows(v@[at + 2]@, "Root:"@, client::root_cell(r.root_cert@));
    lines_are_rows(v@, at + 3);
    let issued = client::styled(
        number::decimal(r.cert_counts.issued as nat),
        Tone::GreenBold,
    );
    assert(lines[at + 3].take(4) =~= client::labelled("Inventory:"@, issued));
    labelled_rows(v@[at + 3]@, "Inventory:"@, issued);
    let inventory = v@[at + 3]@;
    assert(inventory[4]@ == lines[at + 3][4] && inventory[5]@ == lines[at + 3][5]);
    assert(inventory[6]@ == lines[at + 3][6] && inventory[7]@ == lines[at + 3][7]);
    assert(inventory[8]@ == lines[at + 3][8] && inventory[9]@ == lines[at + 3][9]);
    assert(inventory[10]@ == lines[at + 3][10]);
    lines_are_rows(v@, at + 4);
    lines_are_rows(v@, at + 5);
    assert(v@[at + 5]@[0]@ == lines[at + 5][0]);
    lines_are_rows(v@, at + 6);
    assert(lines[at + 6].take(4) =~= lines[at + 6]);
    labelled_rows(
        v@[at + 6]@,
        "Database:"@,
        client::styled(r.db_path@ + " ("@ + size@ + ")"@, Tone::Plain),
    );
    lines_are_rows(v@, at + 7);
    assert(lines[at + 7].take(4) =~= lines[at + 7]);
    labelled_rows(
        v@[at + 7]@,
        "Schema:"@,
        client::styled("v"@ + number::decimal(r.schema_version as nat), Tone::Plain),
    );
}

/// The member of a document, where it is an object that has it.
pub open spec fn member_is(
    doc: Result<DocumentFacts, Seq<char>>,
    name: Seq<char>,
    value: JsonFacts,
) -> bool {
    doc matches Ok(DocumentFacts::Object(m)) && m.contains_key(name) && m[name] == value
}

/// The document has no text under the name.
pub open spec fn lacks_text(doc: Result<DocumentFacts, Seq<char>>, name: Seq<char>) -> bool {
    forall|s: Seq<char>| !#[trigger] member_is(doc, name, JsonFacts::Text(s))
}

/// An answer that is shown as it came ends with failure exactly where it is no JSON or says
/// that it is not ok.
pub proof fn raw_answers_end(
    doc: &Result<JsonDocument, String>,
    r: i32,
    trimmed: &str,
    q: i32,
)
    requires
        call_ensures(exit_code_of, (doc,), r),
        call_ensures(raw_answer, (trimmed,), q),
    ensures
        r == 0 || r == 1,
        r == 1 <==> doc is Err || member_is(
            json::document(*doc),
            "ok"@,
            JsonFacts::Bool(false),
        ),
        q == 0 || q == 1,
        q == 1 <==> json::parsed_json(trimmed@) is Err || member_is(
            json::parsed_json(trimmed@),
            "ok"@,
            JsonFacts::Bool(false),
        ),
{
}

/// Of an answer that is not the expected one its error message is shown, and where it has
/// none, the answer itself.
pub proof fn errors_are_shown(
    trimmed: &str,
    doc: &Result<JsonDocument, String>,
    r: String,
    q: String,
    s: Seq<char>,
)
    requires
        call_ensures(error_in, (trimmed, doc), r),
        call_ensures(unexpected_answer, (trimmed,), q),
    ensures
        member_is(json::document(*doc), "error"@, JsonFacts::Text(s)) ==> r@ == s,
        lacks_text(json::document(*doc), "error"@) ==> r@ == trimmed@,
        member_is(json::parsed_json(trimmed@), "error"@, JsonFacts::Text(s)) ==> q@ == s,
        lacks_text(json::parsed_json(trimmed@), "error"@) ==> q@ == trimmed@,
{
    let a = json::document(*doc);
    let b = json::parsed_json(trimmed@);
    if let Ok(d) = a {
        if let Some(JsonFacts::Text(t)) = d.member("error"@) {
            assert(member_is(a, "error"@, JsonFacts::Text(t)));
        }
    }
    if let Ok(d) = b {
        if let Some(JsonFacts::Text(t)) = d.member("error"@) {
            assert(member_is(b, "error"@, JsonFacts::Text(t)));
        }
    }
}

/// What a line of a wait leads to: an issued certificate ends it with code 0, a failed one
/// with 4, an error with 1, and nothing else ends it. Every state is shown with its
/// hostname, and errors are told, unless the lines are shown as they came.
pub open spec fn leads_to(
    doc: Result<DocumentFacts, Seq<char>>,
    raw: bool,
    r: WaitLine,
    state: Seq<char>,
    name: Seq<char>,
    error: Seq<char>,
) -> bool {
    let has_state = member_is(doc, "state"@, JsonFacts::Text(state));
    let refused = lacks_text(doc, "state"@) && member_is(doc, "ok"@, JsonFacts::Bool(false));
    let told = member_is(doc, "error"@, JsonFacts::Text(error));
    &&& has_state && state == "issued"@ ==> r.exit == Some(0i32)
    &&& has_state && state == "failed"@ ==> r.exit == Some(4i32)
    &&& has_state && state != "issued"@ && state != "failed"@ ==> r.exit is None
    &&& refused ==> r.exit == Some(1i32) && r.shown is None
    &&& lacks_text(doc, "state"@) && !refused ==> r.exit is None && r.shown is None
        && r.error is None
    &&& raw ==> r.shown is None && r.error is None
    &&& !raw && refused && told ==> text::opt(r.error) == Some(error)
    &&& !raw && refused && lacks_text(doc, "error"@) ==> text::opt(r.error) == Some("Wait error"@)
    &&& !raw && has_state && state == "failed"@ && told ==> text::opt(r.error) == Some(
        "Issuance failed: "@ + error,
    )
    &&& has_state && (state != "failed"@ || lacks_text(doc, "error"@)) ==> r.error is None
    &&& !raw && has_state ==> {
        &&& r.shown is Some && r.shown->0@.len() == 5
        &&& r.shown->0@[1].text@ == " Certificate '"@
        &&& member_is(doc, "name"@, JsonFacts::Text(name)) ==> r.shown->0@[2].text@ == name
        &&& lacks_text(doc, "name"@) ==> r.shown->0@[2].text@ == ""@
        &&& r.shown->0@[3].text@ == "' -> "@
        &&& state == "issued"@ ==> r.shown->0@[0].text@ == "✓"@ && r.shown->0@[4].text@
            == "issued (valid)"@
        &&& state == "failed"@ ==> r.shown->0@[0].text@ == "✗"@ && r.shown->0@[4].text@
            == "failed"@
        &&& state == "ordering"@ ==> r.shown->0@[4].text@ == "ordering..."@
        &&& state == "renewing"@ ==> r.shown->0@[4].text@ == "renewing..."@
        &&& state == "pending"@ ==> r.shown->0@[4].text@ == "pending"@
        &&& state != "issued"@ && state != "failed"@ ==> r.shown->0@[0].text@ == "●"@
    }
}

proof fn verdict_leads(
    doc: Result<DocumentFacts, Seq<char>>,
    raw: bool,
    r: WaitLine,
    state: Seq<char>,
    name: Seq<char>,
    error: Seq<char>,
)
    requires
        r@ == client::wait_verdict(doc, raw),
    ensures
        leads_to(doc, raw, r, state, name, error),
{
    different_states();
    if let Ok(d) = doc {
        if let Some(JsonFacts::Text(t)) = d.member("state"@) {
            assert(member_is(doc, "state"@, JsonFacts::Text(t)));
        }
        if let Some(JsonFacts::Text(t)) = d.member("name"@) {
            assert(member_is(doc, "name"@, JsonFacts::Text(t)));
        }
        if let Some(JsonFacts::Text(t)) = d.member("error"@) {
            assert(member_is(doc, "error"@, JsonFacts::Text(t)));
        }
    }
    if let Some(l) = r.shown {
        let row = client::row_of(l@);
        assert(r@.shown == Some(row));
        assert(row.len() == l@.len());
        assert(row[0] == l@[0]@ && row[1] == l@[1]@ && row[2] == l@[2]@);
        assert(row[3] == l@[3]@ && row[4] == l@[4]@);
    }
}

/// What the lines of a wait lead to, and what reading them does: the end of the stream ends
/// the wait with code 0 and a failure to read with 1; a blank line is skipped.
pub proof fn waits_end(
    doc: &Result<JsonDocument, String>,
    raw: bool,
    r: WaitLine,
    trimmed: &str,
    q: WaitLine,
    read: &WaitRead,
    line: &str,
    w: WaitLine,
    state: Seq<char>,
    name: Seq<char>,
    error: Seq<char>,
)
    requires
        call_ensures(wait_step, (doc, raw), r),
        call_ensures(wait_line, (trimmed, raw), q),
        call_ensures(wait_read, (read, raw), w),
        *read matches WaitRead::Line(l) ==> line@ == l@ && call_ensures(
            text::trim,
            (line,),
            trimmed,
        ),
    ensures
        leads_to(json::document(*doc), raw, r, state, name, error),
        leads_to(json::parsed_json(trimmed@), raw, q, state, name, error),
        *read is End ==> w.exit == Some(0i32) && w.shown is None && w.error is None,
        *read matches WaitRead::Failed(e) ==> w.exit == Some(1i32) && w.shown is None && text::opt(
            w.error,
        ) == Some("Failed reading from control socket: "@ + e@),
        *read is Line && trimmed@.len() == 0 ==> w.exit is None && w.shown is None
            && w.error is None,
        *read is Line && trimmed@.len() > 0 ==> leads_to(
            json::parsed_json(trimmed@),
            raw,
            w,
            state,
            name,
            error,
        ),
{
    verdict_leads(json::document(*doc), raw, r, state, name, error);
    verdict_leads(json::parsed_json(trimmed@), raw, q, state, name, error);
    if *read is Line && trimmed@.len() > 0 {
        verdict_leads(json::parsed_json(trimmed@), raw, w, state, name, error);
    }
}

proof fn texts_among(items: Seq<Option<Seq<char>>>, s: Seq<char>)
    ensures
        client::text_items(items).contains(s) == items.contains(Some(s)),
        client::text_items(items).len() <= items.len(),
        (forall|i: int| 0 <= i < items.len() ==> (#[trigger] items[i]) is Some)
            ==> client::text_items(items).len() == items.len(),
    decreases items.len(),
{
    if items.len() > 0 {
        let fewer = items.drop_last();
        texts_among(fewer, s);
        assert(items =~= fewer.push(items.last()));
        let part = client::text_items(fewer);
        if fewer.contains(Some(s)) {
            let i = choose|i: int| 0 <= i < fewer.len() && fewer[i] == Some(s);
            assert(items[i] == Some(s));
        }
        if items.contains(Some(s)) {
            let i = choose|i: int| 0 <= i < items.len() && items[i] == Some(s);
            if i < fewer.len() {
                assert(fewer[i] == Some(s));
            }
        }
        if part.contains(s) {
            let i = choose|i: int| 0 <= i < part.len() && part[i] == s;
            assert(client::text_items(items)[i] == s);
        }
        if let Some(t) = items.last() {
            assert(client::text_items(items)[part.len() as int] == t);
            if client::text_items(items).contains(s) && t != s {
                let i = choose|i: int|
                    0 <= i < client::text_items(items).len() && client::text_items(items)[i] == s;
                assert(part[i] == s);
            }
            if t == s {
                assert(items[items.len() - 1] == Some(s));
            }
        }
        if forall|i: int| 0 <= i < items.len() ==> (#[trigger] items[i]) is Some {
            assert(items[items.len() - 1] is Some);
            assert forall|i: int| 0 <= i < fewer.len() implies (#[trigger] fewer[i]) is Some by {
                assert(items[i] is Some);
            }
        }
    }
}

/// The hostnames to wait for are the texts of the list of renewed ones; they are waited for
/// only where that is asked for and the answer is no failure.
pub proof fn renewed_hosts_are_waited_for(
    doc: &Result<JsonDocument, String>,
    r: Vec<String>,
    trimmed: &str,
    wait: bool,
    q: (i32, Vec<String>),
    code: i32,
    items: Seq<Option<Seq<char>>>,
    host: Seq<char>,
)
    requires
        call_ensures(renewed_hosts, (doc,), r),
        call_ensures(raw_renewal, (trimmed, wait), q),
        call_ensures(raw_answer, (trimmed,), code),
    ensures
        member_is(json::document(*doc), "renewed"@, JsonFacts::Array(items)) ==> text::texts(
            r@,
        ).contains(host) == items.contains(Some(host)),
        (forall|i: Seq<Option<Seq<char>>>|
            !#[trigger] member_is(json::document(*doc), "renewed"@, JsonFacts::Array(i)))
            ==> r@.len() == 0,
        q.0 == code,
        !wait || code != 0 ==> q.1@.len() == 0,
        wait && code == 0 && member_is(
            json::parsed_json(trimmed@),
            "renewed"@,
            JsonFacts::Array(items),
        ) ==> text::texts(q.1@).contains(host) == items.contains(Some(host)),
{
    texts_among(items, host);
    let a = json::document(*doc);
    assert(text::texts(r@).len() == r@.len());
    assert(text::texts(q.1@).len() == q.1@.len());
    if let Ok(d) = a {
        if let Some(JsonFacts::Array(i)) = d.member("renewed"@) {
            assert(member_is(a, "renewed"@, JsonFacts::Array(i)));
        }
    }
}

/// A queued renewal is shown with its targets, and with what was skipped where something
/// was.
pub proof fn renewals_are_shown(
    r: &RenewResponse,
    v: Vec<Vec<Span>>,
    targets: String,
    skipped: String,
)
    requires
        call_ensures(renewal_lines, (r,), v),
        call_ensures(config::join, (&r.renewed, ", "), targets),
        call_ensures(config::join, (&r.skipped_inactive, ", "), skipped),
    ensures
        v@.len() == (if r.skipped_inactive@.len() > 0 {
            3int
        } else {
            2
        }),
        v@[0]@.len() == 2 && v@[0]@[0].text@ == "✓"@ && v@[0]@[1].text@
            == " Certificate renewal queued"@,
        is_labelled(v@[1]@, "Target:"@, targets@, Tone::CyanBold),
        r.skipped_inactive@.len() > 0 ==> is_labelled(v@[2]@, "Skipped:"@, skipped@, Tone::Grey)
            && v@[2]@.len() == 5 && v@[2]@[4].text@ == " (inactive)"@,
{
    let lines = client::lines_of(v@);
    assert(lines.len() == v@.len());
    lines_are_rows(v@, 0);
    assert(v@[0]@[0]@ == lines[0][0] && v@[0]@[1]@ == lines[0][1]);
    lines_are_rows(v@, 1);
    assert(lines[1].take(4) =~= lines[1]);
    labelled_rows(v@[1]@, "Target:"@, client::styled(targets@, Tone::CyanBold));
    if r.skipped_inactive@.len() > 0 {
        lines_are_rows(v@, 2);
        assert(lines[2].take(4) =~= client::labelled(
            "Skipped:"@,
            client::styled(skipped@, Tone::Grey),
        ));
        labelled_rows(v@[2]@, "Skipped:"@, client::styled(skipped@, Tone::Grey));
        assert(v@[2]@[4]@ == lines[2][4]);
    }
}

/// A backup is shown with its destination and its size.
pub proof fn backups_are_shown(r: &BackupResponse, v: Vec<Vec<Span>>, size: String)
    requires
        call_ensures(backup_lines, (r,), v),
        call_ensures(format_bytes, (r.size,), size),
    ensures
        v@.len() == 3,
        v@[0]@.len() == 2 && v@[0]@[0].text@ == "✓"@ && v@[0]@[1].text@
            == " Database backup created"@,
        is_labelled(v@[1]@, "Destination:"@, r.path@, Tone::Bold),
        is_labelled(v@[2]@, "File Size:"@, size@, Tone::Plain),
{
    let lines = client::lines_of(v@);
    assert(lines.len() == v@.len());
    lines_are_rows(v@, 0);
    assert(v@[0]@[0]@ == lines[0][0] && v@[0]@[1]@ == lines[0][1]);
    lines_are_rows(v@, 1);
    assert(lines[1].take(4) =~= lines[1]);
    labelled_rows(v@[1]@, "Destination:"@, client::styled(r.path@, Tone::Bold));
    lines_are_rows(v@, 2);
    assert(lines[2].take(4) =~= lines[2]);
    labelled_rows(v@[2]@, "File Size:"@, client::styled(size@, Tone::Plain));
}

/// The request has version 1 and the command.
pub open spec fn is_request(r: ControlRequest, cmd: Seq<char>) -> bool {
    r.v == 1 && r.cmd@ == cmd
}

/// Each request says what was asked for and nothing more; a flag is sent only where it is
/// set.
pub proof fn requests_say_what_was_asked(
    cmd: &str,
    bare: ControlRequest,
    name: Option<String>,
    limit: Option<usize>,
    every: bool,
    shown: ControlRequest,
    timeout_s: Option<u64>,
    waited: ControlRequest,
    all: bool,
    force: bool,
    renewed: ControlRequest,
    path: String,
    backed: ControlRequest,
)
    requires
        call_ensures(request, (cmd,), bare),
        call_ensures(cert_status_request, (name, limit, every), shown),
        call_ensures(cert_wait_request, (name, timeout_s), waited),
        call_ensures(cert_renew_request, (name, all, force), renewed),
        call_ensures(backup_request, (path,), backed),
    ensures
        is_request(bare, cmd@),
        bare.name is None && bare.limit is None && bare.timeout_s is None,
        bare.all is None && bare.force is None && bare.path is None && bare.no_only_best is None,
        is_request(shown, "cert.status"@),
        shown.name == name && shown.limit == limit && shown.timeout_s is None,
        shown.all is None && shown.force is None && shown.path is None,
        every <==> shown.no_only_best == Some(true),
        !every <==> shown.no_only_best is None,
        is_request(waited, "cert.wait"@),
        waited.name == name && waited.timeout_s == timeout_s && waited.limit is None,
        waited.all is None && waited.force is None && waited.path is None
            && waited.no_only_best is None,
        is_request(renewed, "cert.renew"@),
        renewed.name == name && renewed.limit is None && renewed.timeout_s is None,
        all <==> renewed.all == Some(true),
        !all <==> renewed.all is None,
        force <==> renewed.force == Some(true),
        !force <==> renewed.force is None,
        renewed.path is None && renewed.no_only_best is None,
        is_request(backed, "backup"@),
        backed.path == Some(path) && backed.name is None && backed.limit is None,
        backed.timeout_s is None && backed.all is None && backed.force is None
            && backed.no_only_best is None,
{
}

/// Where nobody listens the exit code is 3, and otherwise 1; a hint is given where there is
/// one.
pub proof fn unreachable_servers_are_told(
    failure: &ConnectFailure,
    path: &str,
    r: (Vec<String>, i32),
)
    requires
        call_ensures(connect_failure, (failure, path), r),
    ensures
        *failure is Unreachable <==> r.1 == 3,
        *failure !is Unreachable <==> r.1 == 1,
        *failure is Unreachable ==> r.0@.len() == 2 && r.0@[0]@
            == "Error: Cannot connect to control socket at "@ + path@ && r.0@[1]@
            == "Hint: systemctl status weaver-server"@,
        *failure is PermissionDenied ==> r.0@.len() == 2 && r.0@[0]@
            == "Error: Permission denied connecting to control socket at "@ + path@ && r.0@[1]@
            == "Hint: run with sudo or join group 'weaver'"@,
        *failure matches ConnectFailure::Other(e) ==> r.0@.len() == 1 && r.0@[0]@
            == "Error: Failed to connect to control socket at "@ + path@ + ": "@ + e@,
{
    let t = text::texts(r.0@);
    assert(t.len() == r.0@.len());
    assert(t[0] == r.0@[0]@);
    assert(r.0@.len() > 1 ==> t[1] == r.0@[1]@);
}

} // verus!
