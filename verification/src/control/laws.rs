//! What the control socket promises: to the server's clients, and of what the command line
//! shows.
use super::protocol::{
    BackupResponse, CertCounts, CertDetailResponse, CertEventSummary, CertSummary, CertWaitEvent,
    ControlRequest, ErrorResponse, RenewResponse, ShutdownResponse, StatusResponse,
};
use super::server::{
    self, backup_response, check_envelope, detail, dispatch, invalid_request, listed_certificates,
    listed_names, parse_verb, read_request, renew_one, renewal_error, shutdown_response,
    status_response, subject, summarize, ControlAction, ListedCertificate, RequestLine, ServerFacts,
    Verb, WaitSession, WaitSignal, WaitStep,
};
use crate::cert::manager::{lowered_names, CertManager, ManagerFacts, RenewError};
use crate::cert::state::{CertState, StateFacts};
use crate::json::{self, DocumentFacts, JsonDocument, JsonFacts, JsonKind};
use crate::names;
use crate::store::records::CertRecord;
use crate::text;
use vstd::prelude::*;

verus! {

/// Of several members with one name the last one counts.
pub proof fn last_members_count(
    v: Vec<(String, JsonKind)>,
    name: &str,
    r: Option<&JsonKind>,
    i: int,
)
    requires
        call_ensures(JsonDocument::member, (&JsonDocument::Object(v), name), r),
    ensures
        r is Some == exists|k: int| 0 <= k < v@.len() && (#[trigger] v@[k]).0@ == name@,
        0 <= i < v@.len() && v@[i].0@ == name@ && (forall|k: int|
            i < k < v@.len() ==> (#[trigger] v@[k]).0@ != name@) ==> r is Some && r->0@ == v@[i].1@,
{
    member_is_last(v@, name@, i);
}

proof fn member_is_last(v: Seq<(String, JsonKind)>, name: Seq<char>, i: int)
    ensures
        json::members(v).contains_key(name) == exists|k: int|
            0 <= k < v.len() && (#[trigger] v[k]).0@ == name,
        0 <= i < v.len() && v[i].0@ == name && (forall|k: int|
            i < k < v.len() ==> (#[trigger] v[k]).0@ != name) ==> json::members(v)[name]
            == v[i].1@,
    decreases v.len(),
{
    if v.len() > 0 {
        let fewer = v.drop_last();
        member_is_last(fewer, name, i);
        assert(forall|k: int| 0 <= k < fewer.len() ==> #[trigger] fewer[k] == v[k]);
        if json::members(fewer).contains_key(name) {
            let k = choose|k: int| 0 <= k < fewer.len() && (#[trigger] fewer[k]).0@ == name;
            assert(v[k].0@ == name);
        }
        if v.last().0@ == name {
            assert(v[v.len() - 1].0@ == name);
        }
        if exists|k: int| 0 <= k < v.len() && (#[trigger] v[k]).0@ == name {
            let k = choose|k: int| 0 <= k < v.len() && (#[trigger] v[k]).0@ == name;
            if k < fewer.len() {
                assert(fewer[k].0@ == name);
            }
        }
    }
}

/// The six verbs are known by these names, and nothing else is a verb.
pub proof fn verbs_are_these(cmd: &str, r: Option<Verb>)
    requires
        call_ensures(parse_verb, (cmd,), r),
    ensures
        r == Some(Verb::Status) <==> cmd@ == "status"@,
        r == Some(Verb::CertStatus) <==> cmd@ == "cert.status"@,
        r == Some(Verb::CertWait) <==> cmd@ == "cert.wait"@,
        r == Some(Verb::CertRenew) <==> cmd@ == "cert.renew"@,
        r == Some(Verb::Backup) <==> cmd@ == "backup"@,
        r == Some(Verb::Shutdown) <==> cmd@ == "shutdown"@,
{
    different_verbs();
}

proof fn different_verbs()
    ensures
        "status"@.len() == 6 && "status"@[0] == 's',
        "cert.status"@.len() == 11,
        "cert.wait"@.len() == 9,
        "cert.renew"@.len() == 10,
        "backup"@.len() == 6 && "backup"@[0] == 'b',
        "shutdown"@.len() == 8,
{
    reveal_strlit("status");
    reveal_strlit("cert.status");
    reveal_strlit("cert.wait");
    reveal_strlit("cert.renew");
    reveal_strlit("backup");
    reveal_strlit("shutdown");
}

/// The document is an object of version 1.
pub open spec fn has_version(doc: Result<DocumentFacts, Seq<char>>) -> bool {
    match doc {
        Ok(DocumentFacts::Object(m)) => m.contains_key("v"@) && m["v"@] == JsonFacts::Number(
            Some(1u64),
        ),
        _ => false,
    }
}

/// The document names a command.
pub open spec fn has_command(doc: Result<DocumentFacts, Seq<char>>) -> bool {
    match doc {
        Ok(DocumentFacts::Object(m)) => m.contains_key("cmd"@) && m["cmd"@] is Text,
        _ => false,
    }
}

/// The document asks for the command in the version that is spoken.
pub open spec fn asks_for(doc: Result<DocumentFacts, Seq<char>>, cmd: Seq<char>) -> bool {
    has_version(doc) && has_command(doc) && doc->Ok_0->Object_0["cmd"@] == JsonFacts::Text(cmd)
}

/// What is wrong with a document that asks for nothing known.
pub open spec fn is_refusal(doc: Result<DocumentFacts, Seq<char>>, e: Seq<char>) -> bool {
    &&& doc is Err ==> e == "Malformed JSON request"@
    &&& doc is Ok && !has_version(doc) ==> e == "Unsupported protocol version: expected 1"@
    &&& has_version(doc) && !has_command(doc) ==> e == "Missing or invalid 'cmd' field"@
    &&& has_version(doc) && has_command(doc) ==> e == "Unknown command '"@
        + doc->Ok_0->Object_0["cmd"@]->Text_0 + "'"@
}

/// A document is a request exactly where it is an object of version 1 that names one of the
/// six verbs; otherwise it is said what is wrong.
pub proof fn envelopes_are_checked(doc: &Result<JsonDocument, String>, r: Result<Verb, String>)
    requires
        call_ensures(check_envelope, (doc,), r),
    ensures
        ({
            let d = json::document(*doc);
            &&& r == Ok::<Verb, String>(Verb::Status) <==> asks_for(d, "status"@)
            &&& r == Ok::<Verb, String>(Verb::CertStatus) <==> asks_for(d, "cert.status"@)
            &&& r == Ok::<Verb, String>(Verb::CertWait) <==> asks_for(d, "cert.wait"@)
            &&& r == Ok::<Verb, String>(Verb::CertRenew) <==> asks_for(d, "cert.renew"@)
            &&& r == Ok::<Verb, String>(Verb::Backup) <==> asks_for(d, "backup"@)
            &&& r == Ok::<Verb, String>(Verb::Shutdown) <==> asks_for(d, "shutdown"@)
            &&& r is Err ==> is_refusal(d, r->Err_0@)
        }),
{
    different_verbs();
}

/// A line with nothing but white space is not answered. Any other line is read as JSON
/// without the white space around it, and is a request under the same conditions as the
/// document.
pub proof fn lines_are_read(line: &str, trimmed: &str, r: RequestLine)
    requires
        call_ensures(read_request, (line,), r),
        call_ensures(text::trim, (line,), trimmed),
    ensures
        ({
            let d = json::parsed_json(trimmed@);
            let blank = trimmed@.len() == 0;
            &&& r is Blank <==> blank
            &&& r == RequestLine::Request(Verb::Status) <==> !blank && asks_for(d, "status"@)
            &&& r == RequestLine::Request(Verb::CertStatus) <==> !blank && asks_for(
                d,
                "cert.status"@,
            )
            &&& r == RequestLine::Request(Verb::CertWait) <==> !blank && asks_for(d, "cert.wait"@)
            &&& r == RequestLine::Request(Verb::CertRenew) <==> !blank && asks_for(
                d,
                "cert.renew"@,
            )
            &&& r == RequestLine::Request(Verb::Backup) <==> !blank && asks_for(d, "backup"@)
            &&& r == RequestLine::Request(Verb::Shutdown) <==> !blank && asks_for(d, "shutdown"@)
            &&& r matches RequestLine::Refused(e) ==> !e.ok && is_refusal(d, e.error@)
        }),
{
    different_verbs();
}

/// The hostname is the one that a request names: the root where it names `root` or nothing,
/// otherwise the name in lower case.
pub open spec fn is_named(name: Option<String>, root: Seq<char>, target: Seq<char>) -> bool {
    &&& name is None ==> target == root
    &&& name matches Some(n) ==> {
        &&& n@ == "root"@ ==> target == root
        &&& n@ != "root"@ ==> target == text::lower(n@)
    }
}

/// What each verb asks for. A certificate is shown with ten events and waited for for five
/// minutes unless the request says otherwise; only the best certificates are listed, and
/// nothing is forced, unless it says so.
pub proof fn verbs_are_obeyed(verb: Verb, req: &ControlRequest, root: &str, r: ControlAction)
    requires
        call_ensures(dispatch, (verb, req, root), r),
    ensures
        verb is Status <==> r is Status,
        verb is Shutdown <==> r is Shutdown,
        verb is CertStatus && req.name is None <==> r is ListCertificates,
        verb is CertStatus && req.name is Some <==> r is CertificateDetail,
        verb is CertWait <==> r is Wait,
        verb is CertRenew && req.all == Some(true) <==> r is RenewAll,
        verb is CertRenew && req.all != Some(true) <==> r is Renew,
        verb is Backup && req.path is Some <==> r is Backup,
        verb is Backup && req.path is None <==> r is Refuse,
        match r {
            ControlAction::ListCertificates { only_best } => only_best <==> req.no_only_best
                != Some(true),
            ControlAction::CertificateDetail { target, limit } => is_named(
                req.name,
                root@,
                target@,
            ) && (req.limit is None ==> limit == 10) && (req.limit is Some ==> Some(limit)
                == req.limit),
            ControlAction::Wait { target, timeout_s } => is_named(req.name, root@, target@) && (
            req.timeout_s is None ==> timeout_s == 300) && (req.timeout_s is Some ==> Some(
                timeout_s,
            ) == req.timeout_s),
            ControlAction::RenewAll { force } => force <==> req.force == Some(true),
            ControlAction::Renew { target, force } => is_named(req.name, root@, target@) && (
            force <==> req.force == Some(true)),
            ControlAction::Backup { path } => path@ == req.path->0@,
            ControlAction::Refuse(e) => !e.ok && e.error@ == "Missing target backup path"@,
            _ => true,
        },
{
}

/// The status of the server tells what it is made of; what is not known of the database is
/// zero, and its location stands for a file that it has not.
pub proof fn the_status_is_told<K>(
    facts: ServerFacts,
    m: &CertManager<K>,
    stored: &Vec<String>,
    r: StatusResponse,
    label: &'static str,
    counts: CertCounts,
)
    requires
        call_ensures(status_response::<K>, (facts, m, stored), r),
        call_ensures(CertManager::<K>::root_cert_status, (m,), label),
        call_ensures(CertManager::<K>::cert_counts, (m, stored), counts),
    ensures
        r.ok,
        r.version@ == facts.version@,
        r.uptime == facts.uptime,
        r.pid == facts.pid,
        r.root_domain@ == facts.root_domain@,
        r.listeners.http@ == facts.listeners.http@,
        r.listeners.https@ == facts.listeners.https@,
        r.root_cert@ == label@,
        r.cert_counts.issued == counts.issued,
        r.cert_counts.ordering == counts.ordering,
        r.cert_counts.failed == counts.failed,
        r.cert_counts.inactive == counts.inactive,
        facts.db_file matches Some(p) ==> r.db_path@ == p@,
        facts.db_file is None ==> r.db_path@ == facts.db_url@,
        facts.db_size is Some ==> Some(r.db_size) == facts.db_size,
        facts.db_size is None ==> r.db_size == 0,
        facts.schema_version is Some ==> Some(r.schema_version) == facts.schema_version,
        facts.schema_version is None ==> r.schema_version == 0,
        r.control_socket@ == facts.control_socket@,
{
}

/// The hostname is known: it is the root, or tracked, or in the store.
pub open spec fn is_to_be_listed<K>(m: ManagerFacts<K>, stored: Seq<String>, host: Seq<char>) -> bool {
    ||| host == m.root
    ||| m.states.contains_key(host)
    ||| exists|i: int| 0 <= i < stored.len() && text::lower((#[trigger] stored[i])@) == host
}

proof fn to_be_listed_is_known<K>(m: ManagerFacts<K>, stored: Seq<String>, host: Seq<char>)
    ensures
        is_to_be_listed(m, stored, host) == m.known(stored).contains(host),
{
    let lowers = lowered_names(stored);
    if lowers.to_set().contains(host) {
        let i = choose|i: int| 0 <= i < lowers.len() && lowers[i] == host;
        assert(text::lower(stored[i]@) == host);
    }
    if exists|i: int| 0 <= i < stored.len() && text::lower((#[trigger] stored[i])@) == host {
        let i = choose|i: int| 0 <= i < stored.len() && text::lower((#[trigger] stored[i])@) == host;
        assert(lowers[i] == host);
        assert(lowers.contains(host));
    }
}

/// The root is listed first, then every other known hostname in alphabetical order, each
/// once, and nothing else.
pub proof fn known_hostnames_are_listed<K>(
    m: &CertManager<K>,
    stored: &Vec<String>,
    r: Vec<String>,
    host: Seq<char>,
    i: int,
    j: int,
)
    requires
        call_ensures(listed_names::<K>, (m, stored), r),
    ensures
        r@.len() > 0 && r@[0]@ == m@.root,
        is_to_be_listed(m@, stored@, host) <==> exists|k: int|
            0 <= k < r@.len() && (#[trigger] r@[k])@ == host,
        1 <= i < j < r@.len() ==> text::before(r@[i]@, r@[j]@) && r@[i]@ != m@.root,
{
    let list = text::texts(r@);
    let tail = list.subrange(1, list.len() as int);
    to_be_listed_is_known(m@, stored@, host);
    assert(forall|k: int| 0 <= k < list.len() ==> #[trigger] list[k] == r@[k]@);
    assert(list[0] == r@[0]@);
    if m@.known(stored@).contains(host) && host != m@.root {
        assert(tail.to_set().contains(host));
        let k = choose|k: int| 0 <= k < tail.len() && tail[k] == host;
        assert(r@[k + 1]@ == host);
    }
    if exists|k: int| 0 <= k < r@.len() && (#[trigger] r@[k])@ == host {
        let k = choose|k: int| 0 <= k < r@.len() && (#[trigger] r@[k])@ == host;
        if k > 0 {
            assert(tail[k - 1] == host);
            assert(tail.to_set().contains(host));
        }
    }
    if 1 <= i < j < r@.len() {
        assert(text::before(tail[i - 1], tail[j - 1]));
        assert(tail[i - 1] == r@[i]@ && tail[j - 1] == r@[j]@);
        assert(tail.contains(tail[i - 1]));
        assert(tail.to_set().contains(tail[i - 1]));
    }
}

/// The row is that of a record: the place of the record with its hostname in lower case.
pub open spec fn is_row_of(row: ListedCertificate, name: Seq<char>, i: int) -> bool {
    row.name@ == name && row.record is Some && row.record->0 == i
}

proof fn rows_are_of_records(name: Seq<char>, records: Seq<CertRecord>, n: int, k: int)
    requires
        0 <= n <= records.len(),
        0 <= k < server::certificate_rows(name, records, n).len(),
    ensures
        server::certificate_rows(name, records, n)[k].name == name,
        server::certificate_rows(name, records, n)[k].record is Some,
        0 <= server::certificate_rows(name, records, n)[k].record->0 < n,
        text::lower(
            records[server::certificate_rows(name, records, n)[k].record->0].name@,
        ) == name,
    decreases n,
{
    if n > 0 {
        let fewer = server::certificate_rows(name, records, n - 1);
        if k < fewer.len() {
            rows_are_of_records(name, records, n - 1, k);
        }
    }
}

proof fn no_rows_without_records(name: Seq<char>, records: Seq<CertRecord>, n: int, i: int)
    requires
        0 <= i < n <= records.len(),
        server::certificate_rows(name, records, n).len() == 0,
    ensures
        text::lower(records[i].name@) != name,
    decreases n,
{
    if i < n - 1 {
        no_rows_without_records(name, records, n - 1, i);
    }
}

proof fn rows_are_listed(list: Seq<Seq<char>>, records: Seq<CertRecord>, k: int)
    requires
        0 <= k < server::listing_rows(list, records).len(),
    ensures
        ({
            let row = server::listing_rows(list, records)[k];
            &&& list.contains(row.name)
            &&& row.record matches Some(i) ==> 0 <= i < records.len() && text::lower(
                records[i].name@,
            ) == row.name
            &&& row.record is None ==> forall|i: int|
                0 <= i < records.len() ==> text::lower((#[trigger] records[i]).name@) != row.name
        }),
    decreases list.len(),
{
    let n = records.len() as int;
    let before = server::listing_rows(list.drop_last(), records);
    let row = server::listing_rows(list, records)[k];
    if k < before.len() {
        rows_are_listed(list.drop_last(), records, k);
        let j = choose|j: int| 0 <= j < list.drop_last().len() && list.drop_last()[j] == row.name;
        assert(list[j] == row.name);
    } else {
        let own = server::certificate_rows(list.last(), records, n);
        assert(list[list.len() - 1] == list.last());
        if own.len() == 0 {
            assert forall|i: int| 0 <= i < records.len() implies text::lower(
                (#[trigger] records[i]).name@,
            ) != row.name by {
                no_rows_without_records(list.last(), records, n, i);
            }
        } else {
            rows_are_of_records(list.last(), records, n, k - before.len());
        }
    }
}

proof fn hostnames_have_rows(list: Seq<Seq<char>>, records: Seq<CertRecord>, j: int) -> (k: int)
    requires
        0 <= j < list.len(),
    ensures
        0 <= k < server::listing_rows(list, records).len(),
        server::listing_rows(list, records)[k].name == list[j],
    decreases list.len(),
{
    let before = server::listing_rows(list.drop_last(), records);
    if j < list.len() - 1 {
        hostnames_have_rows(list.drop_last(), records, j)
    } else {
        let own = server::certificate_rows(list.last(), records, records.len() as int);
        if own.len() > 0 {
            rows_are_of_records(list.last(), records, records.len() as int, 0);
        }
        before.len() as int
    }
}

proof fn rows_start_with_the_first(list: Seq<Seq<char>>, records: Seq<CertRecord>)
    requires
        list.len() > 0,
    ensures
        server::listing_rows(list, records).len() > 0,
        server::listing_rows(list, records)[0].name == list[0],
    decreases list.len(),
{
    if list.len() > 1 {
        rows_start_with_the_first(list.drop_last(), records);
    } else {
        assert(list.drop_last() =~= Seq::<Seq<char>>::empty());
        let own = server::certificate_rows(list.last(), records, records.len() as int);
        assert(server::listing_rows(list.drop_last(), records) =~= Seq::empty());
        assert(server::listing_rows(list, records) =~= server::hostname_rows(
            list.last(),
            records,
        ));
        if own.len() > 0 {
            rows_are_of_records(list.last(), records, records.len() as int, 0);
        }
    }
}

/// Every record has a row under its hostname in lower case; a known hostname without any has
/// one row of its own. There are no other rows, and those of the root come first.
pub proof fn certificates_are_listed<K>(
    m: &CertManager<K>,
    records: &Vec<CertRecord>,
    r: Vec<ListedCertificate>,
    i: int,
    k: int,
    host: Seq<char>,
)
    requires
        call_ensures(listed_certificates::<K>, (m, records), r),
    ensures
        r@.len() > 0 && r@[0].name@ == m@.root,
        0 <= i < records@.len() ==> exists|k: int|
            0 <= k < r@.len() && is_row_of(
                #[trigger] r@[k],
                text::lower(records@[i].name@),
                i,
            ),
        host == m@.root || m@.states.contains_key(host) ==> exists|k: int|
            0 <= k < r@.len() && (#[trigger] r@[k]).name@ == host,
        0 <= k < r@.len() ==> match r@[k].record {
            Some(at) => at < records@.len() && r@[k].name@ == text::lower(
                records@[at as int].name@,
            ),
            None => (r@[k].name@ == m@.root || m@.states.contains_key(r@[k].name@)) && forall|n: int|
                0 <= n < records@.len() ==> text::lower((#[trigger] records@[n]).name@)
                    != r@[k].name@,
        },
{
    let stored = server::recorded(records@);
    let rows = server::rows_of(r@);
    let list = choose|list: Seq<Seq<char>>| #[trigger]
        server::is_listing(m@, stored, list) && rows == server::listing_rows(list, records@);
    let tail = list.subrange(1, list.len() as int);
    assert(forall|n: int| 0 <= n < rows.len() ==> #[trigger] rows[n] == r@[n]@);
    rows_start_with_the_first(list, records@);
    assert(rows[0] == r@[0]@);
    if 0 <= i < records@.len() {
        server::every_certificate_is_listed(m@, records@, list, i);
        let row = server::RowFacts { name: text::lower(records@[i].name@), record: Some(i) };
        let n = choose|n: int| 0 <= n < rows.len() && rows[n] == row;
        assert(is_row_of(r@[n], row.name, i));
    }
    if host == m@.root || m@.states.contains_key(host) {
        to_be_listed_is_known(m@, stored, host);
        let j = if host == m@.root {
            0
        } else {
            assert(tail.to_set().contains(host));
            1 + choose|j: int| 0 <= j < tail.len() && tail[j] == host
        };
        let n = hostnames_have_rows(list, records@, j);
        assert(r@[n]@ == rows[n]);
    }
    if 0 <= k < r@.len() {
        rows_are_listed(list, records@, k);
        assert(rows[k] == r@[k]@);
        let name = r@[k].name@;
        let j = choose|j: int| 0 <= j < list.len() && list[j] == name;
        if j > 0 {
            assert(tail[j - 1] == name);
            assert(tail.to_set().contains(name));
        }
        to_be_listed_is_known(m@, stored, name);
        if r@[k].record is None && name != m@.root && !m@.states.contains_key(name) {
            let n = choose|n: int|
                0 <= n < stored.len() && text::lower((#[trigger] stored[n])@) == name;
            assert(text::lower(records@[n].name@) == name);
        }
    }
}

/// A request is about the hostname of the record that was found, in lower case, and
/// otherwise about what it names.
pub proof fn requests_have_a_subject(target: String, record: &Option<CertRecord>, r: String)
    requires
        call_ensures(subject, (target, record), r),
    ensures
        record is None ==> r@ == target@,
        *record matches Some(c) ==> r@ == text::lower(c.name@),
{
}

/// The summary of a certificate tells the state, the activity and the last event of its
/// hostname, and the expiry and the ID of the record; without a record, the expiry that the
/// state tells.
pub proof fn certificates_are_summarized<K>(
    m: &CertManager<K>,
    name: &str,
    record: &Option<CertRecord>,
    last_event: Option<CertEventSummary>,
    r: CertSummary,
    state: CertState,
    label: &'static str,
    expiry: Option<i64>,
    active: bool,
)
    requires
        call_ensures(summarize::<K>, (m, name, record, last_event), r),
        call_ensures(CertManager::<K>::status, (m, name), state),
        call_ensures(CertManager::<K>::is_active, (m, name), active),
        call_ensures(CertState::label, (&state,), label),
        call_ensures(CertState::not_after, (&state,), expiry),
    ensures
        r.name@ == name@,
        r.state@ == label@,
        r.active == active,
        r.last_event == last_event,
        record is None ==> r.not_after == expiry && r.cert_id is None,
        *record matches Some(c) ==> r.not_after == Some(c.not_after) && r.cert_id == Some(c.id),
{
}

/// A hostname is shown exactly where it is the root, or tracked, or has a record. The record
/// tells the rest; without one, the default provider and the expiry of the state are shown.
pub proof fn certificates_are_shown<K>(
    m: &CertManager<K>,
    provider: &str,
    target: String,
    record: Option<CertRecord>,
    events: Vec<CertEventSummary>,
    r: Result<CertDetailResponse, ErrorResponse>,
    name: &str,
    state: CertState,
    expiry: Option<i64>,
    active: bool,
)
    requires
        call_ensures(detail::<K>, (m, provider, target, record, events), r),
        name@ == target@,
        call_ensures(CertManager::<K>::status, (m, name), state),
        call_ensures(CertManager::<K>::is_active, (m, name), active),
        call_ensures(CertState::not_after, (&state,), expiry),
    ensures
        r is Ok <==> target@ == m@.root || record is Some || m@.states.contains_key(target@),
        r matches Err(e) ==> !e.ok && e.error@ == "Certificate for hostname '"@ + target@
            + "' not found"@,
        r matches Ok(d) ==> {
            &&& d.ok
            &&& d.name@ == target@
            &&& d.state@ == state@
            &&& d.active == active
            &&& d.cert_events@ == events@
            &&& record is None ==> {
                &&& d.not_before is None
                &&& d.not_after == expiry
                &&& d.issuer is None
                &&& d.provider@ == provider@
                &&& d.last_active_at is None
                &&& d.cert_id is None
            }
            &&& record matches Some(c) ==> {
                &&& d.not_before == Some(c.not_before)
                &&& d.not_after == Some(c.not_after)
                &&& text::opt(d.issuer) == text::opt(c.issuer)
                &&& d.provider@ == c.directory@
                &&& d.last_active_at == c.last_active_at
                &&& d.cert_id == Some(c.id)
            }
        },
{
}

/// The event tells the state of the hostname: its label, its expiry, and its error where it
/// failed.
pub open spec fn tells(e: CertWaitEvent, name: Seq<char>, s: StateFacts) -> bool {
    &&& e.ok
    &&& e.name@ == name
    &&& s is Pending ==> e.state@ == "pending"@
    &&& s is OrderInProgress ==> e.state@ == "ordering"@
    &&& s is Issued ==> e.state@ == "issued"@ && e.not_after == Some(s->Issued_not_after)
    &&& s is Renewing ==> e.state@ == "renewing"@ && e.not_after == Some(s->Renewing_not_after)
    &&& s is Failed ==> e.state@ == "failed"@ && text::opt(e.error) == Some(s->error)
    &&& !(s is Issued || s is Renewing) ==> e.not_after is None
    &&& !(s is Failed) ==> e.error is None
}

/// A hostname can be waited for exactly where it is known. The client is told the state it
/// is in at once; that ends the wait only where the certificate is issued or has failed.
/// Afterwards it is told every change of that hostname and of no other, until one ends the
/// wait in the same way or the time is up.
pub proof fn waits_follow_the_hostname<K>(
    m: &CertManager<K>,
    target: String,
    in_store: bool,
    timeout_s: u64,
    r: Result<(WaitSession, WaitStep), ErrorResponse>,
    name: &str,
    state: CertState,
    signal: WaitSignal,
    step: WaitStep,
    elapsed: u128,
    left: Option<u128>,
)
    requires
        call_ensures(WaitSession::start::<K>, (m, target, in_store, timeout_s), r),
        name@ == target@,
        call_ensures(CertManager::<K>::status, (m, name), state),
        r is Ok ==> call_ensures(WaitSession::on_signal, (&r->Ok_0.0, signal), step),
        r is Ok ==> call_ensures(WaitSession::remaining_nanos, (&r->Ok_0.0, elapsed), left),
    ensures
        r is Ok <==> target@ == m@.root || in_store || m@.states.contains_key(target@),
        r matches Err(e) ==> !e.ok && e.error@ == "Hostname '"@ + target@
            + "' not found in certificate store"@,
        r matches Ok(s) ==> {
            &&& state@ is Issued || state@ is Failed <==> s.1 is SendLast
            &&& !(state@ is Issued || state@ is Failed) <==> s.1 is Send
            &&& s.1 matches WaitStep::SendLast(e) ==> tells(e, target@, state@)
            &&& s.1 matches WaitStep::Send(e) ==> tells(e, target@, state@)
            &&& signal is Closed <==> step is End
            &&& signal is TimedOut <==> step is GiveUp
            &&& step matches WaitStep::GiveUp(e) ==> !e.ok && e.error@
                == "Timed out waiting for certificate state transition"@
            &&& signal matches WaitSignal::Change(n, s) ==> {
                &&& n@ != target@ <==> step is Ignore
                &&& n@ == target@ && (s@ is Issued || s@ is Failed) <==> step is SendLast
                &&& n@ == target@ && !(s@ is Issued || s@ is Failed) <==> step is Send
                &&& step matches WaitStep::SendLast(e) ==> tells(e, target@, s@)
                &&& step matches WaitStep::Send(e) ==> tells(e, target@, s@)
            }
            &&& left is None <==> elapsed >= timeout_s * 1_000_000_000
            &&& left matches Some(n) ==> elapsed + n == timeout_s * 1_000_000_000
        },
{
}

/// A renewal that is asked for by name is that of the manager: what refuses it is told in
/// the manager's words, and what is queued is answered with the name as it was asked for.
pub proof fn renewals_are_answered<K>(
    m: &mut CertManager<K>,
    target: String,
    force: bool,
    in_store: Result<bool, String>,
    now: i64,
    r: Result<(String, RenewResponse), ErrorResponse>,
)
    requires
        call_ensures(renew_one::<K>, (m, target, force, in_store, now), r),
        text::lower(old(m)@.root) == old(m)@.root,
    ensures
        ({
            let a = old(m)@;
            let b = final(m)@;
            let host = if target@ == "root"@ {
                a.root
            } else {
                text::lower(target@)
            };
            let known = host == a.root || a.states.contains_key(host);
            let waits = a.states.contains_key(host) && (a.states[host] matches StateFacts::Failed {
                next_retry,
                ..
            } && now < next_retry);
            let missing = !known && (in_store matches Ok(s) && !s);
            let broken = !known && in_store is Err;
            &&& r is Ok <==> !broken && !missing && (force || (!waits && a.orders < 4))
            &&& r matches Err(e) ==> !e.ok && b == a
            &&& r matches Ok(q) ==> {
                &&& q.0@ == host
                &&& q.1.ok
                &&& q.1.renewed@.len() == 1 && q.1.renewed@[0]@ == target@
                &&& q.1.status@ == "queued"@
                &&& q.1.skipped_inactive@.len() == 0
                &&& crate::cert::laws::queued(a, b, host)
            }
        }),
{
    text::lower_idempotent(target@);
    if let Ok(q) = r {
        let renewed = text::texts(q.1.renewed@);
        assert(renewed == seq![target@]);
        assert(renewed.len() == q.1.renewed@.len());
        assert(renewed[0] == q.1.renewed@[0]@);
    }
}

/// A refused renewal is answered with its message.
pub proof fn refused_renewals_are_answered(e: &RenewError, r: ErrorResponse, message: String)
    requires
        call_ensures(renewal_error, (e,), r),
        call_ensures(RenewError::message, (e,), message),
    ensures
        !r.ok,
        r.error@ == message@,
{
}

/// A backup is answered with its path and its size, zero where that is not known; a failed
/// one with the reason.
pub proof fn backups_are_answered(
    path: String,
    outcome: Result<Option<u64>, String>,
    r: Result<BackupResponse, ErrorResponse>,
)
    requires
        call_ensures(backup_response, (path, outcome), r),
    ensures
        r is Ok <==> outcome is Ok,
        r matches Ok(b) ==> b.ok && b.path@ == path@ && (outcome->Ok_0 is None ==> b.size == 0) && (
        outcome->Ok_0 is Some ==> Some(b.size) == outcome->Ok_0),
        r matches Err(e) ==> !e.ok && e.error@ == "Backup failed: "@ + outcome->Err_0@,
{
}

/// A shutdown is confirmed, and a request that cannot be read is refused with the reason.
pub proof fn other_answers(r: ShutdownResponse, reason: &str, e: ErrorResponse)
    requires
        call_ensures(shutdown_response, (), r),
        call_ensures(invalid_request, (reason,), e),
    ensures
        r.ok,
        r.message@ == "Server shutting down"@,
        !e.ok,
        e.error@ == "Invalid request format: "@ + reason@,
{
}

} // verus!
