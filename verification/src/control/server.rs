//! How the server answers requests on the control socket.
use super::protocol::{
    BackupResponse, CertDetailResponse, CertEventSummary, CertSummary, CertWaitEvent,
    ControlRequest, ErrorResponse, ListenersInfo, RenewResponse, ShutdownResponse, StatusResponse,
};
use crate::cert::manager::{lowered_names, CertManager, ManagerFacts, RenewError};
use crate::cert::state::{CertState, StateFacts};
use crate::json;
use crate::json::{DocumentFacts, JsonDocument, JsonFacts, JsonKind};
use crate::names;
use crate::store::records::CertRecord;
use crate::text;
use vstd::prelude::*;

verus! {

/// The command verbs.
#[derive(Debug, Clone, Copy, PartialEq, Eq, Structural)]
pub enum Verb {
    Status,
    CertStatus,
    CertWait,
    CertRenew,
    Backup,
    Shutdown,
}

/// The verb that a command names.
pub open spec fn verb_of(cmd: Seq<char>) -> Option<Verb> {
    if cmd == "status"@ {
        Some(Verb::Status)
    } else if cmd == "cert.status"@ {
        Some(Verb::CertStatus)
    } else if cmd == "cert.wait"@ {
        Some(Verb::CertWait)
    } else if cmd == "cert.renew"@ {
        Some(Verb::CertRenew)
    } else if cmd == "backup"@ {
        Some(Verb::Backup)
    } else if cmd == "shutdown"@ {
        Some(Verb::Shutdown)
    } else {
        None
    }
}

/// Reads a command verb.
pub fn parse_verb(cmd: &str) -> (r: Option<Verb>)
    ensures
        r == verb_of(cmd@),
{
    if text::same(cmd, "status") {
        Some(Verb::Status)
    } else if text::same(cmd, "cert.status") {
        Some(Verb::CertStatus)
    } else if text::same(cmd, "cert.wait") {
        Some(Verb::CertWait)
    } else if text::same(cmd, "cert.renew") {
        Some(Verb::CertRenew)
    } else if text::same(cmd, "backup") {
        Some(Verb::Backup)
    } else if text::same(cmd, "shutdown") {
        Some(Verb::Shutdown)
    } else {
        None
    }
}

/// The verb of a request, or what is wrong with its envelope.
pub open spec fn envelope(doc: Result<DocumentFacts, Seq<char>>) -> Result<Verb, Seq<char>> {
    match doc {
        Err(_) => Err("Malformed JSON request"@),
        Ok(d) => if d.member("v"@) != Some(JsonFacts::Number(Some(1u64))) {
            Err("Unsupported protocol version: expected 1"@)
        } else {
            match d.member("cmd"@) {
                Some(JsonFacts::Text(cmd)) => match verb_of(cmd) {
                    Some(verb) => Ok(verb),
                    None => Err("Unknown command '"@ + cmd + "'"@),
                },
                _ => Err("Missing or invalid 'cmd' field"@),
            }
        },
    }
}

/// Checks the envelope of a request: version 1 and one of the verbs.
pub fn check_envelope(doc: &Result<JsonDocument, String>) -> (r: Result<Verb, String>)
    ensures
        (match r {
            Ok(v) => Ok(v),
            Err(e) => Err(e@),
        }) == envelope(json::document(*doc)),
{
    let doc = match doc {
        Ok(d) => d,
        Err(_) => return Err("Malformed JSON request".to_owned()),
    };
    let supported = match doc.member("v") {
        Some(JsonKind::Number(Some(n))) => *n == 1,
        _ => false,
    };
    if !supported {
        return Err("Unsupported protocol version: expected 1".to_owned());
    }
    match doc.member("cmd") {
        Some(JsonKind::Text(cmd)) => match parse_verb(cmd.as_str()) {
            Some(verb) => Ok(verb),
            None => Err(text::cat3("Unknown command '", cmd.as_str(), "'")),
        },
        _ => Err("Missing or invalid 'cmd' field".to_owned()),
    }
}

/// What a line of input is.
pub enum RequestLine {
    /// Nothing; it is not answered.
    Blank,
    /// A request that is refused.
    Refused(ErrorResponse),
    /// A request with a good envelope.
    Request(Verb),
}

/// Reads a line of input.
pub fn read_request(line: &str) -> (r: RequestLine)
    ensures
        ({
            let trimmed = text::trimmed(line@);
            if trimmed.len() == 0 {
                r is Blank
            } else {
                match envelope(json::parsed_json(trimmed)) {
                    Ok(verb) => r == RequestLine::Request(verb),
                    Err(e) => r is Refused && !r->Refused_0.ok && r->Refused_0.error@ == e,
                }
            }
        }),
{
    let trimmed = text::trim(line);
    if text::is_blank(trimmed) {
        return RequestLine::Blank;
    }
    let doc = json::parse_json(trimmed);
    match check_envelope(&doc) {
        Ok(verb) => RequestLine::Request(verb),
        Err(e) => RequestLine::Refused(ErrorResponse::new(e)),
    }
}

/// The answer to a request whose fields cannot be read.
pub fn invalid_request(reason: &str) -> (r: ErrorResponse)
    ensures
        !r.ok,
        r.error@ == "Invalid request format: "@ + reason@,
{
    ErrorResponse::new(text::cat2("Invalid request format: ", reason))
}

/// What a request asks for.
pub enum ControlAction {
    Status,
    /// The list of all certificates, or of the best of each domain only.
    ListCertificates { only_best: bool },
    /// One certificate, by its hostname or its ID, with so many of its events.
    CertificateDetail { target: String, limit: usize },
    /// The state transitions of a hostname, for so many seconds.
    Wait { target: String, timeout_s: u64 },
    /// Renewal of the root and all active hostnames.
    RenewAll { force: bool },
    /// Renewal of a hostname.
    Renew { target: String, force: bool },
    /// A backup.
    Backup { path: String },
    /// Nothing: the request is refused.
    Refuse(ErrorResponse),
    Shutdown,
}

/// The hostname that a request names; `root`, or nothing, is the root domain.
pub open spec fn target_of(name: Option<String>, root: Seq<char>) -> Seq<char> {
    match name {
        Some(n) => if n@ == "root"@ {
            root
        } else {
            text::lower(n@)
        },
        None => root,
    }
}

fn target(name: &Option<String>, root: &str) -> (r: String)
    ensures
        r@ == target_of(*name, root@),
{
    match name {
        Some(n) => if text::same(n.as_str(), "root") {
            root.to_owned()
        } else {
            text::lowered(n.as_str())
        },
        None => root.to_owned(),
    }
}

/// Events shown of a certificate unless a limit is given.
pub const DEFAULT_EVENT_LIMIT: usize = 10;

/// Seconds that a wait lasts unless a timeout is given.
pub const DEFAULT_WAIT_SECS: u64 = 300;

/// Decides what a request asks for. `root` is the root domain in lower case.
pub fn dispatch(verb: Verb, req: &ControlRequest, root: &str) -> (r: ControlAction)
    ensures
        match verb {
            Verb::Status => r is Status,
            Verb::CertStatus => match req.name {
                None => r is ListCertificates && r->only_best == (req.no_only_best != Some(true)),
                Some(_) => {
                    &&& r is CertificateDetail
                    &&& r->CertificateDetail_target@ == target_of(req.name, root@)
                    &&& r->limit == (match req.limit {
                        Some(n) => n,
                        None => 10,
                    })
                },
            },
            Verb::CertWait => {
                &&& r is Wait
                &&& r->Wait_target@ == target_of(req.name, root@)
                &&& r->timeout_s == (match req.timeout_s {
                    Some(n) => n,
                    None => 300,
                })
            },
            Verb::CertRenew => {
                let force = req.force == Some(true);
                if req.all == Some(true) {
                    r is RenewAll && r->RenewAll_force == force
                } else {
                    r is Renew && r->Renew_target@ == target_of(req.name, root@) && r->Renew_force
                        == force
                }
            },
            Verb::Backup => match req.path {
                Some(p) => r is Backup && r->path@ == p@,
                None => r is Refuse && !r->Refuse_0.ok && r->Refuse_0.error@
                    == "Missing target backup path"@,
            },
            Verb::Shutdown => r is Shutdown,
        },
{
    match verb {
        Verb::Status => ControlAction::Status,
        Verb::CertStatus => match &req.name {
            None => ControlAction::ListCertificates {
                only_best: match req.no_only_best {
                    Some(all) => !all,
                    None => true,
                },
            },
            Some(_) => ControlAction::CertificateDetail {
                target: target(&req.name, root),
                limit: match req.limit {
                    Some(n) => n,
                    None => DEFAULT_EVENT_LIMIT,
                },
            },
        },
        Verb::CertWait => ControlAction::Wait {
            target: target(&req.name, root),
            timeout_s: match req.timeout_s {
                Some(n) => n,
                None => DEFAULT_WAIT_SECS,
            },
        },
        Verb::CertRenew => {
            let force: bool = match req.force {
                Some(f) => f,
                None => false,
            };
            let all: bool = match req.all {
                Some(a) => a,
                None => false,
            };
            if all {
                ControlAction::RenewAll { force }
            } else {
                ControlAction::Renew { target: target(&req.name, root), force }
            }
        },
        Verb::Backup => match &req.path {
            Some(p) => ControlAction::Backup { path: p.clone() },
            None => ControlAction::Refuse(
                ErrorResponse::new("Missing target backup path".to_owned()),
            ),
        },
        Verb::Shutdown => ControlAction::Shutdown,
    }
}

/// What the status of the server is made of, besides its certificates.
pub struct ServerFacts {
    pub version: String,
    pub uptime: u64,
    pub pid: u32,
    pub root_domain: String,
    pub listeners: ListenersInfo,
    /// The database file, where there is one.
    pub db_file: Option<String>,
    pub db_url: String,
    /// The size of the database file, where it is known.
    pub db_size: Option<u64>,
    /// The number of applied migrations, where it is known.
    pub schema_version: Option<u32>,
    pub control_socket: String,
}

/// Answers `status`.
pub fn status_response<K>(facts: ServerFacts, manager: &CertManager<K>, stored: &Vec<String>) -> (r:
    StatusResponse)
    requires
        manager.wf(),
    ensures
        r.ok,
        r.version == facts.version,
        r.uptime == facts.uptime,
        r.pid == facts.pid,
        r.root_domain == facts.root_domain,
        r.listeners == facts.listeners,
        r.root_cert@ == manager@.status(manager@.root).label(),
        r.cert_counts.inactive == manager@.known(stored@).filter(
            manager@.counts_inactive(),
        ).len(),
        r.cert_counts.issued == manager@.known(stored@).filter(manager@.counts_issued()).len(),
        r.cert_counts.ordering == manager@.known(stored@).filter(
            manager@.counts_ordering(),
        ).len(),
        r.cert_counts.failed == manager@.known(stored@).filter(manager@.counts_failed()).len(),
        r.db_path@ == (match facts.db_file {
            Some(p) => p@,
            None => facts.db_url@,
        }),
        r.db_size == (match facts.db_size {
            Some(n) => n,
            None => 0,
        }),
        r.schema_version == (match facts.schema_version {
            Some(n) => n,
            None => 0,
        }),
        r.control_socket == facts.control_socket,
{
    StatusResponse {
        ok: true,
        version: facts.version,
        uptime: facts.uptime,
        pid: facts.pid,
        root_domain: facts.root_domain,
        listeners: facts.listeners,
        root_cert: manager.root_cert_status().to_owned(),
        cert_counts: manager.cert_counts(stored),
        db_path: match facts.db_file {
            Some(p) => p,
            None => facts.db_url,
        },
        db_size: match facts.db_size {
            Some(n) => n,
            None => 0,
        },
        schema_version: match facts.schema_version {
            Some(n) => n,
            None => 0,
        },
        control_socket: facts.control_socket,
    }
}

/// The list of certificates: the root first, then every other known hostname
/// in alphabetical order.
pub open spec fn is_listing<K>(m: ManagerFacts<K>, stored: Seq<String>, list: Seq<Seq<char>>) -> bool {
    &&& list.len() > 0
    &&& list[0] == m.root
    &&& names::ascending(list.subrange(1, list.len() as int))
    &&& list.subrange(1, list.len() as int).to_set() == m.known(stored).remove(m.root)
}

/// The hostnames of the certificate list: the root first, the others in
/// alphabetical order.
pub fn listed_names<K>(manager: &CertManager<K>, stored: &Vec<String>) -> (r: Vec<String>)
    requires
        manager.wf(),
    ensures
        is_listing(manager@, stored@, text::texts(r@)),
{
    let known = manager.known_names(stored);
    let ghost all = text::texts(known@);
    let root = manager.root_domain();
    let mut r: Vec<String> = Vec::new();
    r.push(root.to_owned());
    let ghost mut tail: Seq<Seq<char>> = Seq::empty();
    let mut i: usize = 0;
    proof {
        names::ascending_is_distinct(all);
        assert(text::texts(r@) =~= seq![root@] + tail);
        assert(tail.to_set() =~= all.take(0).to_set().remove(root@));
    }
    while i < known.len()
        invariant
            i <= known@.len(),
            all == text::texts(known@),
            names::ascending(all),
            text::texts(r@) == seq![root@] + tail,
            names::ascending(tail),
            tail.to_set() == all.take(i as int).to_set().remove(root@),
            forall|j: int, k: int|
                0 <= j < tail.len() && i <= k < all.len() ==> text::before(
                    #[trigger] tail[j],
                    #[trigger] all[k],
                ),
        decreases known@.len() - i,
    {
        proof {
            prefix_set(all, i as int);
        }
        if !text::same(known[i].as_str(), root) {
            let ghost so_far = text::texts(r@);
            r.push(known[i].clone());
            proof {
                let longer = tail.push(all[i as int]);
                assert(text::texts(r@) =~= so_far.push(all[i as int]));
                assert(text::texts(r@) =~= seq![root@] + longer);
                assert forall|a: int, b: int| 0 <= a < b < longer.len() implies text::before(
                    #[trigger] longer[a],
                    #[trigger] longer[b],
                ) by {
                    if b < tail.len() {
                        assert(longer[a] == tail[a] && longer[b] == tail[b]);
                    } else {
                        assert(longer[a] == tail[a]);
                    }
                }
                assert(longer.to_set() =~= tail.to_set().insert(all[i as int])) by {
                    broadcast use vstd::seq_lib::group_seq_properties;

                }
                assert forall|j: int, k: int|
                    0 <= j < longer.len() && i + 1 <= k < all.len() implies text::before(
                    #[trigger] longer[j],
                    #[trigger] all[k],
                ) by {
                    if j < tail.len() {
                        assert(longer[j] == tail[j]);
                    }
                }
                tail = longer;
            }
        }
        proof {
            assert(tail.to_set() =~= all.take(i + 1).to_set().remove(root@));
        }
        i += 1;
    }
    proof {
        assert(all.take(all.len() as int) == all);
        let list = text::texts(r@);
        assert(list.subrange(1, list.len() as int) =~= tail);
    }
    r
}

proof fn prefix_set(list: Seq<Seq<char>>, i: int)
    requires
        0 <= i < list.len(),
    ensures
        list.take(i + 1).to_set() == list.take(i).to_set().insert(list[i]),
{
    broadcast use vstd::seq_lib::group_seq_properties;

    assert(list.take(i + 1) =~= list.take(i).push(list[i]));
    assert(list.take(i + 1).to_set() =~= list.take(i).to_set().insert(list[i]));
}

/// A row of the certificate list.
#[derive(Debug)]
pub struct ListedCertificate {
    pub name: String,
    /// The place of the certificate among the records, where there is one.
    pub record: Option<usize>,
}

/// A row of the certificate list: the hostname, and the place of the certificate
/// among the records.
pub struct RowFacts {
    pub name: Seq<char>,
    pub record: Option<int>,
}

impl View for ListedCertificate {
    type V = RowFacts;

    open spec fn view(&self) -> RowFacts {
        RowFacts {
            name: self.name@,
            record: match self.record {
                Some(at) => Some(at as int),
                None => None,
            },
        }
    }
}

/// The rows of the certificate list.
pub open spec fn rows_of(v: Seq<ListedCertificate>) -> Seq<RowFacts> {
    v.map_values(|r: ListedCertificate| r@)
}

/// One row for each certificate of a hostname among the first `n` records, in their
/// order.
pub open spec fn certificate_rows(name: Seq<char>, records: Seq<CertRecord>, n: int) -> Seq<
    RowFacts,
>
    decreases n,
{
    if n <= 0 {
        seq![]
    } else if text::lower(records[n - 1].name@) == name {
        certificate_rows(name, records, n - 1).push(RowFacts { name, record: Some(n - 1) })
    } else {
        certificate_rows(name, records, n - 1)
    }
}

/// The rows of a hostname: one for each of its certificates, or one without any.
pub open spec fn hostname_rows(name: Seq<char>, records: Seq<CertRecord>) -> Seq<RowFacts> {
    let held = certificate_rows(name, records, records.len() as int);
    if held.len() == 0 {
        seq![RowFacts { name, record: None }]
    } else {
        held
    }
}

/// The rows of a list of hostnames.
pub open spec fn listing_rows(list: Seq<Seq<char>>, records: Seq<CertRecord>) -> Seq<RowFacts>
    decreases list.len(),
{
    if list.len() == 0 {
        seq![]
    } else {
        listing_rows(list.drop_last(), records) + hostname_rows(list.last(), records)
    }
}

/// The hostnames of the records.
pub open spec fn recorded(records: Seq<CertRecord>) -> Seq<String> {
    records.map_values(|r: CertRecord| r.name)
}

/// The rows of the certificate list: those of the root, then those of every other
/// known hostname in alphabetical order.
pub fn listed_certificates<K>(manager: &CertManager<K>, records: &Vec<CertRecord>) -> (r: Vec<
    ListedCertificate,
>)
    requires
        manager.wf(),
    ensures
        exists|list: Seq<Seq<char>>| #[trigger]
            is_listing(manager@, recorded(records@), list) && rows_of(r@) == listing_rows(
                list,
                records@,
            ),
{
    let mut stored: Vec<String> = Vec::new();
    let mut i: usize = 0;
    while i < records.len()
        invariant
            i <= records@.len(),
            stored@ == recorded(records@.take(i as int)),
        decreases records@.len() - i,
    {
        stored.push(records[i].name.clone());
        i += 1;
        assert(stored@ =~= recorded(records@.take(i as int)));
    }
    assert(records@.take(i as int) =~= records@);
    let names = listed_names(manager, &stored);
    let ghost list = text::texts(names@);
    let mut r: Vec<ListedCertificate> = Vec::new();
    assert(list.take(0) =~= Seq::<Seq<char>>::empty());
    assert(rows_of(r@) =~= listing_rows(list.take(0), records@));
    let mut k: usize = 0;
    while k < names.len()
        invariant
            k <= names@.len(),
            list == text::texts(names@),
            rows_of(r@) == listing_rows(list.take(k as int), records@),
        decreases names@.len() - k,
    {
        let ghost before = rows_of(r@);
        let ghost name = list[k as int];
        let mut held: bool = false;
        let mut at: usize = 0;
        assert(rows_of(r@) =~= before + certificate_rows(name, records@, 0));
        while at < records.len()
            invariant
                k < names@.len(),
                list == text::texts(names@),
                name == list[k as int],
                at <= records@.len(),
                rows_of(r@) == before + certificate_rows(name, records@, at as int),
                held == (certificate_rows(name, records@, at as int).len() > 0),
            decreases records@.len() - at,
        {
            let ghost so_far = rows_of(r@);
            if text::same(text::lowered(records[at].name.as_str()).as_str(), names[k].as_str()) {
                r.push(ListedCertificate { name: names[k].clone(), record: Some(at) });
                held = true;
                assert(rows_of(r@) =~= so_far.push(RowFacts { name, record: Some(at as int) }));
            }
            at += 1;
            assert(rows_of(r@) =~= before + certificate_rows(name, records@, at as int));
        }
        if !held {
            r.push(ListedCertificate { name: names[k].clone(), record: None });
            assert(rows_of(r@) =~= before.push(RowFacts { name, record: None }));
        }
        assert(rows_of(r@) =~= before + hostname_rows(name, records@));
        proof {
            assert(list.take(k + 1).drop_last() =~= list.take(k as int));
            assert(list.take(k + 1).last() == name);
        }
        k += 1;
    }
    assert(list.take(k as int) =~= list);
    r
}

proof fn row_of_record(name: Seq<char>, records: Seq<CertRecord>, n: int, i: int)
    requires
        0 <= i < n,
        text::lower(records[i].name@) == name,
    ensures
        certificate_rows(name, records, n).contains(RowFacts { name, record: Some(i) }),
    decreases n,
{
    let row = RowFacts { name, record: Some(i) };
    let rows = certificate_rows(name, records, n);
    if i == n - 1 {
        assert(rows.last() == row);
    } else {
        row_of_record(name, records, n - 1, i);
        let fewer = certificate_rows(name, records, n - 1);
        let j = choose|j: int| 0 <= j < fewer.len() && fewer[j] == row;
        assert(rows[j] == row);
    }
}

proof fn rows_of_hostname(list: Seq<Seq<char>>, records: Seq<CertRecord>, k: int, row: RowFacts)
    requires
        0 <= k < list.len(),
        hostname_rows(list[k], records).contains(row),
    ensures
        listing_rows(list, records).contains(row),
    decreases list.len(),
{
    let before = listing_rows(list.drop_last(), records);
    let rows = listing_rows(list, records);
    if k == list.len() - 1 {
        let own = hostname_rows(list[k], records);
        let j = choose|j: int| 0 <= j < own.len() && own[j] == row;
        assert(rows[before.len() + j] == row);
    } else {
        rows_of_hostname(list.drop_last(), records, k, row);
        let j = choose|j: int| 0 <= j < before.len() && before[j] == row;
        assert(rows[j] == row);
    }
}

/// Every record has its row in the certificate list.
pub proof fn every_certificate_is_listed<K>(
    m: ManagerFacts<K>,
    records: Seq<CertRecord>,
    list: Seq<Seq<char>>,
    i: int,
)
    requires
        is_listing(m, recorded(records), list),
        0 <= i < records.len(),
    ensures
        listing_rows(list, records).contains(
            RowFacts { name: text::lower(records[i].name@), record: Some(i) },
        ),
{
    let name = text::lower(records[i].name@);
    let stored = recorded(records);
    assert(lowered_names(stored)[i] == name);
    assert(m.known(stored).contains(name));
    let tail = list.subrange(1, list.len() as int);
    let k = if name == m.root {
        0
    } else {
        assert(tail.to_set().contains(name));
        let j = choose|j: int| 0 <= j < tail.len() && tail[j] == name;
        j + 1
    };
    assert(list[k] == name);
    row_of_record(name, records, records.len() as int, i);
    rows_of_hostname(list, records, k, RowFacts { name, record: Some(i) });
}

/// No two records are of one hostname.
pub open spec fn one_of_each(records: Seq<CertRecord>) -> bool {
    forall|i: int, j: int|
        0 <= i < j < records.len() ==> text::lower(#[trigger] records[i].name@) != text::lower(
            #[trigger] records[j].name@,
        )
}

proof fn one_row(name: Seq<char>, records: Seq<CertRecord>, n: int)
    requires
        one_of_each(records),
        0 <= n <= records.len(),
    ensures
        certificate_rows(name, records, n).len() <= 1,
        certificate_rows(name, records, n).len() == 1 ==> certificate_rows(name, records, n)[0].name
            == name,
        certificate_rows(name, records, n).len() == 1 ==> exists|i: int|
            0 <= i < n && text::lower(#[trigger] records[i].name@) == name,
    decreases n,
{
    if n > 0 {
        one_row(name, records, n - 1);
        if text::lower(records[n - 1].name@) == name {
            assert(certificate_rows(name, records, n - 1).len() == 0);
        }
    }
}

/// Where only the best certificate of each domain is recorded, the list has one row
/// for each hostname.
pub proof fn the_best_are_listed_once(list: Seq<Seq<char>>, records: Seq<CertRecord>)
    requires
        one_of_each(records),
    ensures
        listing_rows(list, records).map_values(|r: RowFacts| r.name) == list,
    decreases list.len(),
{
    let rows = listing_rows(list, records);
    if list.len() == 0 {
        assert(rows.map_values(|r: RowFacts| r.name) =~= list);
    } else {
        let fewer = listing_rows(list.drop_last(), records);
        the_best_are_listed_once(list.drop_last(), records);
        one_row(list.last(), records, records.len() as int);
        assert(fewer.map_values(|r: RowFacts| r.name).len() == fewer.len());
        assert(rows.map_values(|r: RowFacts| r.name) =~= fewer.map_values(
            |r: RowFacts| r.name,
        ).push(list.last()));
        assert(list =~= list.drop_last().push(list.last()));
    }
}

/// The hostname that a request is about, which may name a certificate by its ID: that
/// of the record that was found, else the one it names.
pub fn subject(target: String, record: &Option<CertRecord>) -> (r: String)
    ensures
        r@ == (match *record {
            Some(c) => text::lower(c.name@),
            None => target@,
        }),
{
    match record {
        Some(c) => text::lowered(c.name.as_str()),
        None => target,
    }
}

/// The expiry that is shown: that of the stored certificate, else that of the
/// state.
pub open spec fn shown_expiry(record: Option<CertRecord>, state: StateFacts) -> Option<i64> {
    match record {
        Some(r) => Some(r.not_after),
        None => state.expiry(),
    }
}

/// The ID that is shown: that of the stored certificate.
pub open spec fn shown_id(record: Option<CertRecord>) -> Option<i32> {
    match record {
        Some(r) => Some(r.id),
        None => None,
    }
}

/// The summary of a certificate in the list.
pub fn summarize<K>(
    manager: &CertManager<K>,
    name: &str,
    record: &Option<CertRecord>,
    last_event: Option<CertEventSummary>,
) -> (r: CertSummary)
    requires
        manager.wf(),
    ensures
        r.name@ == name@,
        r.state@ == manager@.status(name@).label(),
        r.not_after == shown_expiry(*record, manager@.status(name@)),
        r.active == manager@.is_active(name@),
        r.last_event == last_event,
        r.cert_id == shown_id(*record),
{
    let state = manager.status(name);
    CertSummary {
        name: name.to_owned(),
        state: state.label().to_owned(),
        not_after: match record {
            Some(r) => Some(r.not_after),
            None => state.not_after(),
        },
        active: manager.is_active(name),
        last_event,
        cert_id: match record {
            Some(r) => Some(r.id),
            None => None,
        },
    }
}

/// A hostname that has a certificate, or is to have one.
pub open spec fn is_known<K>(m: ManagerFacts<K>, target: Seq<char>, in_store: bool) -> bool {
    target == m.root || in_store || m.states.contains_key(target)
}

/// Answers `cert.status` for a hostname.
pub fn detail<K>(
    manager: &CertManager<K>,
    default_provider: &str,
    target: String,
    record: Option<CertRecord>,
    cert_events: Vec<CertEventSummary>,
) -> (r: Result<CertDetailResponse, ErrorResponse>)
    requires
        manager.wf(),
    ensures
        r is Ok == is_known(manager@, target@, record is Some),
        match r {
            Ok(d) => {
                &&& d.ok
                &&& d.name == target
                &&& d.state@ == manager@.status(target@)
                &&& d.not_before == (match record {
                    Some(c) => Some(c.not_before),
                    None => None,
                })
                &&& d.not_after == shown_expiry(record, manager@.status(target@))
                &&& text::opt(d.issuer) == (match record {
                    Some(c) => text::opt(c.issuer),
                    None => None,
                })
                &&& d.provider@ == (match record {
                    Some(c) => c.directory@,
                    None => default_provider@,
                })
                &&& d.active == manager@.is_active(target@)
                &&& d.last_active_at == (match record {
                    Some(c) => c.last_active_at,
                    None => None,
                })
                &&& d.cert_events == cert_events
                &&& d.cert_id == shown_id(record)
            },
            Err(e) => !e.ok && e.error@ == "Certificate for hostname '"@ + target@
                + "' not found"@,
        },
{
    if !text::same(target.as_str(), manager.root_domain()) && record.is_none() && !manager.tracks(
        target.as_str(),
    ) {
        return Err(
            ErrorResponse::new(
                text::cat3("Certificate for hostname '", target.as_str(), "' not found"),
            ),
        );
    }
    let state = manager.status(target.as_str());
    let active = manager.is_active(target.as_str());
    let held = state.not_after();
    Ok(
        match record {
            Some(c) => CertDetailResponse {
                ok: true,
                name: target,
                state,
                not_before: Some(c.not_before),
                not_after: Some(c.not_after),
                issuer: c.issuer,
                provider: c.directory,
                active,
                last_active_at: c.last_active_at,
                cert_events,
                cert_id: Some(c.id),
            },
            None => CertDetailResponse {
                ok: true,
                name: target,
                state,
                not_before: None,
                not_after: held,
                issuer: None,
                provider: default_provider.to_owned(),
                active,
                last_active_at: None,
                cert_events,
                cert_id: None,
            },
        },
    )
}

/// A state in which waiting ends.
pub open spec fn is_terminal(s: StateFacts) -> bool {
    s is Issued || s is Failed
}

fn terminal(s: &CertState) -> (r: bool)
    ensures
        r == is_terminal(s@),
{
    match s {
        CertState::Issued { .. } => true,
        CertState::Failed { .. } => true,
        _ => false,
    }
}

/// An event of a hostname in a state.
pub open spec fn reports(e: CertWaitEvent, name: Seq<char>, s: StateFacts) -> bool {
    &&& e.ok
    &&& e.name@ == name
    &&& e.state@ == s.label()
    &&& e.not_after == s.expiry()
    &&& text::opt(e.error) == (match s {
        StateFacts::Failed { error, .. } => Some(error),
        _ => None,
    })
}

fn wait_event(name: &str, state: &CertState) -> (r: CertWaitEvent)
    ensures
        reports(r, name@, state@),
{
    CertWaitEvent {
        ok: true,
        name: name.to_owned(),
        state: state.label().to_owned(),
        not_after: state.not_after(),
        error: match state {
            CertState::Failed { error, .. } => Some(error.clone()),
            _ => None,
        },
    }
}

/// A client that waits for a certificate.
pub struct WaitSession {
    target: String,
    timeout_s: u64,
}

/// What a waiting client learns of.
pub enum WaitSignal {
    /// A hostname changed its state.
    Change(String, CertState),
    /// No further changes can be followed.
    Closed,
    /// The time is up.
    TimedOut,
}

/// What a waiting client is sent.
pub enum WaitStep {
    /// Nothing; the wait goes on.
    Ignore,
    /// An event; the wait goes on.
    Send(CertWaitEvent),
    /// An event that ends the wait.
    SendLast(CertWaitEvent),
    /// An error that ends the wait.
    GiveUp(ErrorResponse),
    /// Nothing; the wait ends.
    End,
}

impl WaitSession {
    /// The hostname waited for.
    pub closed spec fn target(&self) -> Seq<char> {
        self.target@
    }

    /// The seconds the wait may last.
    pub closed spec fn limit(&self) -> u64 {
        self.timeout_s
    }

    /// Starts a wait with the state the hostname is in. An unknown hostname is
    /// refused.
    pub fn start<K>(manager: &CertManager<K>, target: String, in_store: bool, timeout_s: u64) -> (r:
        Result<(WaitSession, WaitStep), ErrorResponse>)
        requires
            manager.wf(),
        ensures
            r is Ok == is_known(manager@, target@, in_store),
            match r {
                Ok((session, step)) => {
                    let state = manager@.status(target@);
                    &&& session.target() == target@
                    &&& session.limit() == timeout_s
                    &&& if is_terminal(state) {
                        step is SendLast && reports(step->SendLast_0, target@, state)
                    } else {
                        step is Send && reports(step->Send_0, target@, state)
                    }
                },
                Err(e) => !e.ok && e.error@ == "Hostname '"@ + target@
                    + "' not found in certificate store"@,
            },
    {
        if !text::same(target.as_str(), manager.root_domain()) && !manager.tracks(target.as_str())
            && !in_store {
            return Err(
                ErrorResponse::new(
                    text::cat3("Hostname '", target.as_str(), "' not found in certificate store"),
                ),
            );
        }
        let state = manager.status(target.as_str());
        let event = wait_event(target.as_str(), &state);
        let step = if terminal(&state) {
            WaitStep::SendLast(event)
        } else {
            WaitStep::Send(event)
        };
        Ok((WaitSession { target, timeout_s }, step))
    }

    /// The nanoseconds that are left once so many have passed.
    pub fn remaining_nanos(&self, elapsed: u128) -> (r: Option<u128>)
        ensures
            r == (if elapsed >= self.limit() * 1_000_000_000 {
                None
            } else {
                Some((self.limit() * 1_000_000_000 - elapsed) as u128)
            }),
    {
        let total: u128 = self.timeout_s as u128 * 1_000_000_000;
        if elapsed >= total {
            None
        } else {
            Some(total - elapsed)
        }
    }

    /// Decides what the client is sent.
    pub fn on_signal(&self, signal: WaitSignal) -> (r: WaitStep)
        ensures
            match signal {
                WaitSignal::Change(name, state) => if name@ != self.target() {
                    r is Ignore
                } else if is_terminal(state@) {
                    r is SendLast && reports(r->SendLast_0, self.target(), state@)
                } else {
                    r is Send && reports(r->Send_0, self.target(), state@)
                },
                WaitSignal::Closed => r is End,
                WaitSignal::TimedOut => r is GiveUp && !r->GiveUp_0.ok && r->GiveUp_0.error@
                    == "Timed out waiting for certificate state transition"@,
            },
    {
        match signal {
            WaitSignal::Change(name, state) => {
                if !text::same(name.as_str(), self.target.as_str()) {
                    return WaitStep::Ignore;
                }
                let event = wait_event(self.target.as_str(), &state);
                if terminal(&state) {
                    WaitStep::SendLast(event)
                } else {
                    WaitStep::Send(event)
                }
            },
            WaitSignal::Closed => WaitStep::End,
            WaitSignal::TimedOut => WaitStep::GiveUp(
                ErrorResponse::new("Timed out waiting for certificate state transition".to_owned()),
            ),
        }
    }
}

/// The answer to a renewal that was refused.
pub fn renewal_error(e: &RenewError) -> (r: ErrorResponse)
    ensures
        !r.ok,
        r.error@ == e@.message(),
{
    ErrorResponse::new(e.message())
}

/// Renews a hostname on request; returns the hostname whose order is to be
/// started with the answer.
pub fn renew_one<K>(
    manager: &mut CertManager<K>,
    target: String,
    force: bool,
    in_store: Result<bool, String>,
    now: i64,
) -> (r: Result<(String, RenewResponse), ErrorResponse>)
    requires
        old(manager).wf(),
    ensures
        final(manager).wf(),
        ({
            let host = if target@ == "root"@ {
                old(manager)@.root
            } else {
                text::lower(target@)
            };
            match old(manager)@.renewal_refused(host, force, in_store, now) {
                Some(problem) => {
                    &&& r is Err
                    &&& !r->Err_0.ok
                    &&& r->Err_0.error@ == problem.message()
                    &&& final(manager)@ == old(manager)@
                },
                None => {
                    &&& r is Ok
                    &&& r->Ok_0.0@ == host
                    &&& r->Ok_0.1.ok
                    &&& text::texts(r->Ok_0.1.renewed@) == seq![target@]
                    &&& r->Ok_0.1.status@ == "queued"@
                    &&& r->Ok_0.1.skipped_inactive@.len() == 0
                    &&& final(manager)@ == old(manager)@.with_renewal_queued(host)
                },
            }
        }),
{
    match manager.renew_hostname(target.as_str(), force, in_store, now) {
        Ok(host) => {
            let mut renewed: Vec<String> = Vec::new();
            renewed.push(target);
            assert(text::texts(renewed@) =~= seq![target@]);
            Ok(
                (
                    host,
                    RenewResponse {
                        ok: true,
                        renewed,
                        status: "queued".to_owned(),
                        skipped_inactive: Vec::new(),
                    },
                ),
            )
        },
        Err(e) => Err(renewal_error(&e)),
    }
}

/// Answers `backup`, given the size of the file where one was written.
pub fn backup_response(path: String, outcome: Result<Option<u64>, String>) -> (r: Result<
    BackupResponse,
    ErrorResponse,
>)
    ensures
        match outcome {
            Ok(size) => r is Ok && r->Ok_0.ok && r->Ok_0.path == path && r->Ok_0.size == (
            match size {
                Some(n) => n,
                None => 0,
            }),
            Err(e) => r is Err && !r->Err_0.ok && r->Err_0.error@ == "Backup failed: "@ + e@,
        },
{
    match outcome {
        Ok(size) => Ok(
            BackupResponse {
                ok: true,
                path,
                size: match size {
                    Some(n) => n,
                    None => 0,
                },
            },
        ),
        Err(e) => Err(ErrorResponse::new(text::cat2("Backup failed: ", e.as_str()))),
    }
}

/// Answers `shutdown`.
pub fn shutdown_response() -> (r: ShutdownResponse)
    ensures
        r.ok,
        r.message@ == "Server shutting down"@,
{
    ShutdownResponse { ok: true, message: "Server shutting down".to_owned() }
}

/// Exactly the six verbs are accepted: a request gets past its envelope with
/// version 1 and one of them, and with nothing else.
pub proof fn only_known_verbs_pass(doc: DocumentFacts)
    ensures
        envelope(Ok(doc)) is Ok <==> doc.member("v"@) == Some(JsonFacts::Number(Some(1u64))) && (
        exists|cmd: Seq<char>|
            doc.member("cmd"@) == Some(JsonFacts::Text(cmd)) && #[trigger] verb_of(cmd) is Some),
        forall|cmd: Seq<char>|
            envelope(Ok(doc)) is Ok && doc.member("cmd"@) == Some(JsonFacts::Text(cmd)) ==> Some(
                envelope(Ok(doc))->Ok_0,
            ) == #[trigger] verb_of(cmd),
{
}

/// Every known hostname is listed once, the root first.
pub proof fn listing_is_complete<K>(m: ManagerFacts<K>, stored: Seq<String>, list: Seq<Seq<char>>)
    requires
        is_listing(m, stored, list),
    ensures
        list.to_set() == m.known(stored),
        list.no_duplicates(),
{
    let tail = list.subrange(1, list.len() as int);
    names::ascending_is_distinct(tail);
    assert forall|k: Seq<char>| list.to_set().contains(k) == m.known(stored).contains(k) by {
        if list.contains(k) {
            let i = choose|i: int| 0 <= i < list.len() && list[i] == k;
            if i > 0 {
                assert(tail[i - 1] == k);
                assert(tail.to_set().contains(k));
            }
        }
        if m.known(stored).contains(k) {
            if k == m.root {
                assert(list[0] == k);
            } else {
                assert(tail.to_set().contains(k));
                let i = choose|i: int| 0 <= i < tail.len() && tail[i] == k;
                assert(list[i + 1] == k);
            }
        }
    }
    assert(list.to_set() =~= m.known(stored));
    assert forall|i: int, j: int| 0 <= i < j < list.len() implies list[i] != list[j] by {
        if i == 0 {
            assert(tail.to_set().contains(tail[j - 1]));
        } else {
            assert(tail[i - 1] != tail[j - 1]);
        }
    }
}

} // verus!
