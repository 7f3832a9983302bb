//! Self-reachability verification.
//!
//! Temporary listeners on the target ports (80 and 443) are connected back to
//! via the resolved public IP addresses, and a random challenge token proves
//! that incoming public traffic lands on this machine.
use super::planner::PortReachability;
use crate::net::{IpAddress, IpFacts};
use crate::number;
use crate::text;
use vstd::prelude::*;

verus! {

/// How many random bytes make a challenge.
pub const CHALLENGE_BYTES: usize = 16;

/// How many seconds a probe waits for a connection, and for an answer.
pub const PROBE_TIMEOUT_SECS: u64 = 5;

/// A port as the kernel's socket tables show it: four hexadecimal digits in
/// upper case.
pub open spec fn port_hex(port: u16) -> Seq<char> {
    seq![
        upper_hex(port as nat / 4096),
        upper_hex(port as nat / 256 % 16),
        upper_hex(port as nat / 16 % 16),
        upper_hex(port as nat % 16),
    ]
}

/// A hexadecimal digit in upper case.
pub open spec fn upper_hex(n: nat) -> char {
    if n < 10 {
        ((0x30 + n) as u32) as char
    } else {
        ((0x41 + (n - 10)) as u32) as char
    }
}

fn upper_hex_char(n: u8) -> (c: char)
    requires
        n < 16,
    ensures
        c == upper_hex(n as nat),
{
    if n < 10 {
        (0x30 + n) as char
    } else {
        (0x41 + (n - 10)) as char
    }
}

fn port_hex_of(port: u16) -> (r: String)
    ensures
        r@ == port_hex(port),
{
    let mut r = String::new();
    r.push(upper_hex_char((port / 4096) as u8));
    r.push(upper_hex_char((port / 256 % 16) as u8));
    r.push(upper_hex_char((port / 16 % 16) as u8));
    r.push(upper_hex_char((port % 16) as u8));
    assert(r@ =~= port_hex(port));
    r
}

/// The inode that a line of a socket table names, where it is a socket that
/// listens on the port.
pub open spec fn listening_inode(line: Seq<char>, port: u16) -> Option<nat> {
    let fields = text::words_of(line);
    if fields.len() >= 10 && fields[3] == "0A"@ && (":"@ + port_hex(port)).is_suffix_of(fields[1]) {
        number::parsed_unsigned(fields[9], u64::MAX as nat)
    } else {
        None
    }
}

fn inode_of_line(line: &str, port: u16) -> (r: Option<u64>)
    ensures
        match r {
            Some(n) => listening_inode(line@, port) == Some(n as nat),
            None => listening_inode(line@, port) is None,
        },
{
    let fields = text::words(line);
    let ghost all = text::words_of(line@);
    if fields.len() < 10 {
        return None;
    }
    assert(all[1] == fields@[1]@ && all[3] == fields@[3]@ && all[9] == fields@[9]@);
    let hex = port_hex_of(port);
    let suffix = text::cat2(":", hex.as_str());
    // State 0A is TCP_LISTEN.
    if text::same(fields[3].as_str(), "0A") && text::ends_with(
        fields[1].as_str(),
        suffix.as_str(),
    ) {
        number::parse_unsigned(fields[9].as_str(), u64::MAX)
    } else {
        None
    }
}

/// A socket table, without its heading, shows a listening socket.
pub open spec fn table_shows(table: Seq<char>, port: u16, inode: nat) -> bool {
    let lines = text::split_on(table, '\n');
    exists|i: int| 1 <= i < lines.len() && listening_inode(#[trigger] lines[i], port) == Some(inode)
}

/// Some socket table shows a listening socket.
pub open spec fn is_listening(tables: Seq<Seq<char>>, port: u16, inode: nat) -> bool {
    exists|t: int| 0 <= t < tables.len() && table_shows(#[trigger] tables[t], port, inode)
}

/// The inodes of the sockets that listen on the port.
pub open spec fn listening(tables: Seq<Seq<char>>, port: u16) -> Set<nat> {
    Set::new(|n: nat| is_listening(tables, port, n))
}

/// The inodes as numbers.
pub open spec fn inode_list(v: Seq<u64>) -> Set<nat> {
    v.map_values(|n: u64| n as nat).to_set()
}

fn add_inodes(table: &str, port: u16, found: &mut Vec<u64>)
    ensures
        forall|n: nat| #[trigger]
            inode_list(final(found)@).contains(n) <==> inode_list(old(found)@).contains(n)
                || table_shows(table@, port, n),
{
    let lines = text::split(table, '\n');
    let ghost all = text::split_on(table@, '\n');
    let ghost before = found@;
    let mut i: usize = 1;
    while i < lines.len()
        invariant
            all == text::texts(lines@),
            all == text::split_on(table@, '\n'),
            1 <= i,
            i <= lines@.len() || i == 1,
            forall|n: nat| #[trigger]
                inode_list(found@).contains(n) <==> inode_list(before).contains(n) || exists|k: int|
                    1 <= k < i && k < all.len() && listening_inode(#[trigger] all[k], port) == Some(
                        n,
                    ),
        decreases lines@.len() - i,
    {
        let ghost earlier = found@;
        assert(all[i as int] == lines@[i as int]@);
        if let Some(inode) = inode_of_line(lines[i].as_str(), port) {
            found.push(inode);
            proof {
                let now = found@.map_values(|n: u64| n as nat);
                let was = earlier.map_values(|n: u64| n as nat);
                assert(now =~= was.push(inode as nat));
                assert forall|n: nat| #[trigger] inode_list(found@).contains(n) <==> inode_list(
                    earlier,
                ).contains(n) || n == inode by {
                    if now.contains(n) {
                        let k = choose|k: int| 0 <= k < now.len() && now[k] == n;
                        if k < was.len() {
                            assert(was[k] == n);
                        }
                    }
                    if was.contains(n) {
                        let k = choose|k: int| 0 <= k < was.len() && was[k] == n;
                        assert(now[k] == n);
                    }
                    assert(now[was.len() as int] == inode);
                }
            }
        }
        i += 1;
    }
}

/// The inodes of the sockets that listen on the port.
pub fn find_listening_inodes(port: u16, tables: &Vec<String>) -> (r: Vec<u64>)
    ensures
        inode_list(r@) == listening(text::texts(tables@), port),
{
    let ghost all = text::texts(tables@);
    let mut found: Vec<u64> = Vec::new();
    let mut i: usize = 0;
    while i < tables.len()
        invariant
            all == text::texts(tables@),
            i <= tables@.len(),
            forall|n: nat| #[trigger]
                inode_list(found@).contains(n) <==> exists|t: int|
                    0 <= t < i && table_shows(#[trigger] all[t], port, n),
        decreases tables@.len() - i,
    {
        assert(all[i as int] == tables@[i as int]@);
        add_inodes(tables[i].as_str(), port, &mut found);
        i += 1;
    }
    assert(inode_list(found@) =~= listening(all, port));
    found
}

/// A process, as its directory under `/proc` shows it.
pub struct ProcessEntry {
    /// The name of the directory, where it is text.
    pub name: Option<String>,
    /// What the process's file descriptors link to.
    pub links: Vec<String>,
    /// The command name, where it can be read.
    pub command: Option<String>,
}

/// The inode in a link of the form `socket:[inode]`.
pub open spec fn socket_inode(link: Seq<char>) -> Option<nat> {
    if "socket:["@.is_prefix_of(link) && link.len() > 8 && link.last() == ']' {
        number::parsed_unsigned(link.subrange(8, link.len() - 1), u64::MAX as nat)
    } else {
        None
    }
}

fn inode_of_link(link: &str) -> (r: Option<u64>)
    ensures
        match r {
            Some(n) => socket_inode(link@) == Some(n as nat),
            None => socket_inode(link@) is None,
        },
{
    proof {
        reveal_strlit("socket:[");
        reveal_strlit("]");
    }
    let n: usize = link.unicode_len();
    let ends = text::ends_with(link, "]");
    proof {
        if "]"@.is_suffix_of(link@) {
            assert(link@.subrange(link@.len() - 1, link@.len() as int) == "]"@);
            assert(link@.last() == link@.subrange(link@.len() - 1, link@.len() as int)[0]);
        }
        if link@.len() > 0 && link@.last() == ']' {
            assert(link@.subrange(link@.len() - 1, link@.len() as int) =~= "]"@);
        }
    }
    if text::starts_with(link, "socket:[") && n > 8 && ends {
        number::parse_unsigned(link.substring_char(8, n - 1), u64::MAX)
    } else {
        None
    }
}

/// The process holds one of the sockets.
pub open spec fn holds_socket(links: Seq<Seq<char>>, inodes: Set<nat>) -> bool {
    exists|i: int|
        0 <= i < links.len() && (socket_inode(#[trigger] links[i]) matches Some(n) && inodes.contains(
            n,
        ))
}

/// The process id that an entry names.
pub open spec fn pid_of(e: ProcessEntry) -> Option<nat> {
    match e.name {
        Some(name) => number::parsed_unsigned(name@, u32::MAX as nat),
        None => None,
    }
}

/// The entry is a process that holds one of the sockets.
pub open spec fn occupies(e: ProcessEntry, inodes: Set<nat>) -> bool {
    pid_of(e) is Some && holds_socket(text::texts(e.links@), inodes)
}

/// The process id and the command name of an entry.
pub open spec fn process_of(e: ProcessEntry) -> (nat, Seq<char>) {
    (
        pid_of(e)->0,
        match e.command {
            Some(command) => text::trimmed(command@),
            None => "unknown"@,
        },
    )
}

/// The first process that holds one of the sockets. The search ends at an entry
/// whose name is no text.
pub open spec fn occupant(entries: Seq<ProcessEntry>, inodes: Set<nat>) -> Option<(nat, Seq<char>)>
    decreases entries.len(),
{
    if entries.len() == 0 || entries[0].name is None {
        None
    } else if occupies(entries[0], inodes) {
        Some(process_of(entries[0]))
    } else {
        occupant(entries.subrange(1, entries.len() as int), inodes)
    }
}

fn has_inode(inodes: &Vec<u64>, inode: u64) -> (r: bool)
    ensures
        r == inode_list(inodes@).contains(inode as nat),
{
    let ghost all = inodes@.map_values(|n: u64| n as nat);
    let mut i: usize = 0;
    while i < inodes.len()
        invariant
            all == inodes@.map_values(|n: u64| n as nat),
            i <= inodes@.len(),
            forall|j: int| 0 <= j < i ==> all[j] != inode,
        decreases inodes@.len() - i,
    {
        assert(all[i as int] == inodes@[i as int]);
        if inodes[i] == inode {
            assert(all.contains(inode as nat));
            return true;
        }
        i += 1;
    }
    assert(!all.contains(inode as nat));
    false
}

fn holds_any(links: &Vec<String>, inodes: &Vec<u64>) -> (r: bool)
    ensures
        r == holds_socket(text::texts(links@), inode_list(inodes@)),
{
    let ghost all = text::texts(links@);
    let mut i: usize = 0;
    while i < links.len()
        invariant
            all == text::texts(links@),
            i <= links@.len(),
            forall|j: int|
                0 <= j < i ==> !(socket_inode(#[trigger] all[j]) matches Some(n) && inode_list(
                    inodes@,
                ).contains(n)),
        decreases links@.len() - i,
    {
        assert(all[i as int] == links@[i as int]@);
        if let Some(inode) = inode_of_link(links[i].as_str()) {
            if has_inode(inodes, inode) {
                return true;
            }
        }
        i += 1;
    }
    false
}

/// Identifies the process ID and command name listening on the specified port,
/// from the kernel's socket tables and the entries of `/proc`.
pub fn find_occupying_process(port: u16, tables: &Vec<String>, entries: &Vec<ProcessEntry>) -> (r:
    Option<(u32, String)>)
    ensures
        (match r {
            Some((pid, command)) => Some((pid as nat, command@)),
            None => None,
        }) == occupant(
            entries@,
            listening(text::texts(tables@), port),
        ),
{
    let inodes = find_listening_inodes(port, tables);
    let ghost set = listening(text::texts(tables@), port);
    let mut i: usize = 0;
    assert(entries@.subrange(0, entries@.len() as int) =~= entries@);
    while i < entries.len()
        invariant
            i <= entries@.len(),
            set == listening(text::texts(tables@), port),
            inode_list(inodes@) == set,
            occupant(entries@, set) == occupant(
                entries@.subrange(i as int, entries@.len() as int),
                set,
            ),
        decreases entries@.len() - i,
    {
        let ghost rest = entries@.subrange(i as int, entries@.len() as int);
        assert(rest[0] == entries@[i as int]);
        assert(rest.subrange(1, rest.len() as int) =~= entries@.subrange(
            i + 1,
            entries@.len() as int,
        ));
        let name = match &entries[i].name {
            Some(name) => name,
            None => return None,
        };
        if let Some(pid) = number::parse_unsigned(name.as_str(), u32::MAX as u64) {
            if holds_any(&entries[i].links, &inodes) {
                let command = match &entries[i].command {
                    Some(command) => text::trim(command.as_str()).to_owned(),
                    None => "unknown".to_owned(),
                };
                return Some((pid as u32, command));
            }
        }
        i += 1;
    }
    None
}

/// Why a port cannot be bound: the process that occupies it, or else the cause.
pub fn bind_failure(port: u16, occupant: Option<(u32, String)>, cause: &str) -> (r: String)
    ensures
        r@ == (match occupant {
            Some((pid, command)) => "port "@ + number::decimal(port as nat)
                + " is occupied by PID "@ + number::decimal(pid as nat) + " ('"@ + command@ + "')"@,
            None => "port "@ + number::decimal(port as nat) + " cannot be bound: "@ + cause@,
        }),
{
    let n = number::decimal_of(port as u64);
    match occupant {
        Some((pid, command)) => {
            let id = number::decimal_of(pid as u64);
            text::cat7(
                "port ",
                n.as_str(),
                " is occupied by PID ",
                id.as_str(),
                " ('",
                command.as_str(),
                "')",
            )
        },
        None => text::cat4("port ", n.as_str(), " cannot be bound: ", cause),
    }
}

/// The challenge of a token.
pub fn challenge_of(token: &str) -> (r: String)
    ensures
        r@ == "weaver-reachability-"@ + token@,
{
    text::cat2("weaver-reachability-", token)
}

/// What a probe sends.
pub fn probe_payload(challenge: &str) -> (r: String)
    ensures
        r@ == "WEAVER-PROBE "@ + challenge@ + "\r\n"@,
{
    text::cat3("WEAVER-PROBE ", challenge, "\r\n")
}

/// What the responder answers: nothing to a message without the challenge.
pub fn respond(message: &str, challenge: &str) -> (r: Option<String>)
    ensures
        text::opt(r) == (if text::has(message@, challenge@) {
            Some("WEAVER-CONFIRM "@ + challenge@ + "\r\n"@)
        } else {
            None
        }),
{
    if text::contains(message, challenge) {
        Some(text::cat3("WEAVER-CONFIRM ", challenge, "\r\n"))
    } else {
        None
    }
}

/// How a probe of one address and port went.
pub enum ProbeOutcome {
    /// The connection failed.
    ConnectFailed(String),
    /// The connection was not made in time.
    ConnectTimeout,
    /// The challenge could not be sent.
    SendFailed(String),
    /// The answer could not be read.
    ReadFailed(String),
    /// No answer came in time.
    ReadTimeout,
    /// An answer came.
    Answer(String),
}

/// Why a probe did not reach this machine.
pub open spec fn probe_problem(
    outcome: ProbeOutcome,
    target: Seq<char>,
    challenge: Seq<char>,
) -> Option<Seq<char>> {
    match outcome {
        ProbeOutcome::ConnectFailed(e) => Some(
            "connection refused/failed to "@ + target + ": "@ + e@,
        ),
        ProbeOutcome::ConnectTimeout => Some("connection timed out to "@ + target),
        ProbeOutcome::SendFailed(e) => Some(
            "failed to send challenge probe to "@ + target + ": "@ + e@,
        ),
        ProbeOutcome::ReadFailed(e) => Some(
            "failed to read challenge response from "@ + target + ": "@ + e@,
        ),
        ProbeOutcome::ReadTimeout => Some(
            "timed out waiting for challenge response from "@ + target,
        ),
        ProbeOutcome::Answer(answer) => if text::has(answer@, "WEAVER-CONFIRM "@ + challenge) {
            None
        } else {
            Some(
                "response from "@ + target
                    + " did not contain valid self-challenge confirmation"@,
            )
        },
    }
}

/// Judges the probe of one address and port.
pub fn judge_probe(outcome: &ProbeOutcome, target: &str, challenge: &str) -> (r: Result<(), String>)
    ensures
        match probe_problem(*outcome, target@, challenge@) {
            None => r is Ok,
            Some(why) => r matches Err(e) && e@ == why,
        },
{
    match outcome {
        ProbeOutcome::ConnectFailed(e) => Err(
            text::cat4("connection refused/failed to ", target, ": ", e.as_str()),
        ),
        ProbeOutcome::ConnectTimeout => Err(text::cat2("connection timed out to ", target)),
        ProbeOutcome::SendFailed(e) => Err(
            text::cat4("failed to send challenge probe to ", target, ": ", e.as_str()),
        ),
        ProbeOutcome::ReadFailed(e) => Err(
            text::cat4("failed to read challenge response from ", target, ": ", e.as_str()),
        ),
        ProbeOutcome::ReadTimeout => Err(
            text::cat2("timed out waiting for challenge response from ", target),
        ),
        ProbeOutcome::Answer(answer) => {
            let expected = text::cat2("WEAVER-CONFIRM ", challenge);
            if text::contains(answer.as_str(), expected.as_str()) {
                Ok(())
            } else {
                Err(
                    text::cat3(
                        "response from ",
                        target,
                        " did not contain valid self-challenge confirmation",
                    ),
                )
            }
        },
    }
}

/// What is known before any probe: there are no addresses, or a port could not
/// be bound.
pub open spec fn known_without_probing(
    addresses: nat,
    bind_80: Option<Seq<char>>,
    bind_443: Option<Seq<char>>,
) -> Option<(Seq<char>, Seq<char>)> {
    if addresses == 0 {
        Some(("no public IPs provided"@, "no public IPs provided"@))
    } else if bind_80 is Some {
        Some(
            (
                "failed to bind port 80: "@ + bind_80->0,
                "skipped due to port 80 bind failure"@,
            ),
        )
    } else if bind_443 is Some {
        Some(
            (
                "skipped due to port 443 bind failure"@,
                "failed to bind port 443: "@ + bind_443->0,
            ),
        )
    } else {
        None
    }
}

/// The result of both ports where nothing needs to be probed.
pub fn without_probing(addresses: usize, bind_80: Option<&str>, bind_443: Option<&str>) -> (r:
    Option<(PortReachability, PortReachability)>)
    ensures
        match known_without_probing(
            addresses as nat,
            crate::server::listener::view_of(bind_80),
            crate::server::listener::view_of(bind_443),
        ) {
            Some((a, b)) => {
                &&& r matches Some((PortReachability::Failed(x), PortReachability::Failed(y)))
                &&& x@ == a
                &&& y@ == b
            },
            None => r is None,
        },
{
    if addresses == 0 {
        return Some(
            (
                PortReachability::Failed("no public IPs provided".to_owned()),
                PortReachability::Failed("no public IPs provided".to_owned()),
            ),
        );
    }
    if let Some(e) = bind_80 {
        return Some(
            (
                PortReachability::Failed(text::cat2("failed to bind port 80: ", e)),
                PortReachability::Failed("skipped due to port 80 bind failure".to_owned()),
            ),
        );
    }
    if let Some(e) = bind_443 {
        return Some(
            (
                PortReachability::Failed("skipped due to port 443 bind failure".to_owned()),
                PortReachability::Failed(text::cat2("failed to bind port 443: ", e)),
            ),
        );
    }
    None
}

/// The probes of one port, one address after the other.
pub struct PortCheck {
    addresses: usize,
    done: usize,
    failure: Option<String>,
}

/// How far the probes of a port are.
pub struct CheckFacts {
    pub addresses: nat,
    pub done: nat,
    pub failure: Option<Seq<char>>,
}

impl CheckFacts {
    /// The number of the address that is to be probed next: none after a
    /// failure.
    pub open spec fn next(self) -> Option<nat> {
        if self.failure is None && self.done < self.addresses {
            Some(self.done)
        } else {
            None
        }
    }
}

impl View for PortCheck {
    type V = CheckFacts;

    closed spec fn view(&self) -> CheckFacts {
        CheckFacts {
            addresses: self.addresses as nat,
            done: self.done as nat,
            failure: text::opt(self.failure),
        }
    }
}

impl PortCheck {
    /// Nothing has been probed.
    pub fn new(addresses: usize) -> (r: Self)
        ensures
            r@ == (CheckFacts { addresses: addresses as nat, done: 0, failure: None }),
    {
        PortCheck { addresses, done: 0, failure: None }
    }

    /// The number of the address that is to be probed next.
    pub fn next(&self) -> (r: Option<usize>)
        ensures
            match r {
                Some(i) => self@.next() == Some(i as nat),
                None => self@.next() is None,
            },
    {
        if self.failure.is_none() && self.done < self.addresses {
            Some(self.done)
        } else {
            None
        }
    }

    /// Takes the result of a probe.
    pub fn take(&mut self, result: Result<(), String>)
        requires
            old(self)@.next() is Some,
        ensures
            final(self)@ == (CheckFacts {
                addresses: old(self)@.addresses,
                done: old(self)@.done + 1,
                failure: match result {
                    Ok(_) => None,
                    Err(e) => Some(e@),
                },
            }),
    {
        self.done = self.done + 1;
        match result {
            Ok(_) => {},
            Err(e) => {
                self.failure = Some(e);
            },
        }
    }

    /// The result of the port: the first failure, or that every address reached
    /// this machine.
    pub fn result(self) -> (r: PortReachability)
        requires
            self@.next() is None,
        ensures
            match self@.failure {
                Some(why) => r matches PortReachability::Failed(e) && e@ == why,
                None => r is ReachedSelf && self@.done >= self@.addresses,
            },
    {
        match self.failure {
            Some(why) => PortReachability::Failed(why),
            None => PortReachability::ReachedSelf,
        }
    }
}

/// The responder's answer to a probe is the confirmation the probe looks for.
pub proof fn own_answer_confirms(challenge: Seq<char>, target: Seq<char>, answer: ProbeOutcome)
    requires
        answer matches ProbeOutcome::Answer(s) && s@ == "WEAVER-CONFIRM "@ + challenge + "\r\n"@,
    ensures
        text::has("WEAVER-PROBE "@ + challenge + "\r\n"@, challenge),
        probe_problem(answer, target, challenge) is None,
{
    let sent = "WEAVER-PROBE "@ + challenge + "\r\n"@;
    let at = "WEAVER-PROBE "@.len() as int;
    assert(sent.subrange(at, at + challenge.len()) =~= challenge);
    assert(text::stands_at(sent, challenge, at));
    let expected = "WEAVER-CONFIRM "@ + challenge;
    let got = expected + "\r\n"@;
    assert(got.subrange(0, expected.len() as int) =~= expected);
    assert(text::stands_at(got, expected, 0));
}

/// The text of an address and a port, an IPv6 address in brackets.
pub open spec fn target_text(ip: IpFacts, port: u16) -> Seq<char> {
    match ip {
        IpFacts::V4(_) => ip.text() + ":"@ + number::decimal(port as nat),
        IpFacts::V6(_) => "["@ + ip.text() + "]:"@ + number::decimal(port as nat),
    }
}

/// The text of an address and a port.
pub fn target_of(ip: &IpAddress, port: u16) -> (r: String)
    ensures
        r@ == target_text(ip@, port),
{
    let shown = ip.to_text();
    let n = number::decimal_of(port as u64);
    match ip {
        IpAddress::V4(_) => text::cat3(shown.as_str(), ":", n.as_str()),
        IpAddress::V6(_) => text::cat4("[", shown.as_str(), "]:", n.as_str()),
    }
}

} // verus!
