//! Systemd unit file templates and rendering helpers.
//!
//! Provides templates for `weaver-server.socket` and `weaver-server.service`.
//! The socket unit binds ports 80 and 443 with systemd ownership so the service
//! process runs without requiring privileged net bind capabilities.
use crate::text;
use vstd::prelude::*;

verus! {

/// Static content of the `weaver-server.socket` unit.
pub const SOCKET_UNIT_TEMPLATE: &'static str =
    "# weaver-server.socket — systemd owns the ports; the service never needs capabilities
[Unit]
Description=Tunnel Weaver relay sockets

[Socket]
ListenStream=[::]:80
ListenStream=[::]:443
BindIPv6Only=both
NoDelay=true
Backlog=1024
Service=weaver-server.service

[Install]
WantedBy=sockets.target
";

/// Renders the `weaver-server.socket` unit content.
pub fn render_socket_unit() -> (r: String)
    ensures
        r@ == SOCKET_UNIT_TEMPLATE@,
{
    SOCKET_UNIT_TEMPLATE.to_owned()
}

/// Parameters for rendering the `weaver-server.service` systemd unit.
#[derive(Debug, Clone, PartialEq, Eq)]
pub struct ServiceUnitParams<'a> {
    /// Installation directory prefix where the `weaver-server` binary resides.
    pub prefix: &'a str,
    /// Path to the SQLite state database.
    pub db_path: &'a str,
    /// Dedicated system user and group name under which the service executes.
    pub user: &'a str,
}

impl Default for ServiceUnitParams<'static> {
    fn default() -> (r: Self)
        ensures
            r.prefix@ == "/usr/local/bin"@,
            r.db_path@ == "/var/lib/weaver/weaver.db"@,
            r.user@ == "weaver"@,
    {
        ServiceUnitParams {
            prefix: "/usr/local/bin",
            db_path: "/var/lib/weaver/weaver.db",
            user: "weaver",
        }
    }
}

/// The lines of the service unit before the user.
pub open spec fn head_lines() -> Seq<Seq<char>> {
    seq![
        "# weaver-server.service"@,
        "[Unit]"@,
        "Description=Tunnel Weaver relay"@,
        "Requires=weaver-server.socket"@,
        "After=network-online.target weaver-server.socket"@,
        "Wants=network-online.target"@,
        ""@,
        "[Service]"@,
        "Type=notify"@,
    ]
}

/// The lines of the service unit behind the command.
pub open spec fn tail_lines() -> Seq<Seq<char>> {
    seq![
        "Restart=always"@,
        "RestartSec=2"@,
        "RuntimeDirectory=weaver"@,
        "RuntimeDirectoryMode=0750"@,
        "StateDirectory=weaver"@,
        "CapabilityBoundingSet="@,
        "NoNewPrivileges=yes"@,
        "ProtectSystem=strict"@,
        "ProtectHome=yes"@,
        "PrivateTmp=yes"@,
        "PrivateDevices=yes"@,
        "ProtectKernelTunables=yes"@,
        "ProtectKernelModules=yes"@,
        "ProtectControlGroups=yes"@,
        "RestrictAddressFamilies=AF_INET AF_INET6 AF_UNIX"@,
        "RestrictNamespaces=yes"@,
        "LockPersonality=yes"@,
        "MemoryDenyWriteExecute=yes"@,
        "SystemCallFilter=@system-service"@,
        "SystemCallArchitectures=native"@,
        "ReadWritePaths=/var/lib/weaver"@,
        "LimitNOFILE=65536"@,
        ""@,
        "[Install]"@,
        "WantedBy=multi-user.target"@,
    ]
}

/// The lines of the service unit that name the user, the group and the command.
pub open spec fn set_lines(prefix: Seq<char>, db: Seq<char>, user: Seq<char>) -> Seq<Seq<char>> {
    seq![
        "User="@ + user,
        "Group="@ + user,
        "ExecStart="@ + text::without_trailing(prefix, '/') + "/weaver-server run --db "@ + db,
    ]
}

/// The lines of the service unit of a prefix, a database path and a user.
pub open spec fn service_lines(prefix: Seq<char>, db: Seq<char>, user: Seq<char>) -> Seq<
    Seq<char>,
> {
    head_lines() + set_lines(prefix, db, user) + tail_lines()
}

/// A text of lines, each with its end.
pub open spec fn unit_text(lines: Seq<Seq<char>>) -> Seq<char>
    decreases lines.len(),
{
    if lines.len() == 0 {
        Seq::empty()
    } else {
        lines[0] + seq!['\n'] + unit_text(lines.subrange(1, lines.len() as int))
    }
}

/// The service unit of a prefix, a database path and a user.
pub open spec fn service_unit(prefix: Seq<char>, db: Seq<char>, user: Seq<char>) -> Seq<char> {
    unit_text(service_lines(prefix, db, user))
}

fn push_head(lines: &mut Vec<String>)
    ensures
        text::texts(final(lines)@) == text::texts(old(lines)@) + head_lines(),
{
    let ghost before = text::texts(lines@);
    lines.push("# weaver-server.service".to_owned());
    lines.push("[Unit]".to_owned());
    lines.push("Description=Tunnel Weaver relay".to_owned());
    lines.push("Requires=weaver-server.socket".to_owned());
    lines.push("After=network-online.target weaver-server.socket".to_owned());
    lines.push("Wants=network-online.target".to_owned());
    lines.push("".to_owned());
    lines.push("[Service]".to_owned());
    lines.push("Type=notify".to_owned());
    assert(text::texts(lines@) =~= before + head_lines());
}

fn push_tail(lines: &mut Vec<String>)
    ensures
        text::texts(final(lines)@) == text::texts(old(lines)@) + tail_lines(),
{
    let ghost before = text::texts(lines@);
    lines.push("Restart=always".to_owned());
    lines.push("RestartSec=2".to_owned());
    lines.push("RuntimeDirectory=weaver".to_owned());
    lines.push("RuntimeDirectoryMode=0750".to_owned());
    lines.push("StateDirectory=weaver".to_owned());
    lines.push("CapabilityBoundingSet=".to_owned());
    lines.push("NoNewPrivileges=yes".to_owned());
    lines.push("ProtectSystem=strict".to_owned());
    lines.push("ProtectHome=yes".to_owned());
    lines.push("PrivateTmp=yes".to_owned());
    lines.push("PrivateDevices=yes".to_owned());
    lines.push("ProtectKernelTunables=yes".to_owned());
    lines.push("ProtectKernelModules=yes".to_owned());
    lines.push("ProtectControlGroups=yes".to_owned());
    lines.push("RestrictAddressFamilies=AF_INET AF_INET6 AF_UNIX".to_owned());
    lines.push("RestrictNamespaces=yes".to_owned());
    lines.push("LockPersonality=yes".to_owned());
    lines.push("MemoryDenyWriteExecute=yes".to_owned());
    lines.push("SystemCallFilter=@system-service".to_owned());
    lines.push("SystemCallArchitectures=native".to_owned());
    lines.push("ReadWritePaths=/var/lib/weaver".to_owned());
    lines.push("LimitNOFILE=65536".to_owned());
    lines.push("".to_owned());
    lines.push("[Install]".to_owned());
    lines.push("WantedBy=multi-user.target".to_owned());
    assert(text::texts(lines@) =~= before + tail_lines());
}

fn write_lines(lines: &Vec<String>) -> (r: String)
    ensures
        r@ == unit_text(text::texts(lines@)),
{
    let ghost all = text::texts(lines@);
    let mut r = String::new();
    let mut i: usize = 0;
    assert(all.subrange(0, all.len() as int) == all);
    while i < lines.len()
        invariant
            i <= lines@.len(),
            all == text::texts(lines@),
            unit_text(all) == r@ + unit_text(all.subrange(i as int, all.len() as int)),
        decreases lines@.len() - i,
    {
        let ghost rest = all.subrange(i as int, all.len() as int);
        let ghost done = r@;
        r.append(lines[i].as_str());
        r.push('\n');
        proof {
            assert(rest[0] == lines@[i as int]@);
            assert(rest.subrange(1, rest.len() as int) == all.subrange(i + 1, all.len() as int));
            assert(r@ =~= done + (rest[0] + seq!['\n']));
            assert(done + unit_text(rest) =~= r@ + unit_text(
                rest.subrange(1, rest.len() as int),
            ));
        }
        i += 1;
    }
    r
}

/// Renders the `weaver-server.service` unit using the provided parameters.
pub fn render_service_unit(params: &ServiceUnitParams<'_>) -> (r: String)
    ensures
        r@ == service_unit(params.prefix@, params.db_path@, params.user@),
{
    let prefix = text::trim_trailing(params.prefix, '/');
    let mut lines: Vec<String> = Vec::new();
    push_head(&mut lines);
    lines.push(text::cat2("User=", params.user));
    lines.push(text::cat2("Group=", params.user));
    lines.push(text::cat4("ExecStart=", prefix, "/weaver-server run --db ", params.db_path));
    assert(text::texts(lines@) =~= head_lines() + set_lines(
        params.prefix@,
        params.db_path@,
        params.user@,
    ));
    push_tail(&mut lines);
    write_lines(&lines)
}

/// Slashes at the end of the prefix do not matter.
pub proof fn trailing_slashes_are_ignored(prefix: Seq<char>, db: Seq<char>, user: Seq<char>)
    ensures
        service_unit(prefix.push('/'), db, user) == service_unit(prefix, db, user),
{
    assert(prefix.push('/').drop_last() =~= prefix);
}

/// A text that is one line.
pub open spec fn is_line(s: Seq<char>) -> bool {
    forall|i: int| 0 <= i < s.len() ==> s[i] != '\n'
}

/// A text of lines is read as those lines.
proof fn lines_read_back(lines: Seq<Seq<char>>)
    requires
        forall|i: int| 0 <= i < lines.len() ==> is_line(#[trigger] lines[i]),
    ensures
        text::split_on(unit_text(lines), '\n') == lines.push(Seq::empty()),
    decreases lines.len(),
{
    let whole = unit_text(lines);
    if lines.len() > 0 {
        let first = lines[0];
        let rest = lines.subrange(1, lines.len() as int);
        assert forall|i: int| 0 <= i < rest.len() implies is_line(#[trigger] rest[i]) by {
            assert(rest[i] == lines[i + 1]);
        }
        lines_read_back(rest);
        assert(is_line(first));
        assert forall|j: int| 0 <= j < first.len() implies whole[j] != '\n' by {
            assert(whole[j] == first[j]);
        }
        text::find_from_unique(whole, '\n', 0, first.len() as int);
        assert(whole.subrange(0, first.len() as int) =~= first);
        assert(whole.subrange(first.len() as int + 1, whole.len() as int) =~= unit_text(rest));
        assert(seq![first] + rest.push(Seq::empty()) =~= lines.push(Seq::empty()));
    } else {
        assert(text::find_from(whole, '\n', 0) == 0);
        assert(seq![whole] =~= lines.push(Seq::empty()));
    }
}

/// A line of the unit that names neither the user nor the group nor the command.
pub open spec fn is_fixed_line(s: Seq<char>) -> bool {
    is_line(s) && (s.len() > 0 ==> s[0] != 'U' && s[0] != 'G' && s[0] != 'E')
}

proof fn head_is_fixed()
    ensures
        forall|i: int| 0 <= i < head_lines().len() ==> is_fixed_line(#[trigger] head_lines()[i]),
{
    reveal_strlit("# weaver-server.service");
    assert(is_fixed_line("# weaver-server.service"@));
    reveal_strlit("[Unit]");
    assert(is_fixed_line("[Unit]"@));
    reveal_strlit("Description=Tunnel Weaver relay");
    assert(is_fixed_line("Description=Tunnel Weaver relay"@));
    reveal_strlit("Requires=weaver-server.socket");
    assert(is_fixed_line("Requires=weaver-server.socket"@));
    reveal_strlit("After=network-online.target weaver-server.socket");
    assert(is_fixed_line("After=network-online.target weaver-server.socket"@));
    reveal_strlit("Wants=network-online.target");
    assert(is_fixed_line("Wants=network-online.target"@));
    reveal_strlit("");
    assert(is_fixed_line(""@));
    reveal_strlit("[Service]");
    assert(is_fixed_line("[Service]"@));
    reveal_strlit("Type=notify");
    assert(is_fixed_line("Type=notify"@));
}

proof fn tail_is_fixed()
    ensures
        forall|i: int| 0 <= i < tail_lines().len() ==> is_fixed_line(#[trigger] tail_lines()[i]),
{
    reveal_strlit("Restart=always");
    assert(is_fixed_line("Restart=always"@));
    reveal_strlit("RestartSec=2");
    assert(is_fixed_line("RestartSec=2"@));
    reveal_strlit("RuntimeDirectory=weaver");
    assert(is_fixed_line("RuntimeDirectory=weaver"@));
    reveal_strlit("RuntimeDirectoryMode=0750");
    assert(is_fixed_line("RuntimeDirectoryMode=0750"@));
    reveal_strlit("StateDirectory=weaver");
    assert(is_fixed_line("StateDirectory=weaver"@));
    reveal_strlit("CapabilityBoundingSet=");
    assert(is_fixed_line("CapabilityBoundingSet="@));
    reveal_strlit("NoNewPrivileges=yes");
    assert(is_fixed_line("NoNewPrivileges=yes"@));
    reveal_strlit("ProtectSystem=strict");
    assert(is_fixed_line("ProtectSystem=strict"@));
    reveal_strlit("ProtectHome=yes");
    assert(is_fixed_line("ProtectHome=yes"@));
    reveal_strlit("PrivateTmp=yes");
    assert(is_fixed_line("PrivateTmp=yes"@));
    reveal_strlit("PrivateDevices=yes");
    assert(is_fixed_line("PrivateDevices=yes"@));
    reveal_strlit("ProtectKernelTunables=yes");
    assert(is_fixed_line("ProtectKernelTunables=yes"@));
    reveal_strlit("ProtectKernelModules=yes");
    assert(is_fixed_line("ProtectKernelModules=yes"@));
    reveal_strlit("ProtectControlGroups=yes");
    assert(is_fixed_line("ProtectControlGroups=yes"@));
    reveal_strlit("RestrictAddressFamilies=AF_INET AF_INET6 AF_UNIX");
    assert(is_fixed_line("RestrictAddressFamilies=AF_INET AF_INET6 AF_UNIX"@));
    reveal_strlit("RestrictNamespaces=yes");
    assert(is_fixed_line("RestrictNamespaces=yes"@));
    reveal_strlit("LockPersonality=yes");
    assert(is_fixed_line("LockPersonality=yes"@));
    reveal_strlit("MemoryDenyWriteExecute=yes");
    assert(is_fixed_line("MemoryDenyWriteExecute=yes"@));
    reveal_strlit("SystemCallFilter=@system-service");
    assert(is_fixed_line("SystemCallFilter=@system-service"@));
    reveal_strlit("SystemCallArchitectures=native");
    assert(is_fixed_line("SystemCallArchitectures=native"@));
    reveal_strlit("ReadWritePaths=/var/lib/weaver");
    assert(is_fixed_line("ReadWritePaths=/var/lib/weaver"@));
    reveal_strlit("LimitNOFILE=65536");
    assert(is_fixed_line("LimitNOFILE=65536"@));
    reveal_strlit("");
    assert(is_fixed_line(""@));
    reveal_strlit("[Install]");
    assert(is_fixed_line("[Install]"@));
    reveal_strlit("WantedBy=multi-user.target");
    assert(is_fixed_line("WantedBy=multi-user.target"@));
}

/// Each of the lines for the user, the group and the command occurs exactly once
/// in the unit, and every other line is the same whatever the parameters are.
pub proof fn set_lines_occur_once(
    prefix: Seq<char>,
    db: Seq<char>,
    user: Seq<char>,
    other: (Seq<char>, Seq<char>, Seq<char>),
)
    requires
        is_line(prefix),
        is_line(db),
        is_line(user),
    ensures
        ({
            let set = set_lines(prefix, db, user);
            let at = head_lines().len() as int;
            let lines = text::split_on(service_unit(prefix, db, user), '\n');
            &&& lines == service_lines(prefix, db, user).push(Seq::empty())
            &&& forall|i: int, k: int|
                0 <= i < lines.len() && 0 <= k < 3 ==> (#[trigger] lines[i] == #[trigger] set[k]
                    <==> i == at + k)
            &&& forall|i: int|
                0 <= i < lines.len() - 1 && !(at <= i < at + 3) ==> #[trigger] lines[i]
                    == service_lines(other.0, other.1, other.2)[i]
        }),
{
    let set = set_lines(prefix, db, user);
    let all = service_lines(prefix, db, user);
    let at = head_lines().len() as int;
    head_is_fixed();
    tail_is_fixed();
    reveal_strlit("User=");
    reveal_strlit("Group=");
    reveal_strlit("ExecStart=");
    reveal_strlit("/weaver-server run --db ");
    short_prefix_is_line(prefix);
    assert(is_line(set[0]));
    assert(is_line(set[1]));
    assert(is_line(set[2]));
    assert(set[0][0] == 'U');
    assert(set[1][0] == 'G');
    assert(set[2][0] == 'E');
    assert forall|i: int| 0 <= i < all.len() implies is_line(#[trigger] all[i]) && (!(at <= i < at
        + 3) ==> is_fixed_line(all[i])) by {
        if i < at {
            assert(all[i] == head_lines()[i]);
        } else if i < at + 3 {
            assert(all[i] == set[i - at]);
        } else {
            assert(all[i] == tail_lines()[i - at - 3]);
        }
    }
    lines_read_back(all);
    let lines = all.push(Seq::empty());
    assert forall|i: int, k: int| 0 <= i < lines.len() && 0 <= k < 3 implies (#[trigger] lines[i]
        == #[trigger] set[k] <==> i == at + k) by {
        assert(set[k].len() > 0);
        if i < all.len() {
            assert(lines[i] == all[i]);
            if at <= i < at + 3 {
                assert(all[i] == set[i - at]);
            }
        }
    }
    assert forall|i: int|
        0 <= i < lines.len() - 1 && !(at <= i < at + 3) implies #[trigger] lines[i]
        == service_lines(other.0, other.1, other.2)[i] by {
        assert(lines[i] == all[i]);
        if i < at {
            assert(all[i] == head_lines()[i]);
        } else {
            assert(all[i] == tail_lines()[i - at - 3]);
        }
    }
}

proof fn short_prefix_is_line(prefix: Seq<char>)
    requires
        is_line(prefix),
    ensures
        is_line(text::without_trailing(prefix, '/')),
    decreases prefix.len(),
{
    if prefix.len() > 0 && prefix.last() == '/' {
        assert forall|i: int| 0 <= i < prefix.len() - 1 implies prefix.drop_last()[i] != '\n' by {
            assert(prefix.drop_last()[i] == prefix[i]);
        }
        short_prefix_is_line(prefix.drop_last());
    }
}

} // verus!
