//! IP and socket addresses.
use crate::number;
use crate::text;
use vstd::prelude::*;

verus! {

/// An IP address: the four octets of an IPv4 address, or the eight 16-bit
/// segments of an IPv6 address.
#[derive(Debug, Clone, Copy, PartialEq, Eq)]
pub enum IpAddress {
    V4([u8; 4]),
    V6([u16; 8]),
}

/// An address to listen on.
#[derive(Debug, Clone, Copy, PartialEq, Eq)]
pub struct SocketAddress {
    pub ip: IpAddress,
    pub port: u16,
}

impl SocketAddress {
    /// Whether the address is an IPv6 address.
    pub fn is_ipv6(&self) -> (r: bool)
        ensures
            r == self.ip is V6,
    {
        match self.ip {
            IpAddress::V4(_) => false,
            IpAddress::V6(_) => true,
        }
    }
}

/// The octets of an IPv4 address, or the segments of an IPv6 address.
pub enum IpFacts {
    V4(Seq<u8>),
    V6(Seq<u16>),
}

impl View for IpAddress {
    type V = IpFacts;

    open spec fn view(&self) -> IpFacts {
        match *self {
            IpAddress::V4(octets) => IpFacts::V4(octets@),
            IpAddress::V6(segments) => IpFacts::V6(segments@),
        }
    }
}

/// Addresses as they are seen.
pub open spec fn addresses(v: Seq<IpAddress>) -> Seq<IpFacts> {
    v.map_values(|ip: IpAddress| ip@)
}

/// The first difference decides; nothing comes before itself.
pub open spec fn list_before(a: Seq<nat>, b: Seq<nat>) -> bool
    decreases a.len(),
{
    if a.len() == 0 || b.len() == 0 {
        a.len() < b.len()
    } else if a[0] != b[0] {
        a[0] < b[0]
    } else {
        list_before(a.subrange(1, a.len() as int), b.subrange(1, b.len() as int))
    }
}

impl IpFacts {
    /// The numbers of the address.
    pub open spec fn numbers(self) -> Seq<nat> {
        match self {
            IpFacts::V4(o) => o.map_values(|b: u8| b as nat),
            IpFacts::V6(s) => s.map_values(|b: u16| b as nat),
        }
    }

    /// IPv4 addresses come before IPv6 addresses; within a family the first
    /// number that differs decides.
    pub open spec fn before(self, other: IpFacts) -> bool {
        match (self, other) {
            (IpFacts::V4(_), IpFacts::V6(_)) => true,
            (IpFacts::V6(_), IpFacts::V4(_)) => false,
            _ => list_before(self.numbers(), other.numbers()),
        }
    }
}

proof fn list_before_by_prefix(a: Seq<nat>, b: Seq<nat>, n: int)
    requires
        0 <= n <= a.len(),
        a.len() == b.len(),
        forall|i: int| 0 <= i < n ==> a[i] == b[i],
    ensures
        n < a.len() && a[n] != b[n] ==> list_before(a, b) == (a[n] < b[n]),
        n == a.len() ==> !list_before(a, b),
    decreases a.len(),
{
    if n > 0 {
        list_before_by_prefix(a.subrange(1, a.len() as int), b.subrange(1, b.len() as int), n - 1);
    }
}

/// How two addresses stand in order.
#[derive(Debug, Clone, Copy, PartialEq, Eq, Structural)]
pub enum Standing {
    Before,
    Same,
    After,
}

impl IpAddress {
    /// Whether two addresses are the same.
    pub fn same(&self, other: &IpAddress) -> (r: bool)
        ensures
            r == (self@ == other@),
    {
        match self.standing(other) {
            Standing::Same => true,
            _ => false,
        }
    }

    /// How the address stands to another in order.
    pub fn standing(&self, other: &IpAddress) -> (r: Standing)
        ensures
            match r {
                Standing::Before => self@.before(other@) && self@ != other@,
                Standing::Same => self@ == other@ && !self@.before(other@),
                Standing::After => !self@.before(other@) && self@ != other@,
            },
    {
        match (self, other) {
            (IpAddress::V4(a), IpAddress::V4(b)) => {
                let ghost x = self@.numbers();
                let ghost y = other@.numbers();
                let mut i: usize = 0;
                while i < 4
                    invariant
                        i <= 4,
                        x == a@.map_values(|b: u8| b as nat),
                        y == b@.map_values(|b: u8| b as nat),
                        forall|j: int| 0 <= j < i ==> x[j] == y[j],
                        self@ == IpFacts::V4(a@),
                        other@ == IpFacts::V4(b@),
                        x == self@.numbers(),
                        y == other@.numbers(),
                    decreases 4 - i,
                {
                    assert(x[i as int] == a@[i as int] as nat);
                    assert(y[i as int] == b@[i as int] as nat);
                    if a[i] != b[i] {
                        proof {
                            list_before_by_prefix(x, y, i as int);
                        }
                        return if a[i] < b[i] {
                            Standing::Before
                        } else {
                            Standing::After
                        };
                    }
                    i += 1;
                }
                proof {
                    list_before_by_prefix(x, y, 4);
                    assert forall|j: int| 0 <= j < 4 implies a@[j] == b@[j] by {
                        assert(x[j] == y[j]);
                    }
                    assert(a@ =~= b@);
                }
                Standing::Same
            },
            (IpAddress::V6(a), IpAddress::V6(b)) => {
                let ghost x = self@.numbers();
                let ghost y = other@.numbers();
                let mut i: usize = 0;
                while i < 8
                    invariant
                        i <= 8,
                        x == a@.map_values(|b: u16| b as nat),
                        y == b@.map_values(|b: u16| b as nat),
                        forall|j: int| 0 <= j < i ==> x[j] == y[j],
                        self@ == IpFacts::V6(a@),
                        other@ == IpFacts::V6(b@),
                        x == self@.numbers(),
                        y == other@.numbers(),
                    decreases 8 - i,
                {
                    assert(x[i as int] == a@[i as int] as nat);
                    assert(y[i as int] == b@[i as int] as nat);
                    if a[i] != b[i] {
                        proof {
                            list_before_by_prefix(x, y, i as int);
                        }
                        return if a[i] < b[i] {
                            Standing::Before
                        } else {
                            Standing::After
                        };
                    }
                    i += 1;
                }
                proof {
                    list_before_by_prefix(x, y, 8);
                    assert forall|j: int| 0 <= j < 8 implies a@[j] == b@[j] by {
                        assert(x[j] == y[j]);
                    }
                    assert(a@ =~= b@);
                }
                Standing::Same
            },
            (IpAddress::V4(_), IpAddress::V6(_)) => Standing::Before,
            (IpAddress::V6(_), IpAddress::V4(_)) => Standing::After,
        }
    }
}

/// A decimal octet without leading zeros.
pub open spec fn is_octet(p: Seq<char>) -> bool {
    &&& 1 <= p.len() <= 3
    &&& p[0] != '+'
    &&& p.len() > 1 ==> p[0] != '0'
    &&& number::parsed_unsigned(p, 255) is Some
}

/// An IPv4 address in text: four octets.
pub open spec fn is_v4_text(s: Seq<char>) -> bool {
    let parts = text::split_on(s, '.');
    parts.len() == 4 && forall|i: int| 0 <= i < 4 ==> is_octet(#[trigger] parts[i])
}

/// A hexadecimal digit in either case.
pub open spec fn is_hex_char(c: char) -> bool {
    '0' <= c <= '9' || 'a' <= c <= 'f' || 'A' <= c <= 'F'
}

/// One 16-bit group of an IPv6 address: one to four hexadecimal digits.
pub open spec fn is_group(p: Seq<char>) -> bool {
    1 <= p.len() <= 4 && forall|i: int| 0 <= i < p.len() ==> is_hex_char(#[trigger] p[i])
}

/// How many groups a list with colons between them has; the last two may be
/// written as an IPv4 address.
pub open spec fn group_count(s: Seq<char>) -> Option<nat> {
    let parts = text::split_on(s, ':');
    if s.len() == 0 {
        Some(0)
    } else if forall|i: int| 0 <= i < parts.len() - 1 ==> is_group(#[trigger] parts[i]) {
        if is_group(parts.last()) {
            Some(parts.len())
        } else if is_v4_text(parts.last()) {
            Some(parts.len() + 1)
        } else {
            None
        }
    } else {
        None
    }
}

/// The list ends with an IPv4 address.
pub open spec fn ends_in_v4(s: Seq<char>) -> bool {
    is_v4_text(text::split_on(s, ':').last())
}

/// At this offset `::` stands for one or more groups of zeros.
pub open spec fn gap_at(s: Seq<char>, at: int) -> bool {
    &&& 0 <= at <= s.len() - 2
    &&& s[at] == ':' && s[at + 1] == ':'
    &&& !ends_in_v4(s.subrange(0, at))
    &&& group_count(s.subrange(0, at)) matches Some(h) && group_count(
        s.subrange(at + 2, s.len() as int),
    ) matches Some(t) && h + t <= 7
}

/// An IPv6 address in text: eight groups, or fewer around one `::`.
pub open spec fn is_v6_text(s: Seq<char>) -> bool {
    group_count(s) == Some(8nat) || exists|at: int| gap_at(s, at)
}

/// An IP address in text.
pub open spec fn is_ip_text(s: Seq<char>) -> bool {
    is_v4_text(s) || is_v6_text(s)
}

/// The value of a hexadecimal digit.
pub open spec fn hex_char_value(c: char) -> nat {
    if c <= '9' {
        (c as u32 - 0x30) as nat
    } else if c <= 'F' {
        (c as u32 - 0x37) as nat
    } else {
        (c as u32 - 0x57) as nat
    }
}

/// The value of hexadecimal digits.
pub open spec fn hex_value_of(s: Seq<char>) -> nat
    decreases s.len(),
{
    if s.len() == 0 {
        0
    } else {
        hex_value_of(s.drop_last()) * 16 + hex_char_value(s.last())
    }
}

/// The octets of an IPv4 address in text.
pub open spec fn v4_octets(s: Seq<char>) -> Seq<u8> {
    text::split_on(s, '.').map_values(|p: Seq<char>| number::value_of(p) as u8)
}

/// The 16-bit groups in two octets each, the higher one first.
pub open spec fn group_octets(groups: Seq<Seq<char>>) -> Seq<u8>
    decreases groups.len(),
{
    if groups.len() == 0 {
        seq![]
    } else {
        let n = hex_value_of(groups.last());
        group_octets(groups.drop_last()) + seq![(n / 256) as u8, (n % 256) as u8]
    }
}

/// The octets of a list of groups with colons between them; the last two groups may
/// be written as an IPv4 address.
pub open spec fn list_octets(s: Seq<char>) -> Seq<u8> {
    let parts = text::split_on(s, ':');
    if s.len() == 0 {
        seq![]
    } else if is_group(parts.last()) {
        group_octets(parts)
    } else {
        group_octets(parts.drop_last()) + v4_octets(parts.last())
    }
}

/// The octets of an IPv6 address in text: those of its groups, with as many zeros for
/// `::` as are missing.
pub open spec fn v6_octets(s: Seq<char>) -> Seq<u8> {
    if group_count(s) == Some(8nat) {
        list_octets(s)
    } else {
        let at = choose|at: int| gap_at(s, at);
        let head = list_octets(s.subrange(0, at));
        let tail = list_octets(s.subrange(at + 2, s.len() as int));
        head + Seq::new((16 - head.len() - tail.len()) as nat, |i: int| 0u8) + tail
    }
}

/// The octets of an IP address in text: 4, or 16.
pub open spec fn ip_octets(s: Seq<char>) -> Seq<u8> {
    if is_v4_text(s) {
        v4_octets(s)
    } else {
        v6_octets(s)
    }
}

/// The last piece of a text that ends with the separator is empty.
proof fn last_piece(s: Seq<char>, c: char)
    requires
        s.len() > 0,
        s.last() == c,
    ensures
        text::split_on(s, c).last().len() == 0,
    decreases s.len(),
{
    text::find_from_is_first(s, c, 0);
    let at = text::find_from(s, c, 0);
    let rest = s.subrange(at + 1, s.len() as int);
    if rest.len() > 0 {
        last_piece(rest, c);
    } else {
        reveal_with_fuel(text::split_on, 2);
    }
    pieces_are_some(rest, c);
}

/// A text has a piece at least.
proof fn pieces_are_some(s: Seq<char>, c: char)
    ensures
        text::split_on(s, c).len() > 0,
    decreases s.len(),
{
    let at = text::find_from(s, c, 0);
    if 0 <= at < s.len() {
        pieces_are_some(s.subrange(at + 1, s.len() as int), c);
    }
}

/// Between two separators side by side a piece is empty, and it is not the last.
proof fn middle_piece(s: Seq<char>, c: char, i: int) -> (j: int)
    requires
        0 <= i < s.len() - 1,
        s[i] == c,
        s[i + 1] == c,
    ensures
        0 <= j < text::split_on(s, c).len() - 1,
        text::split_on(s, c)[j].len() == 0,
    decreases s.len(),
{
    text::find_from_is_first(s, c, 0);
    let at = text::find_from(s, c, 0);
    let rest = s.subrange(at + 1, s.len() as int);
    if at < i {
        let k = middle_piece(rest, c, i - at - 1);
        k + 1
    } else {
        assert(rest[0] == c);
        text::find_from_is_first(rest, c, 0);
        pieces_are_some(rest.subrange(1, rest.len() as int), c);
        assert(text::split_on(rest, c)[0].len() == 0);
        1
    }
}

/// An empty text is no octets and no group.
proof fn an_empty_piece_is_none()
    ensures
        !is_v4_text(seq![]),
        !is_group(seq![]),
{
    reveal_with_fuel(text::split_on, 2);
}

/// At most one `::` in a text stands for groups of zeros.
pub proof fn one_gap(s: Seq<char>, a: int, b: int)
    requires
        gap_at(s, a),
        gap_at(s, b),
    ensures
        a == b,
{
    if a < b {
        no_gap_in_head(s, a, b);
    }
    if b < a {
        no_gap_in_head(s, b, a);
    }
}

proof fn no_gap_in_head(s: Seq<char>, a: int, b: int)
    requires
        0 <= a < b <= s.len(),
        a + 1 < s.len(),
        s[a] == ':',
        s[a + 1] == ':',
    ensures
        group_count(s.subrange(0, b)) is None,
{
    let head = s.subrange(0, b);
    let parts = text::split_on(head, ':');
    an_empty_piece_is_none();
    if b == a + 1 {
        last_piece(head, ':');
        assert(parts.last() =~= seq![]);
    } else {
        let j = middle_piece(head, ':', a);
        assert(parts[j] =~= seq![]);
        assert(!is_group(parts[j]));
    }
}

proof fn octets_of_groups(groups: Seq<Seq<char>>)
    ensures
        group_octets(groups).len() == 2 * groups.len(),
    decreases groups.len(),
{
    if groups.len() > 0 {
        octets_of_groups(groups.drop_last());
    }
}

proof fn octets_of_list(s: Seq<char>)
    requires
        group_count(s) is Some,
    ensures
        list_octets(s).len() == 2 * group_count(s)->0,
{
    let parts = text::split_on(s, ':');
    pieces_are_some(s, ':');
    octets_of_groups(parts);
    octets_of_groups(parts.drop_last());
}

/// An IPv4 address has 4 octets, and an IPv6 address 16.
pub proof fn octets_are_counted(s: Seq<char>)
    requires
        is_ip_text(s),
    ensures
        ip_octets(s).len() == if is_v4_text(s) {
            4nat
        } else {
            16nat
        },
{
    if !is_v4_text(s) {
        if group_count(s) == Some(8nat) {
            octets_of_list(s);
        } else {
            let at = choose|at: int| gap_at(s, at);
            octets_of_list(s.subrange(0, at));
            octets_of_list(s.subrange(at + 2, s.len() as int));
        }
    }
}

/// The first piece of a text starts as the text does.
proof fn first_piece(s: Seq<char>, c: char)
    requires
        s.len() > 0,
        s[0] != c,
    ensures
        ({
            let parts = text::split_on(s, c);
            parts.len() > 0 && parts[0].len() > 0 && parts[0][0] == s[0] && (parts.len() == 1
                ==> parts[0] == s)
        }),
{
    reveal_with_fuel(text::split_on, 2);
    text::find_from_is_first(s, c, 0);
}

/// No IPv4 address starts with `*`.
proof fn wildcard_is_no_v4(s: Seq<char>)
    requires
        s.len() > 0,
        s[0] == '*',
    ensures
        !is_v4_text(s),
{
    first_piece(s, '.');
    let p = text::split_on(s, '.')[0];
    assert(p[0] == '*');
    assert(!is_octet(p));
}

/// No list of groups starts with `*`.
proof fn wildcard_is_no_group(s: Seq<char>)
    requires
        s.len() > 0,
        s[0] == '*',
    ensures
        group_count(s) is None,
{
    first_piece(s, ':');
    wildcard_is_no_v4(s);
    let parts = text::split_on(s, ':');
    assert(!is_hex_char(parts[0][0]));
    assert(!is_group(parts[0]));
}

/// No IP address starts with `*`.
pub proof fn wildcard_is_no_address(s: Seq<char>)
    requires
        s.len() > 0,
        s[0] == '*',
    ensures
        !is_ip_text(s),
{
    wildcard_is_no_v4(s);
    wildcard_is_no_group(s);
    assert forall|at: int| !gap_at(s, at) by {
        if 0 < at <= s.len() - 2 {
            wildcard_is_no_group(s.subrange(0, at));
        }
    }
}

fn octet(p: &str) -> (r: bool)
    ensures
        r == is_octet(p@),
{
    let v = text::chars_of(p);
    if v.len() < 1 || v.len() > 3 || v[0] == '+' || (v.len() > 1 && v[0] == '0') {
        return false;
    }
    number::parse_unsigned(p, 255).is_some()
}

/// Whether a text is an IPv4 address.
pub fn is_v4(s: &str) -> (r: bool)
    ensures
        r == is_v4_text(s@),
{
    let parts = text::split(s, '.');
    let ghost all = text::split_on(s@, '.');
    if parts.len() != 4 {
        return false;
    }
    assert(all[0] == parts@[0]@ && all[1] == parts@[1]@ && all[2] == parts@[2]@ && all[3]
        == parts@[3]@);
    octet(parts[0].as_str()) && octet(parts[1].as_str()) && octet(parts[2].as_str()) && octet(
        parts[3].as_str(),
    )
}

fn group(p: &str) -> (r: bool)
    ensures
        r == is_group(p@),
{
    let v = text::chars_of(p);
    if v.len() < 1 || v.len() > 4 {
        return false;
    }
    let mut i: usize = 0;
    while i < v.len()
        invariant
            v@ == p@,
            i <= v@.len(),
            forall|j: int| 0 <= j < i ==> is_hex_char(#[trigger] p@[j]),
        decreases v@.len() - i,
    {
        let c = v[i];
        if !(('0' <= c && c <= '9') || ('a' <= c && c <= 'f') || ('A' <= c && c <= 'F')) {
            assert(!is_hex_char(p@[i as int]));
            return false;
        }
        i += 1;
    }
    true
}

/// The number of groups, and whether the last two are an IPv4 address; more
/// than nine groups count as none.
fn groups(s: &str) -> (r: Option<(usize, bool)>)
    ensures
        match r {
            Some((n, v4)) => group_count(s@) == Some(n as nat) && v4 == ends_in_v4(s@),
            None => group_count(s@) is None || group_count(s@)->0 > 9,
        },
{
    let parts = text::split(s, ':');
    let ghost all = text::split_on(s@, ':');
    assert(forall|i: int| 0 <= i < parts@.len() ==> parts@[i]@ == #[trigger] all[i]);
    let n: usize = parts.len();
    if s.unicode_len() == 0 {
        let last = is_v4(parts[n - 1].as_str());
        return Some((0, last));
    }
    if n > 9 {
        return None;
    }
    let mut i: usize = 0;
    while i + 1 < n
        invariant
            n == parts@.len(),
            n == all.len(),
            n > 0,
            all == text::split_on(s@, ':'),
            s@.len() > 0,
            forall|j: int| 0 <= j < parts@.len() ==> parts@[j]@ == #[trigger] all[j],
            i < n,
            forall|j: int| 0 <= j < i ==> is_group(#[trigger] all[j]),
        decreases n - i,
    {
        if !group(parts[i].as_str()) {
            assert(!is_group(all[i as int]));
            return None;
        }
        i += 1;
    }
    let last = parts[n - 1].as_str();
    assert(last@ == all.last());
    let v4 = is_v4(last);
    if group(last) {
        proof {
            a_group_is_no_v4(last@);
        }
        Some((n, false))
    } else if v4 {
        Some((n + 1, true))
    } else {
        None
    }
}

/// A group has no dots, so it is no IPv4 address.
proof fn a_group_is_no_v4(p: Seq<char>)
    requires
        is_group(p),
    ensures
        !is_v4_text(p),
{
    text::find_from_unique(p, '.', 0, p.len() as int);
}

/// Whether a text is an IPv6 address.
pub fn is_v6(s: &str) -> (r: bool)
    ensures
        r == is_v6_text(s@),
{
    if let Some((n, _)) = groups(s) {
        if n == 8 {
            return true;
        }
    }
    let v = text::chars_of(s);
    let n: usize = v.len();
    let mut at: usize = 0;
    while at < n && at + 1 < n
        invariant
            v@ == s@,
            n == s@.len(),
            at <= n,
            forall|j: int| 0 <= j < at ==> !gap_at(s@, j),
        decreases n - at,
    {
        if v[at] == ':' && v[at + 1] == ':' {
            let head = s.substring_char(0, at);
            let tail = s.substring_char(at + 2, n);
            if let (Some((h, v4)), Some((t, _))) = (groups(head), groups(tail)) {
                if !v4 && h <= 7 && t <= 7 && h + t <= 7 {
                    assert(gap_at(s@, at as int));
                    return true;
                }
            }
        }
        assert(!gap_at(s@, at as int));
        at += 1;
    }
    assert forall|j: int| !gap_at(s@, j) by {}
    false
}

/// Whether a text is an IPv4 or IPv6 address.
pub fn is_ip(s: &str) -> (r: bool)
    ensures
        r == is_ip_text(s@),
{
    is_v4(s) || is_v6(s)
}

/// An IPv4 address in text.
pub open spec fn v4_text(o: Seq<u8>) -> Seq<char> {
    number::decimal(o[0] as nat) + "."@ + number::decimal(o[1] as nat) + "."@ + number::decimal(
        o[2] as nat,
    ) + "."@ + number::decimal(o[3] as nat)
}

/// The groups of an IPv6 address with colons between them.
pub open spec fn groups_text(s: Seq<u16>, from: int, to: int) -> Seq<char>
    decreases to - from,
{
    if to <= from {
        Seq::empty()
    } else if to == from + 1 {
        number::hexadecimal(s[from] as nat)
    } else {
        groups_text(s, from, to - 1) + ":"@ + number::hexadecimal(s[to - 1] as nat)
    }
}

/// How many groups from an offset on are zero.
pub open spec fn zero_run(s: Seq<u16>, from: int) -> int
    decreases s.len() - from,
{
    if from < 0 || from >= s.len() || s[from] != 0 {
        0
    } else {
        1 + zero_run(s, from + 1)
    }
}

/// Where the first of the longest runs of zeros among the first `n` offsets starts.
pub open spec fn longest_run(s: Seq<u16>, n: int) -> int
    decreases n,
{
    if n <= 1 {
        0
    } else {
        let earlier = longest_run(s, n - 1);
        if zero_run(s, n - 1) > zero_run(s, earlier) {
            n - 1
        } else {
            earlier
        }
    }
}

/// The address stands for an IPv4 address.
pub open spec fn is_mapped(s: Seq<u16>) -> bool {
    s[0] == 0 && s[1] == 0 && s[2] == 0 && s[3] == 0 && s[4] == 0 && s[5] == 0xffff
}

/// The IPv4 address that a mapped address stands for.
pub open spec fn mapped_octets(s: Seq<u16>) -> Seq<u8> {
    seq![
        (s[6] / 256) as u8,
        (s[6] % 256) as u8,
        (s[7] / 256) as u8,
        (s[7] % 256) as u8,
    ]
}

/// An IPv6 address in text: the first longest run of two or more zero groups is
/// written as `::`, and an address that stands for an IPv4 address shows it.
pub open spec fn v6_text(s: Seq<u16>) -> Seq<char> {
    let at = longest_run(s, 8);
    let run = zero_run(s, at);
    if is_mapped(s) {
        "::ffff:"@ + v4_text(mapped_octets(s))
    } else if run > 1 {
        groups_text(s, 0, at) + "::"@ + groups_text(s, at + run, 8)
    } else {
        groups_text(s, 0, 8)
    }
}

impl IpFacts {
    /// The address in text.
    pub open spec fn text(self) -> Seq<char> {
        match self {
            IpFacts::V4(o) => v4_text(o),
            IpFacts::V6(s) => v6_text(s),
        }
    }
}

fn dotted(a: u8, b: u8, c: u8, d: u8) -> (r: String)
    ensures
        r@ == v4_text(seq![a, b, c, d]),
{
    let a = number::decimal_of(a as u64);
    let b = number::decimal_of(b as u64);
    let c = number::decimal_of(c as u64);
    let d = number::decimal_of(d as u64);
    text::cat7(a.as_str(), ".", b.as_str(), ".", c.as_str(), ".", d.as_str())
}

fn colons(s: &[u16; 8], from: usize, to: usize) -> (r: String)
    requires
        from <= 8,
        to <= 8,
    ensures
        r@ == groups_text(s@, from as int, to as int),
{
    let mut r = String::new();
    let mut i: usize = from;
    while i < to
        invariant
            from <= 8,
            to <= 8,
            from <= i,
            i <= to || i == from,
            r@ == groups_text(s@, from as int, i as int),
        decreases to - i,
    {
        if i > from {
            r.append(":");
        }
        let group = number::hexadecimal_of(s[i]);
        r.append(group.as_str());
        assert(i == from ==> r@ =~= number::hexadecimal(s@[i as int] as nat));
        i += 1;
    }
    r
}

fn run_from(s: &[u16; 8], from: usize) -> (r: usize)
    requires
        from <= 8,
    ensures
        r == zero_run(s@, from as int),
        from + r <= 8,
    decreases 8 - from,
{
    if from >= 8 || s[from] != 0 {
        0
    } else {
        1 + run_from(s, from + 1)
    }
}

impl IpAddress {
    /// The address in text.
    pub fn to_text(&self) -> (r: String)
        ensures
            r@ == self@.text(),
    {
        match self {
            IpAddress::V4(o) => {
                assert(o@ =~= seq![o@[0], o@[1], o@[2], o@[3]]);
                dotted(o[0], o[1], o[2], o[3])
            },
            IpAddress::V6(s) => {
                if s[0] == 0 && s[1] == 0 && s[2] == 0 && s[3] == 0 && s[4] == 0 && s[5] == 0xffff {
                    let shown = dotted(
                        (s[6] / 256) as u8,
                        (s[6] % 256) as u8,
                        (s[7] / 256) as u8,
                        (s[7] % 256) as u8,
                    );
                    return text::cat2("::ffff:", shown.as_str());
                }
                let mut at: usize = 0;
                let mut run: usize = run_from(s, 0);
                let mut i: usize = 1;
                while i < 8
                    invariant
                        1 <= i <= 8,
                        at < 8,
                        at == longest_run(s@, i as int),
                        run == zero_run(s@, at as int),
                        at + run <= 8,
                    decreases 8 - i,
                {
                    let here = run_from(s, i);
                    if here > run {
                        at = i;
                        run = here;
                    }
                    i += 1;
                }
                if run > 1 {
                    let head = colons(s, 0, at);
                    let tail = colons(s, at + run, 8);
                    text::cat3(head.as_str(), "::", tail.as_str())
                } else {
                    colons(s, 0, 8)
                }
            },
        }
    }
}

proof fn list_before_orders(a: Seq<nat>, b: Seq<nat>, c: Seq<nat>)
    ensures
        list_before(a, b) && list_before(b, c) ==> list_before(a, c),
        a == b || list_before(a, b) || list_before(b, a),
        !(list_before(a, b) && list_before(b, a)),
    decreases a.len() + b.len() + c.len(),
{
    if a.len() > 0 && b.len() > 0 {
        let a1 = a.subrange(1, a.len() as int);
        let b1 = b.subrange(1, b.len() as int);
        if c.len() > 0 {
            list_before_orders(a1, b1, c.subrange(1, c.len() as int));
        } else {
            list_before_orders(a1, b1, c);
        }
        if a[0] == b[0] && a1 == b1 {
            assert(a =~= seq![a[0]] + a1);
            assert(b =~= seq![b[0]] + b1);
        }
    } else if a.len() == 0 && b.len() == 0 {
        assert(a =~= b);
    }
}

/// The order of addresses is total and strict.
pub proof fn addresses_are_ordered(a: IpFacts, b: IpFacts, c: IpFacts)
    ensures
        a.before(b) && b.before(c) ==> a.before(c),
        a == b || a.before(b) || b.before(a),
        !(a.before(b) && b.before(a)),
{
    list_before_orders(a.numbers(), b.numbers(), c.numbers());
    match (a, b) {
        (IpFacts::V4(x), IpFacts::V4(y)) => {
            if a.numbers() == b.numbers() {
                assert forall|i: int| 0 <= i < x.len() implies x[i] == y[i] by {
                    assert(a.numbers()[i] == b.numbers()[i]);
                }
                assert(x.len() == a.numbers().len() && y.len() == b.numbers().len());
                assert(x =~= y);
            }
        },
        (IpFacts::V6(x), IpFacts::V6(y)) => {
            if a.numbers() == b.numbers() {
                assert forall|i: int| 0 <= i < x.len() implies x[i] == y[i] by {
                    assert(a.numbers()[i] == b.numbers()[i]);
                }
                assert(x.len() == a.numbers().len() && y.len() == b.numbers().len());
                assert(x =~= y);
            }
        },
        _ => {},
    }
}

} // verus!
