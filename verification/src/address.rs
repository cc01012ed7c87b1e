//! Socket addresses and the dotted-decimal text of IPv4 addresses.
use vstd::prelude::*;

verus! {

/// An IPv4 address, octet by octet, in the order in which it is written.
#[derive(Clone, Copy, Debug, PartialEq, Eq, Structural)]
pub struct Ipv4Addr {
    pub a: u8,
    pub b: u8,
    pub c: u8,
    pub d: u8,
}

/// An IP address of either family; an IPv6 address is held as its 128 bits.
#[derive(Clone, Copy, Debug, PartialEq, Eq, Structural)]
pub enum IpAddr {
    V4(Ipv4Addr),
    V6(u128),
}

/// The address of a socket. Only an IPv6 socket has a flow label and a scope.
#[derive(Clone, Copy, Debug, PartialEq, Eq, Structural)]
pub enum SocketAddr {
    V4 { ip: Ipv4Addr, port: u16 },
    V6 { bits: u128, port: u16, flowinfo: u32, scope_id: u32 },
}

/// The address with this IP and port, and with neither flow label nor scope.
pub open spec fn socket_at(ip: IpAddr, port: u16) -> SocketAddr {
    match ip {
        IpAddr::V4(ip) => SocketAddr::V4 { ip, port },
        IpAddr::V6(bits) => SocketAddr::V6 { bits, port, flowinfo: 0, scope_id: 0 },
    }
}

impl SocketAddr {
    pub open spec fn ip_spec(self) -> IpAddr {
        match self {
            SocketAddr::V4 { ip, port } => IpAddr::V4(ip),
            SocketAddr::V6 { bits, port, flowinfo, scope_id } => IpAddr::V6(bits),
        }
    }

    pub open spec fn port_spec(self) -> u16 {
        match self {
            SocketAddr::V4 { ip, port } => port,
            SocketAddr::V6 { bits, port, flowinfo, scope_id } => port,
        }
    }

    /// The address with this IP and port; an IPv6 one has flow label 0 and scope 0.
    pub fn new(ip: IpAddr, port: u16) -> (address: SocketAddr)
        ensures
            address == socket_at(ip, port),
    {
        match ip {
            IpAddr::V4(ip) => SocketAddr::V4 { ip, port },
            IpAddr::V6(bits) => SocketAddr::V6 { bits, port, flowinfo: 0, scope_id: 0 },
        }
    }

    pub fn ip(&self) -> (ip: IpAddr)
        ensures
            ip == self.ip_spec(),
    {
        match *self {
            SocketAddr::V4 { ip, port } => IpAddr::V4(ip),
            SocketAddr::V6 { bits, port, flowinfo, scope_id } => IpAddr::V6(bits),
        }
    }

    pub fn port(&self) -> (port: u16)
        ensures
            port == self.port_spec(),
    {
        match *self {
            SocketAddr::V4 { ip, port } => port,
            SocketAddr::V6 { bits, port, flowinfo, scope_id } => port,
        }
    }
}

/// The decimal digit for a number below ten.
pub open spec fn digit(n: u8) -> char {
    ('0' as int + n) as char
}

pub open spec fn is_digit(c: char) -> bool {
    '0' <= c <= '9'
}

/// An octet in decimal, without leading zeros.
pub open spec fn octet_text(n: u8) -> Seq<char> {
    if n < 10 {
        seq![digit(n)]
    } else if n < 100 {
        seq![digit(n / 10), digit(n % 10)]
    } else {
        seq![digit(n / 100), digit((n / 10) % 10), digit(n % 10)]
    }
}

/// The text of an IPv4 address: its four octets in decimal, with a dot between each and the next.
pub open spec fn ipv4_text(ip: Ipv4Addr) -> Seq<char> {
    octet_text(ip.a) + seq!['.'] + octet_text(ip.b) + seq!['.'] + octet_text(ip.c) + seq!['.']
        + octet_text(ip.d)
}

/// Whether the text is that of some IPv4 address.
pub open spec fn is_ipv4_text(text: Seq<char>) -> bool {
    exists|ip: Ipv4Addr| text == ipv4_text(ip)
}

/// Whether `address` is that of the port at the IPv4 address of which `text` is the text.
pub open spec fn names_socket(address: SocketAddr, text: Seq<char>, port: u16) -> bool {
    forall|ip: Ipv4Addr| text == ipv4_text(ip) ==> address == (SocketAddr::V4 { ip, port })
}

/// The number that a row of decimal digits stands for.
pub open spec fn decimal_value(digits: Seq<char>) -> int
    decreases digits.len(),
{
    if digits.len() == 0 {
        0
    } else {
        10 * decimal_value(digits.drop_last()) + (digits.last() as int - 48)
    }
}

/// Whether the text is a number written in decimal: it has digits only, at least one, and does not
/// begin with a zero unless that is all of it.
pub open spec fn is_decimal(text: Seq<char>) -> bool {
    &&& text.len() > 0
    &&& forall|i: int| 0 <= i < text.len() ==> 48 <= #[trigger] text[i] as int <= 57
    &&& text.len() > 1 ==> text[0] as int != 48
}

/// Whether the digits of `text` that begin at `start` and end before `end` are all that follow
/// one another there, and are the decimal form of `n`.
spec fn octet_at(text: Seq<char>, start: int, n: u8, end: int) -> bool {
    &&& 0 <= start <= end <= text.len()
    &&& text.subrange(start, end) == octet_text(n)
    &&& end == text.len() || !is_digit(text[end])
}

proof fn lemma_octet_text_injective(m: u8, n: u8)
    requires
        octet_text(m) == octet_text(n),
    ensures
        m == n,
{
    let s = octet_text(m);
    let t = octet_text(n);
    assert(s.len() == t.len());
    assert(s[0] == t[0]);
    if s.len() > 1 {
        assert(s[1] == t[1]);
    }
    if s.len() > 2 {
        assert(s[2] == t[2]);
    }
}

proof fn lemma_octet_text_is_digits(n: u8)
    ensures
        1 <= octet_text(n).len() <= 3,
        forall|i: int| 0 <= i < octet_text(n).len() ==> is_digit(#[trigger] octet_text(n)[i]),
        octet_text(n).len() > 1 ==> octet_text(n)[0] != '0',
{
}

proof fn lemma_octet_at_unique(text: Seq<char>, start: int, m: u8, i: int, n: u8, j: int)
    requires
        octet_at(text, start, m, i),
        octet_at(text, start, n, j),
    ensures
        m == n,
        i == j,
{
    lemma_octet_text_is_digits(m);
    lemma_octet_text_is_digits(n);
    if i < j {
        assert(text.subrange(start, j)[i - start] == text[i]);
    } else if j < i {
        assert(text.subrange(start, i)[j - start] == text[j]);
    }
    lemma_octet_text_injective(m, n);
}

/// The three dots of an address's text and the octets between them, by position.
proof fn lemma_ipv4_text_layout(ip: Ipv4Addr)
    ensures
        ({
            let text = ipv4_text(ip);
            let i = octet_text(ip.a).len() as int;
            let j = i + 1 + octet_text(ip.b).len();
            let k = j + 1 + octet_text(ip.c).len();
            &&& octet_at(text, 0, ip.a, i)
            &&& i < text.len() && text[i] == '.'
            &&& octet_at(text, i + 1, ip.b, j)
            &&& j < text.len() && text[j] == '.'
            &&& octet_at(text, j + 1, ip.c, k)
            &&& k < text.len() && text[k] == '.'
            &&& octet_at(text, k + 1, ip.d, text.len() as int)
        }),
{
    let text = ipv4_text(ip);
    let i = octet_text(ip.a).len() as int;
    let j = i + 1 + octet_text(ip.b).len();
    let k = j + 1 + octet_text(ip.c).len();
    assert(text.subrange(0, i) =~= octet_text(ip.a));
    assert(text.subrange(i + 1, j) =~= octet_text(ip.b));
    assert(text.subrange(j + 1, k) =~= octet_text(ip.c));
    assert(text.subrange(k + 1, text.len() as int) =~= octet_text(ip.d));
}

/// No text stands for two IPv4 addresses.
pub proof fn ipv4_text_injective(p: Ipv4Addr, q: Ipv4Addr)
    requires
        ipv4_text(p) == ipv4_text(q),
    ensures
        p == q,
{
    let text = ipv4_text(p);
    lemma_ipv4_text_layout(p);
    lemma_ipv4_text_layout(q);
    let i = octet_text(p.a).len() as int;
    let j = i + 1 + octet_text(p.b).len();
    let k = j + 1 + octet_text(p.c).len();
    lemma_octet_at_unique(text, 0, p.a, i, q.a, octet_text(q.a).len() as int);
    lemma_octet_at_unique(text, i + 1, p.b, j, q.b, i + 1 + octet_text(q.b).len());
    lemma_octet_at_unique(text, j + 1, p.c, k, q.c, j + 1 + octet_text(q.c).len());
    lemma_octet_text_injective(p.d, q.d);
}

/// Reads the octet that begins at `start`: its value, and where its digits end.
fn read_octet(text: &str, start: usize) -> (octet: Option<(u8, usize)>)
    requires
        start <= text@.len() <= usize::MAX,
    ensures
        match octet {
            Some((n, end)) => octet_at(text@, start as int, n, end as int),
            None => forall|n: u8, end: int| !octet_at(text@, start as int, n, end),
        },
{
    let len = text.unicode_len();
    let mut end: usize = start;
    let mut value: u32 = 0;
    while end < len && end - start < 4 && '0' <= text.get_char(end) && text.get_char(end) <= '9'
        invariant
            len == text@.len(),
            start <= end <= len,
            end - start <= 4,
            forall|i: int| start <= i < end ==> is_digit(#[trigger] text@[i]),
            end - start == 0 ==> value == 0,
            end - start == 1 ==> value == text@[start as int] as int - '0' as int,
            end - start == 2 ==> value == 10 * (text@[start as int] as int - '0' as int) + (
            text@[start + 1] as int - '0' as int),
            end - start == 3 ==> value == 100 * (text@[start as int] as int - '0' as int) + 10 * (
            text@[start + 1] as int - '0' as int) + (text@[start + 2] as int - '0' as int),
            value <= 9999,
            end - start == 3 ==> value <= 999,
            end - start < 3 ==> value <= 99,
        decreases len - end,
    {
        let figure: u32 = text.get_char(end) as u32 - '0' as u32;
        value = 10 * value + figure;
        end += 1;
    }
    let digits: usize = end - start;
    if digits == 0 || digits > 3 || value > 255 || (digits > 1 && text.get_char(start) == '0') {
        proof {
            assert forall|n: u8, e: int| !octet_at(text@, start as int, n, e) by {
                if octet_at(text@, start as int, n, e) {
                    let octet = text@.subrange(start as int, e);
                    lemma_octet_text_is_digits(n);
                    assert(forall|i: int| start <= i < e ==> text@[i] == octet[i - start]);
                    assert(e == end);
                }
            }
        }
        return None;
    }
    assert(text@.subrange(start as int, end as int) =~= octet_text(value as u8));
    Some((value as u8, end))
}

/// Reads the octet that begins at `start` and the dot after it: its value, and where the dot is.
fn read_dotted_octet(text: &str, start: usize) -> (octet: Option<(u8, usize)>)
    requires
        start <= text@.len() <= usize::MAX,
    ensures
        match octet {
            Some((n, dot)) => {
                &&& octet_at(text@, start as int, n, dot as int)
                &&& dot < text@.len() && text@[dot as int] == '.'
            },
            None => forall|n: u8, dot: int|
                octet_at(text@, start as int, n, dot) ==> dot == text@.len() || text@[dot] != '.',
        },
{
    let (n, end) = match read_octet(text, start) {
        Some(octet) => octet,
        None => {
            return None;
        },
    };
    if end < text.unicode_len() && text.get_char(end) == '.' {
        return Some((n, end));
    }
    proof {
        assert forall|m: u8, dot: int| octet_at(text@, start as int, m, dot) implies dot
            == text@.len() || text@[dot] != '.' by {
            lemma_octet_at_unique(text@, start as int, n, end as int, m, dot);
        }
    }
    None
}

/// Reads an IPv4 address from its text, the whole of it: an octet has no leading zero, and nothing
/// but three dots stands before, between or after the octets.
pub fn parse_ipv4(text: &str) -> (ip: Option<Ipv4Addr>)
    ensures
        match ip {
            Some(ip) => text@ == ipv4_text(ip),
            None => !is_ipv4_text(text@),
        },
{
    let len = text.unicode_len();
    let ghost meant = choose|ip: Ipv4Addr| text@ == ipv4_text(ip);
    let ghost p = octet_text(meant.a).len() as int;
    let ghost q = p + 1 + octet_text(meant.b).len();
    let ghost r = q + 1 + octet_text(meant.c).len();
    proof {
        lemma_ipv4_text_layout(meant);
    }
    let (a, i) = match read_dotted_octet(text, 0) {
        Some(octet) => octet,
        None => {
            return None;
        },
    };
    proof {
        if is_ipv4_text(text@) {
            lemma_octet_at_unique(text@, 0, a, i as int, meant.a, p);
        }
    }
    let (b, j) = match read_dotted_octet(text, i + 1) {
        Some(octet) => octet,
        None => {
            return None;
        },
    };
    proof {
        if is_ipv4_text(text@) {
            lemma_octet_at_unique(text@, i + 1, b, j as int, meant.b, q);
        }
    }
    let (c, k) = match read_dotted_octet(text, j + 1) {
        Some(octet) => octet,
        None => {
            return None;
        },
    };
    proof {
        if is_ipv4_text(text@) {
            lemma_octet_at_unique(text@, j + 1, c, k as int, meant.c, r);
        }
    }
    let (d, end) = match read_octet(text, k + 1) {
        Some(octet) => octet,
        None => {
            return None;
        },
    };
    if end != len {
        proof {
            if is_ipv4_text(text@) {
                lemma_octet_at_unique(text@, k + 1, d, end as int, meant.d, text@.len() as int);
            }
        }
        return None;
    }
    let ip = Ipv4Addr { a, b, c, d };
    assert(text@ =~= text@.subrange(0, i as int) + seq!['.'] + text@.subrange(i + 1, j as int)
        + seq!['.'] + text@.subrange(j + 1, k as int) + seq!['.'] + text@.subrange(
        k + 1,
        end as int,
    ));
    Some(ip)
}

/// The address of a port at an IPv4 address that is given as text.
pub fn to_socket_address(ip_str: &str, port: u16) -> (address: SocketAddr)
    requires
        is_ipv4_text(ip_str@),
    ensures
        names_socket(address, ip_str@, port),
        address.port_spec() == port,
        forall|ip: Ipv4Addr| ip_str@ == ipv4_text(ip) ==> address == (SocketAddr::V4 { ip, port }),
{
    let ip = parse_ipv4(ip_str).unwrap();
    proof {
        assert forall|other: Ipv4Addr| ip_str@ == ipv4_text(other) implies other == ip by {
            ipv4_text_injective(other, ip);
        }
    }
    SocketAddr::V4 { ip, port }
}

/// The text of an octet is a number in decimal, and that number is the octet.
pub proof fn octet_text_is_decimal(n: u8)
    ensures
        is_decimal(octet_text(n)),
        decimal_value(octet_text(n)) == n,
{
    reveal_with_fuel(decimal_value, 4);
    let text = octet_text(n);
    if text.len() > 1 {
        assert(text.drop_last().last() == text[text.len() - 2]);
    }
    if text.len() > 2 {
        assert(text.drop_last().drop_last().last() == text[0]);
    }
}

/// The text of an IPv4 address is its four octets in decimal, in their order, with nothing but a
/// dot between each and the next. The result says where the dots are.
pub proof fn ipv4_text_spells_octets(ip: Ipv4Addr) -> (dots: (int, int, int))
    ensures
        0 < dots.0 < dots.1 < dots.2 < ipv4_text(ip).len(),
        ipv4_text(ip)[dots.0] == '.',
        ipv4_text(ip)[dots.1] == '.',
        ipv4_text(ip)[dots.2] == '.',
        ({
            let text = ipv4_text(ip);
            let a = text.subrange(0, dots.0);
            let b = text.subrange(dots.0 + 1, dots.1);
            let c = text.subrange(dots.1 + 1, dots.2);
            let d = text.subrange(dots.2 + 1, text.len() as int);
            &&& is_decimal(a) && decimal_value(a) == ip.a
            &&& is_decimal(b) && decimal_value(b) == ip.b
            &&& is_decimal(c) && decimal_value(c) == ip.c
            &&& is_decimal(d) && decimal_value(d) == ip.d
        }),
{
    lemma_ipv4_text_layout(ip);
    octet_text_is_decimal(ip.a);
    octet_text_is_decimal(ip.b);
    octet_text_is_decimal(ip.c);
    octet_text_is_decimal(ip.d);
    let i = octet_text(ip.a).len() as int;
    let j = i + 1 + octet_text(ip.b).len();
    let k = j + 1 + octet_text(ip.c).len();
    (i, j, k)
}

/// Every IPv4 address has a text that is read as an address, and every text that is read as one is
/// the text of an address.
pub proof fn ipv4_text_is_read(ip: Ipv4Addr, text: Seq<char>)
    ensures
        is_ipv4_text(ipv4_text(ip)),
        is_ipv4_text(text) <==> exists|meant: Ipv4Addr| text == ipv4_text(meant),
{
}

/// A socket that a text and a port name has that port and an IPv4 address with that text.
pub proof fn named_socket(address: SocketAddr, text: Seq<char>, port: u16) -> (ip: Ipv4Addr)
    requires
        is_ipv4_text(text),
        names_socket(address, text, port),
    ensures
        text == ipv4_text(ip),
        address == (SocketAddr::V4 { ip, port }),
{
    choose|ip: Ipv4Addr| text == ipv4_text(ip)
}

/// An IP and a port are the parts of the socket that they make, which has nothing else; and the
/// parts of any socket are those that it was written with.
pub proof fn socket_parts(
    ip: IpAddr,
    v4: Ipv4Addr,
    bits: u128,
    port: u16,
    flowinfo: u32,
    scope_id: u32,
)
    ensures
        socket_at(ip, port).ip_spec() == ip,
        socket_at(ip, port).port_spec() == port,
        socket_at(ip, port) matches SocketAddr::V6 { bits: b, port: p, flowinfo: f, scope_id: s }
            ==> f == 0 && s == 0,
        (SocketAddr::V4 { ip: v4, port }).ip_spec() == IpAddr::V4(v4),
        (SocketAddr::V4 { ip: v4, port }).port_spec() == port,
        (SocketAddr::V6 { bits, port, flowinfo, scope_id }).ip_spec() == IpAddr::V6(bits),
        (SocketAddr::V6 { bits, port, flowinfo, scope_id }).port_spec() == port,
{
}

} // verus!
