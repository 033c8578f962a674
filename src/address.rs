//! Connection targets: classifying connection text, and the text of a server.
use vstd::prelude::*;

use crate::literal::{ipv4_at, ipv4_of, ipv6_in, ipv6_of, is_octet};
use crate::text::{
    chars_of, fields, joined, lemma_decimal_text, lemma_fields_joined, num_text, push_char, push_num,
};

verus! {

/// The port a server address has when the text names none.
pub const DEFAULT_PORT: u16 = 25565;

/// A server host, kept in the syntactic class its text had when it was read.
#[derive(Debug, Clone)]
pub enum Hostname {
    Dns(String),
    Ipv4([u8; 4]),
    Ipv6([u16; 8]),
}

/// What a `Hostname` denotes: a name, four octets, or eight segments.
pub enum HostModel {
    Dns(Seq<char>),
    Ipv4(Seq<u8>),
    Ipv6(Seq<u16>),
}

impl View for Hostname {
    type V = HostModel;

    open spec fn view(&self) -> HostModel {
        match self {
            Hostname::Dns(n) => HostModel::Dns(n@),
            Hostname::Ipv4(o) => HostModel::Ipv4(o@),
            Hostname::Ipv6(g) => HostModel::Ipv6(g@),
        }
    }
}

/// A server: host and port.
#[derive(Debug, Clone)]
pub struct Address {
    pub hostname: Hostname,
    pub port: u16,
}

/// Where a bot connects: a local world by name, or a server.
#[derive(Debug, Clone)]
pub enum GameMode {
    SinglePlayer { world_name: String },
    MultiPlayer(Address),
}

/// What a `GameMode` denotes.
pub enum Target {
    World(Seq<char>),
    Server(HostModel, u16),
}

impl View for GameMode {
    type V = Target;

    open spec fn view(&self) -> Target {
        match self {
            GameMode::SinglePlayer { world_name } => Target::World(world_name@),
            GameMode::MultiPlayer(a) => Target::Server(a.hostname@, a.port),
        }
    }
}

/// The host that connection text denotes: a dotted-quad IPv4 literal first, then
/// an IPv6 literal, and otherwise the text itself as a DNS name.
pub open spec fn host_of(t: Seq<char>) -> HostModel {
    if ipv4_of(t) is Some {
        HostModel::Ipv4(ipv4_of(t)->0)
    } else if ipv6_of(t) is Some {
        HostModel::Ipv6(ipv6_of(t)->0)
    } else {
        HostModel::Dns(t)
    }
}

/// The target that connection text denotes in the given mode.
pub open spec fn resolution(is_multiplayer: bool, t: Seq<char>) -> Target {
    if is_multiplayer {
        Target::Server(host_of(t), DEFAULT_PORT)
    } else {
        Target::World(t)
    }
}

/// Turns connection text into a target: a world name in single-player mode, a
/// classified host on the default port in multiplayer mode.
pub fn resolve(is_multiplayer: bool, text: String) -> (r: GameMode)
    ensures
        r@ == resolution(is_multiplayer, text@),
{
    if !is_multiplayer {
        return GameMode::SinglePlayer { world_name: text };
    }
    let chars = chars_of(text.as_str());
    let hostname = match ipv4_at(&chars, 0, chars.len()) {
        Some(o) => Hostname::Ipv4(o),
        None => match ipv6_in(&chars) {
            Some(g) => Hostname::Ipv6(g),
            None => Hostname::Dns(text),
        },
    };
    proof {
        assert(chars@.subrange(0, chars@.len() as int) =~= chars@);
    }
    GameMode::MultiPlayer(Address { hostname, port: DEFAULT_PORT })
}

/// Dotted-quad text of four octets.
pub open spec fn ipv4_text(o: Seq<u8>) -> Seq<char> {
    num_text(o[0] as nat, 10) + seq!['.'] + num_text(o[1] as nat, 10) + seq!['.'] + num_text(
        o[2] as nat,
        10,
    ) + seq!['.'] + num_text(o[3] as nat, 10)
}

/// Segments in lowercase hexadecimal, separated by colons.
pub open spec fn hex_join(g: Seq<u16>) -> Seq<char>
    decreases g.len(),
{
    if g.len() == 0 {
        Seq::empty()
    } else if g.len() == 1 {
        num_text(g[0] as nat, 16)
    } else {
        hex_join(g.drop_last()) + seq![':'] + num_text(g.last() as nat, 16)
    }
}

/// Scanning `g` left to right: the start and length of the first longest run of
/// zero segments, and the length of the run of zeros that `g` ends with.
pub open spec fn zero_scan(g: Seq<u16>) -> (int, int, int)
    decreases g.len(),
{
    if g.len() == 0 {
        (0, 0, 0)
    } else {
        let prev = zero_scan(g.drop_last());
        if g.last() == 0 {
            let run = prev.2 + 1;
            if run > prev.1 {
                (g.len() - run, run, run)
            } else {
                (prev.0, prev.1, run)
            }
        } else {
            (prev.0, prev.1, 0)
        }
    }
}

pub proof fn lemma_zero_scan_bounds(g: Seq<u16>)
    ensures
        0 <= zero_scan(g).0,
        0 <= zero_scan(g).1,
        zero_scan(g).0 + zero_scan(g).1 <= g.len(),
        0 <= zero_scan(g).2 <= g.len(),
    decreases g.len(),
{
    if g.len() > 0 {
        lemma_zero_scan_bounds(g.drop_last());
    }
}

/// Segments of an IPv4-mapped address: five zeros, then all ones.
pub open spec fn is_ipv4_mapped(g: Seq<u16>) -> bool {
    g.len() == 8 && g[0] == 0 && g[1] == 0 && g[2] == 0 && g[3] == 0 && g[4] == 0 && g[5]
        == 0xffff
}

/// The standard text of an IPv6 address: an IPv4-mapped one as `::ffff:` and a
/// dotted quad; otherwise the first longest run of two or more zero segments
/// becomes `::`.
pub open spec fn ipv6_text(g: Seq<u16>) -> Seq<char> {
    if is_ipv4_mapped(g) {
        seq![':', ':', 'f', 'f', 'f', 'f', ':'] + ipv4_text(
            seq![(g[6] / 256) as u8, (g[6] % 256) as u8, (g[7] / 256) as u8, (g[7] % 256) as u8],
        )
    } else {
        let z = zero_scan(g);
        if z.1 > 1 {
            hex_join(g.take(z.0)) + seq![':', ':'] + hex_join(g.skip(z.0 + z.1))
        } else {
            hex_join(g)
        }
    }
}

pub open spec fn host_text(h: HostModel) -> Seq<char> {
    match h {
        HostModel::Dns(n) => n,
        HostModel::Ipv4(o) => ipv4_text(o),
        HostModel::Ipv6(g) => ipv6_text(g),
    }
}

/// `host:port`.
pub open spec fn server_text(h: HostModel, port: u16) -> Seq<char> {
    host_text(h) + seq![':'] + num_text(port as nat, 10)
}

fn push_ipv4(s: &mut String, o: &[u8; 4])
    ensures
        final(s)@ == old(s)@ + ipv4_text(o@),
{
    push_num(s, o[0] as u32, 10);
    push_char(s, '.');
    push_num(s, o[1] as u32, 10);
    push_char(s, '.');
    push_num(s, o[2] as u32, 10);
    push_char(s, '.');
    push_num(s, o[3] as u32, 10);
    assert(final(s)@ =~= old(s)@ + ipv4_text(o@));
}

fn push_groups(s: &mut String, g: &[u16; 8], a: usize, b: usize)
    requires
        a <= b <= 8,
    ensures
        final(s)@ == old(s)@ + hex_join(g@.subrange(a as int, b as int)),
{
    let mut i: usize = a;
    while i < b
        invariant
            a <= i <= b <= 8,
            g@.len() == 8,
            s@ == old(s)@ + hex_join(g@.subrange(a as int, i as int)),
        decreases b - i,
    {
        if i > a {
            push_char(s, ':');
        }
        push_num(s, g[i] as u32, 16);
        let ghost t = g@.subrange(a as int, i + 1);
        assert(t.drop_last() =~= g@.subrange(a as int, i as int));
        i += 1;
        assert(s@ =~= old(s)@ + hex_join(g@.subrange(a as int, i as int)));
    }
}

fn zero_run(g: &[u16; 8]) -> (r: (usize, usize))
    ensures
        r.0 == zero_scan(g@).0,
        r.1 == zero_scan(g@).1,
{
    let mut best_start: usize = 0;
    let mut best_len: usize = 0;
    let mut run: usize = 0;
    let mut i: usize = 0;
    while i < 8
        invariant
            i <= 8,
            g@.len() == 8,
            zero_scan(g@.take(i as int)) == (best_start as int, best_len as int, run as int),
            run <= i,
        decreases 8 - i,
    {
        proof {
            assert(g@.take(i + 1).drop_last() =~= g@.take(i as int));
        }
        if g[i] == 0 {
            run = run + 1;
            if run > best_len {
                best_start = i + 1 - run;
                best_len = run;
            }
        } else {
            run = 0;
        }
        i += 1;
    }
    assert(g@.take(8) =~= g@);
    (best_start, best_len)
}

fn push_ipv6(s: &mut String, g: &[u16; 8])
    ensures
        final(s)@ == old(s)@ + ipv6_text(g@),
{
    if g[0] == 0 && g[1] == 0 && g[2] == 0 && g[3] == 0 && g[4] == 0 && g[5] == 0xffff {
        push_char(s, ':');
        push_char(s, ':');
        push_char(s, 'f');
        push_char(s, 'f');
        push_char(s, 'f');
        push_char(s, 'f');
        push_char(s, ':');
        let o = [(g[6] / 256) as u8, (g[6] % 256) as u8, (g[7] / 256) as u8, (g[7] % 256) as u8];
        push_ipv4(s, &o);
        assert(o@ =~= seq![(g@[6] / 256) as u8, (g@[6] % 256) as u8, (g@[7] / 256) as u8, (g@[7] % 256) as u8]);
        assert(final(s)@ =~= old(s)@ + ipv6_text(g@));
    } else {
        let (start, len) = zero_run(g);
        proof {
            lemma_zero_scan_bounds(g@);
        }
        if len > 1 {
            push_groups(s, g, 0, start);
            push_char(s, ':');
            push_char(s, ':');
            push_groups(s, g, start + len, 8);
            assert(g@.subrange(0, start as int) =~= g@.take(start as int));
            assert(g@.subrange(start + len, 8) =~= g@.skip(start + len));
            assert(final(s)@ =~= old(s)@ + ipv6_text(g@));
        } else {
            push_groups(s, g, 0, 8);
            assert(g@.subrange(0, 8) =~= g@);
        }
    }
}

impl Hostname {
    /// The host's text: the name itself, a dotted quad, or standard IPv6 text.
    pub fn to_string(&self) -> (r: String)
        ensures
            r@ == host_text(self@),
    {
        match self {
            Hostname::Dns(n) => n.clone(),
            Hostname::Ipv4(o) => {
                let mut r = String::new();
                push_ipv4(&mut r, o);
                assert(r@ =~= host_text(self@));
                r
            },
            Hostname::Ipv6(g) => {
                let mut r = String::new();
                push_ipv6(&mut r, g);
                assert(r@ =~= host_text(self@));
                r
            },
        }
    }
}

impl Address {
    /// `host:port`.
    pub fn to_string(&self) -> (r: String)
        ensures
            r@ == server_text(self.hostname@, self.port),
    {
        let mut r = self.hostname.to_string();
        push_char(&mut r, ':');
        push_num(&mut r, self.port as u32, 10);
        r
    }
}

impl Default for Address {
    /// `localhost` on the default port.
    fn default() -> (r: Self)
        ensures
            r.hostname@ == HostModel::Dns("localhost"@),
            r.port == DEFAULT_PORT,
    {
        Address { hostname: Hostname::Dns(String::from_str("localhost")), port: DEFAULT_PORT }
    }
}

/// The dotted-quad text of the address that a dotted-quad literal writes is the
/// literal itself.
pub proof fn lemma_ipv4_text_round_trip(t: Seq<char>)
    requires
        ipv4_of(t) is Some,
    ensures
        ipv4_text(ipv4_of(t)->0) == t,
{
    let f = fields(t, '.');
    let o = ipv4_of(t)->0;
    lemma_fields_joined(t, '.');
    assert forall|i: int| 0 <= i < 4 implies num_text(o[i] as nat, 10) == f[i] by {
        assert(is_octet(f[i]));
        lemma_decimal_text(f[i]);
    }
    let a = f.drop_last();
    let b = a.drop_last();
    let c = b.drop_last();
    assert(joined(c, '.') == f[0]);
    assert(joined(b, '.') == joined(c, '.') + seq!['.'] + f[1]);
    assert(joined(a, '.') == joined(b, '.') + seq!['.'] + f[2]);
    assert(joined(f, '.') == joined(a, '.') + seq!['.'] + f[3]);
    assert(joined(f, '.') =~= f[0] + seq!['.'] + f[1] + seq!['.'] + f[2] + seq!['.'] + f[3]);
    assert(ipv4_text(o) =~= t);
}

/// In multiplayer mode, a dotted-quad literal resolves to the IPv4 address it
/// writes, on the default port, and that address's text is the literal again.
pub proof fn lemma_resolve_ipv4(t: Seq<char>)
    requires
        ipv4_of(t) is Some,
    ensures
        resolution(true, t) == Target::Server(HostModel::Ipv4(ipv4_of(t)->0), DEFAULT_PORT),
        host_text(HostModel::Ipv4(ipv4_of(t)->0)) == t,
{
    lemma_ipv4_text_round_trip(t);
}

/// In multiplayer mode, an IPv6 literal that is not an IPv4 literal resolves to
/// the IPv6 address it writes, on the default port.
pub proof fn lemma_resolve_ipv6(t: Seq<char>)
    requires
        ipv6_of(t) is Some,
        ipv4_of(t) is None,
    ensures
        resolution(true, t) == Target::Server(HostModel::Ipv6(ipv6_of(t)->0), DEFAULT_PORT),
{
}

/// In multiplayer mode, text that is neither literal is kept verbatim as a DNS
/// name, and the host's text is the input again.
pub proof fn lemma_resolve_dns(t: Seq<char>)
    requires
        ipv4_of(t) is None,
        ipv6_of(t) is None,
    ensures
        resolution(true, t) == Target::Server(HostModel::Dns(t), DEFAULT_PORT),
        host_text(HostModel::Dns(t)) == t,
{
}

/// In single-player mode, any text is the world name, unclassified.
pub proof fn lemma_resolve_world(t: Seq<char>)
    ensures
        resolution(false, t) == Target::World(t),
{
}

/// Two resolutions of the same mode and text denote the same target.
pub proof fn lemma_resolve_deterministic(is_multiplayer: bool, t: Seq<char>, r1: GameMode, r2: GameMode)
    requires
        r1@ == resolution(is_multiplayer, t),
        r2@ == resolution(is_multiplayer, t),
    ensures
        r1@ == r2@,
{
}

} // verus!
