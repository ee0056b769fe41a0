//! The daemon's configuration file as a function of a declaration: one
//! `port=` line, then one block of directives per interface, in order.
use vstd::prelude::*;
use crate::config::{
    config_valid, interface_valid, lease_valid, single_line, Config, ConfigView, Interface,
    InterfaceView, LeaseView, StaticLease,
};

verus! {

pub open spec fn digit_char(d: nat) -> char {
    if d == 0 {
        '0'
    } else if d == 1 {
        '1'
    } else if d == 2 {
        '2'
    } else if d == 3 {
        '3'
    } else if d == 4 {
        '4'
    } else if d == 5 {
        '5'
    } else if d == 6 {
        '6'
    } else if d == 7 {
        '7'
    } else if d == 8 {
        '8'
    } else {
        '9'
    }
}

/// The decimal representation of `n`, without sign or leading zeros.
pub open spec fn decimal(n: nat) -> Seq<char>
    decreases n,
{
    if n < 10 {
        seq![digit_char(n)]
    } else {
        decimal(n / 10).push(digit_char(n % 10))
    }
}

pub open spec fn newline() -> Seq<char> {
    seq!['\n']
}

/// `port=<N>` and a line feed.
pub open spec fn port_line(port: nat) -> Seq<char> {
    "port="@ + decimal(port) + newline()
}

/// `dhcp-host=<mac>,<ip>` and a line feed.
pub open spec fn lease_line(l: LeaseView) -> Seq<char> {
    "dhcp-host="@ + l.mac + ","@ + l.ip + newline()
}

/// The lease lines of a sequence of leases, in order.
pub open spec fn leases_text(ls: Seq<LeaseView>) -> Seq<char>
    decreases ls.len(),
{
    if ls.len() == 0 {
        Seq::empty()
    } else {
        leases_text(ls.drop_last()) + lease_line(ls.last())
    }
}

/// The directives before the lease lines of an interface's block.
pub open spec fn block_head(i: InterfaceView) -> Seq<char> {
    "interface="@ + i.name + newline() + (if i.bind_interfaces {
        "bind-interfaces\n"@
    } else {
        Seq::empty()
    }) + "dhcp-range="@ + i.dhcp_range + newline()
}

/// The block of one interface, closed by a blank line.
pub open spec fn interface_block(i: InterfaceView) -> Seq<char> {
    block_head(i) + leases_text(i.static_leases) + newline()
}

/// The blocks of a sequence of interfaces, in order.
pub open spec fn blocks_text(ifs: Seq<InterfaceView>) -> Seq<char>
    decreases ifs.len(),
{
    if ifs.len() == 0 {
        Seq::empty()
    } else {
        blocks_text(ifs.drop_last()) + interface_block(ifs.last())
    }
}

/// The whole configuration file of the daemon for a declaration.
pub open spec fn emit(c: ConfigView) -> Seq<char> {
    port_line(c.port) + blocks_text(c.interfaces)
}

fn digit_str(d: usize) -> (r: &'static str)
    requires
        d < 10,
    ensures
        r@ == seq![digit_char(d as nat)],
{
    proof {
        reveal_strlit("0");
        reveal_strlit("1");
        reveal_strlit("2");
        reveal_strlit("3");
        reveal_strlit("4");
        reveal_strlit("5");
        reveal_strlit("6");
        reveal_strlit("7");
        reveal_strlit("8");
        reveal_strlit("9");
    }
    match d {
        0 => "0",
        1 => "1",
        2 => "2",
        3 => "3",
        4 => "4",
        5 => "5",
        6 => "6",
        7 => "7",
        8 => "8",
        _ => "9",
    }
}

/// Appends the decimal representation of `n` to `out`.
fn push_decimal(out: &mut String, n: usize)
    ensures
        final(out)@ == old(out)@ + decimal(n as nat),
    decreases n,
{
    if n >= 10 {
        push_decimal(out, n / 10);
    }
    out.append(digit_str(n % 10));
    proof {
        if n >= 10 {
            assert(old(out)@ + decimal(n as nat) =~= old(out)@ + decimal((n / 10) as nat) + seq![
                digit_char((n % 10) as nat),
            ]);
        }
    }
}

fn push_line(out: &mut String, key: &str, value: &String)
    ensures
        final(out)@ == old(out)@ + key@ + value@ + newline(),
{
    out.append(key);
    out.append(value.as_str());
    out.append("\n");
    proof {
        reveal_strlit("\n");
        assert(final(out)@ =~= old(out)@ + key@ + value@ + newline());
    }
}

fn push_leases(out: &mut String, leases: &Vec<StaticLease>)
    ensures
        final(out)@ == old(out)@ + leases_text(leases@.map_values(|l: StaticLease| l@)),
{
    let ghost start = out@;
    let ghost ls = leases@.map_values(|l: StaticLease| l@);
    let mut k: usize = 0;
    while k < leases.len()
        invariant
            k <= leases.len(),
            ls == leases@.map_values(|l: StaticLease| l@),
            out@ == start + leases_text(ls.take(k as int)),
        decreases leases.len() - k,
    {
        let lease = &leases[k];
        out.append("dhcp-host=");
        out.append(lease.mac.as_str());
        out.append(",");
        out.append(lease.ip.as_str());
        out.append("\n");
        proof {
            reveal_strlit("\n");
            assert(ls.take(k + 1 as int).drop_last() =~= ls.take(k as int));
            assert(ls.take(k + 1 as int).last() == lease@);
            assert(out@ =~= start + leases_text(ls.take(k + 1 as int)));
        }
        k += 1;
    }
    assert(ls.take(k as int) =~= ls);
}

fn push_block(out: &mut String, i: &Interface)
    ensures
        final(out)@ == old(out)@ + interface_block(i@),
{
    let ghost start = out@;
    push_line(out, "interface=", &i.name);
    if i.bind_interfaces {
        out.append("bind-interfaces\n");
    }
    push_line(out, "dhcp-range=", &i.dhcp_range);
    assert(out@ =~= start + block_head(i@));
    push_leases(out, &i.static_leases);
    out.append("\n");
    proof {
        reveal_strlit("\n");
        assert(out@ =~= start + interface_block(i@));
    }
}

/// Produces the daemon's configuration file for a declaration: `port=<N>`,
/// then for each interface in order `interface=`, `bind-interfaces` when
/// asked for, `dhcp-range=`, one `dhcp-host=<mac>,<ip>` per lease in order,
/// and a blank line.
pub fn generate_dnsmasq_conf(config: &Config) -> (r: String)
    ensures
        r@ == emit(config@),
{
    let mut conf = String::new();
    conf.append("port=");
    push_decimal(&mut conf, config.dhcp_config.port);
    conf.append("\n");
    proof {
        reveal_strlit("\n");
        assert(conf@ =~= port_line(config@.port));
    }
    let ghost ifs = config@.interfaces;
    let mut k: usize = 0;
    while k < config.interfaces.len()
        invariant
            k <= config.interfaces.len(),
            ifs == config@.interfaces,
            ifs.len() == config.interfaces.len(),
            conf@ == port_line(config@.port) + blocks_text(ifs.take(k as int)),
        decreases config.interfaces.len() - k,
    {
        push_block(&mut conf, &config.interfaces[k]);
        proof {
            assert(ifs.take(k + 1 as int).drop_last() =~= ifs.take(k as int));
            assert(ifs.take(k + 1 as int).last() == config.interfaces@[k as int]@);
            assert(conf@ =~= port_line(config@.port) + blocks_text(ifs.take(k + 1 as int)));
        }
        k += 1;
    }
    assert(ifs.take(k as int) =~= ifs);
    conf
}

/// Two declarations with the same content give the same file: the output
/// depends on nothing but the declaration.
pub proof fn lemma_emit_deterministic(a: ConfigView, b: ConfigView)
    requires
        a == b,
    ensures
        emit(a) == emit(b),
{
}

/// Laying interfaces side by side lays their blocks side by side.
pub proof fn lemma_blocks_concat(a: Seq<InterfaceView>, b: Seq<InterfaceView>)
    ensures
        blocks_text(a + b) == blocks_text(a) + blocks_text(b),
    decreases b.len(),
{
    if b.len() == 0 {
        assert(a + b =~= a);
        assert(blocks_text(a) + blocks_text(b) =~= blocks_text(a));
    } else {
        assert((a + b).drop_last() =~= a + b.drop_last());
        lemma_blocks_concat(a, b.drop_last());
        assert(blocks_text(a + b) =~= blocks_text(a) + blocks_text(b));
    }
}

/// Laying leases side by side lays their `dhcp-host` lines side by side.
pub proof fn lemma_leases_concat(a: Seq<LeaseView>, b: Seq<LeaseView>)
    ensures
        leases_text(a + b) == leases_text(a) + leases_text(b),
    decreases b.len(),
{
    if b.len() == 0 {
        assert(a + b =~= a);
        assert(leases_text(a) + leases_text(b) =~= leases_text(a));
    } else {
        assert((a + b).drop_last() =~= a + b.drop_last());
        lemma_leases_concat(a, b.drop_last());
        assert(leases_text(a + b) =~= leases_text(a) + leases_text(b));
    }
}

/// The block of the interface at position `k` stands after the port line
/// and the blocks of the interfaces before it, and before the blocks of
/// those after it.
pub proof fn lemma_interface_order(c: ConfigView, k: int)
    requires
        0 <= k < c.interfaces.len(),
    ensures
        emit(c) == port_line(c.port) + blocks_text(c.interfaces.take(k)) + interface_block(
            c.interfaces[k],
        ) + blocks_text(c.interfaces.skip(k + 1)),
{
    let ifs = c.interfaces;
    assert(ifs =~= ifs.take(k + 1) + ifs.skip(k + 1));
    lemma_blocks_concat(ifs.take(k + 1), ifs.skip(k + 1));
    assert(ifs.take(k + 1).drop_last() =~= ifs.take(k));
    assert(emit(c) =~= port_line(c.port) + blocks_text(ifs.take(k)) + interface_block(ifs[k])
        + blocks_text(ifs.skip(k + 1)));
}

/// The `dhcp-host` line of the lease at position `k` stands after the lines
/// of the leases before it, and before the lines of those after it.
pub proof fn lemma_lease_order(ls: Seq<LeaseView>, k: int)
    requires
        0 <= k < ls.len(),
    ensures
        leases_text(ls) == leases_text(ls.take(k)) + lease_line(ls[k]) + leases_text(
            ls.skip(k + 1),
        ),
{
    assert(ls =~= ls.take(k + 1) + ls.skip(k + 1));
    lemma_leases_concat(ls.take(k + 1), ls.skip(k + 1));
    assert(ls.take(k + 1).drop_last() =~= ls.take(k));
    assert(leases_text(ls) =~= leases_text(ls.take(k)) + lease_line(ls[k]) + leases_text(
        ls.skip(k + 1),
    ));
}

pub open spec fn free_of_cr(s: Seq<char>) -> bool {
    forall|k: int| 0 <= k < s.len() ==> #[trigger] s[k] != '\r'
}

proof fn lemma_free_concat(a: Seq<char>, b: Seq<char>)
    requires
        free_of_cr(a),
        free_of_cr(b),
    ensures
        free_of_cr(a + b),
{
    assert forall|k: int| 0 <= k < (a + b).len() implies #[trigger] (a + b)[k] != '\r' by {
        if k >= a.len() {
            assert((a + b)[k] == b[k - a.len()]);
        }
    }
}

proof fn lemma_decimal_free(n: nat)
    ensures
        free_of_cr(decimal(n)),
    decreases n,
{
    if n >= 10 {
        lemma_decimal_free(n / 10);
        lemma_free_concat(decimal(n / 10), seq![digit_char(n % 10)]);
        assert(decimal(n) =~= decimal(n / 10) + seq![digit_char(n % 10)]);
    }
}

proof fn lemma_leases_free(ls: Seq<LeaseView>)
    requires
        forall|k: int| 0 <= k < ls.len() ==> lease_valid(#[trigger] ls[k]),
    ensures
        free_of_cr(leases_text(ls)),
    decreases ls.len(),
{
    if ls.len() > 0 {
        reveal_strlit("dhcp-host=");
        reveal_strlit(",");
        let l = ls.last();
        assert(lease_valid(ls[ls.len() - 1]));
        assert(single_line(l.mac) && single_line(l.ip));
        assert(free_of_cr(l.mac));
        assert(free_of_cr(l.ip));
        lemma_leases_free(ls.drop_last());
        lemma_free_concat("dhcp-host="@, l.mac);
        lemma_free_concat("dhcp-host="@ + l.mac, ","@);
        lemma_free_concat("dhcp-host="@ + l.mac + ","@, l.ip);
        lemma_free_concat("dhcp-host="@ + l.mac + ","@ + l.ip, newline());
        lemma_free_concat(leases_text(ls.drop_last()), lease_line(l));
    }
}

proof fn lemma_block_free(i: InterfaceView)
    requires
        interface_valid(i),
    ensures
        free_of_cr(interface_block(i)),
{
    reveal_strlit("interface=");
    reveal_strlit("bind-interfaces\n");
    reveal_strlit("dhcp-range=");
    let bind: Seq<char> = if i.bind_interfaces {
        "bind-interfaces\n"@
    } else {
        Seq::empty()
    };
    assert(free_of_cr(i.name));
    assert(free_of_cr(i.dhcp_range));
    assert(free_of_cr(bind));
    lemma_free_concat("interface="@, i.name);
    lemma_free_concat("interface="@ + i.name, newline());
    lemma_free_concat("interface="@ + i.name + newline(), bind);
    lemma_free_concat("interface="@ + i.name + newline() + bind, "dhcp-range="@);
    lemma_free_concat("interface="@ + i.name + newline() + bind + "dhcp-range="@, i.dhcp_range);
    lemma_free_concat(
        "interface="@ + i.name + newline() + bind + "dhcp-range="@ + i.dhcp_range,
        newline(),
    );
    lemma_leases_free(i.static_leases);
    lemma_free_concat(block_head(i), leases_text(i.static_leases));
    lemma_free_concat(block_head(i) + leases_text(i.static_leases), newline());
}

proof fn lemma_blocks_free(ifs: Seq<InterfaceView>)
    requires
        forall|k: int| 0 <= k < ifs.len() ==> interface_valid(#[trigger] ifs[k]),
    ensures
        free_of_cr(blocks_text(ifs)),
    decreases ifs.len(),
{
    if ifs.len() > 0 {
        assert(interface_valid(ifs[ifs.len() - 1]));
        lemma_blocks_free(ifs.drop_last());
        lemma_block_free(ifs.last());
        lemma_free_concat(blocks_text(ifs.drop_last()), interface_block(ifs.last()));
    }
}

/// The file of a valid declaration holds no carriage return.
pub proof fn lemma_no_carriage_return(c: ConfigView)
    requires
        config_valid(c),
    ensures
        forall|k: int| 0 <= k < emit(c).len() ==> #[trigger] emit(c)[k] != '\r',
{
    reveal_strlit("port=");
    lemma_decimal_free(c.port);
    lemma_free_concat("port="@, decimal(c.port));
    lemma_free_concat("port="@ + decimal(c.port), newline());
    lemma_blocks_free(c.interfaces);
    lemma_free_concat(port_line(c.port), blocks_text(c.interfaces));
}

/// Without interfaces the file is the port line alone, with no blank line.
pub proof fn lemma_no_interfaces(c: ConfigView)
    requires
        c.interfaces.len() == 0,
    ensures
        emit(c) == "port="@ + decimal(c.port) + seq!['\n'],
{
    assert(emit(c) =~= port_line(c.port));
}

/// An interface without leases has no `dhcp-host` line: its block is its
/// head directives followed by the blank line.
pub proof fn lemma_block_without_leases(i: InterfaceView)
    requires
        i.static_leases.len() == 0,
    ensures
        interface_block(i) == block_head(i) + seq!['\n'],
{
    assert(interface_block(i) =~= block_head(i) + seq!['\n']);
}

/// An interface that does not ask for binding has no `bind-interfaces` line.
pub proof fn lemma_block_without_bind(i: InterfaceView)
    requires
        !i.bind_interfaces,
    ensures
        interface_block(i) == "interface="@ + i.name + seq!['\n'] + "dhcp-range="@ + i.dhcp_range
            + seq!['\n'] + leases_text(i.static_leases) + seq!['\n'],
{
    assert(interface_block(i) =~= "interface="@ + i.name + seq!['\n'] + "dhcp-range="@
        + i.dhcp_range + seq!['\n'] + leases_text(i.static_leases) + seq!['\n']);
}

/// Port 0 is written as `port=0`, like any other port.
pub proof fn lemma_port_zero(c: ConfigView)
    requires
        c.port == 0,
    ensures
        emit(c) == seq!['p', 'o', 'r', 't', '=', '0', '\n'] + blocks_text(c.interfaces),
{
    reveal_strlit("port=");
    assert(port_line(0) =~= seq!['p', 'o', 'r', 't', '=', '0', '\n']);
}

} // verus!
