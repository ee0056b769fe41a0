//! The configuration model: what an operator declares about the site, and the
//! structural rules a declaration must obey before anything is emitted.
use vstd::prelude::*;

verus! {

/// A fixed binding of a hardware address to an IP address. Both values are
/// opaque to this library and are passed to the daemon verbatim.
pub struct StaticLease {
    pub mac: String,
    pub ip: String,
}

/// One network interface the daemon serves.
pub struct Interface {
    pub name: String,
    pub bind_interfaces: bool,
    pub dhcp_range: String,
    pub static_leases: Vec<StaticLease>,
}

/// Global daemon settings: where its configuration file goes and its DNS port.
pub struct DHCPConfig {
    pub conf: String,
    pub port: usize,
}

/// The whole declaration. The order of `interfaces` is significant.
pub struct Config {
    pub dhcp_config: DHCPConfig,
    pub interfaces: Vec<Interface>,
}

pub struct LeaseView {
    pub mac: Seq<char>,
    pub ip: Seq<char>,
}

pub struct InterfaceView {
    pub name: Seq<char>,
    pub bind_interfaces: bool,
    pub dhcp_range: Seq<char>,
    pub static_leases: Seq<LeaseView>,
}

pub struct ConfigView {
    pub conf: Seq<char>,
    pub port: nat,
    pub interfaces: Seq<InterfaceView>,
}

impl View for StaticLease {
    type V = LeaseView;

    open spec fn view(&self) -> LeaseView {
        LeaseView { mac: self.mac@, ip: self.ip@ }
    }
}

impl View for Interface {
    type V = InterfaceView;

    open spec fn view(&self) -> InterfaceView {
        InterfaceView {
            name: self.name@,
            bind_interfaces: self.bind_interfaces,
            dhcp_range: self.dhcp_range@,
            static_leases: self.static_leases@.map_values(|l: StaticLease| l@),
        }
    }
}

impl View for Config {
    type V = ConfigView;

    open spec fn view(&self) -> ConfigView {
        ConfigView {
            conf: self.dhcp_config.conf@,
            port: self.dhcp_config.port as nat,
            interfaces: self.interfaces@.map_values(|i: Interface| i@),
        }
    }
}

/// Why a declaration that has the right shape is still refused.
#[derive(PartialEq, Eq, Structural, Clone, Copy, Debug)]
pub enum SchemaError {
    /// A field is missing or holds a value of the wrong kind.
    Shape,
    /// The output path of the daemon's configuration is empty.
    ConfPathEmpty,
    /// The interface at this position has an empty name.
    InterfaceNameEmpty(usize),
    /// A value of the interface at this position, or of one of its leases,
    /// holds a line break.
    LineBreak(usize),
}

/// A line feed or a carriage return: neither may appear inside a value.
pub open spec fn is_line_break(c: char) -> bool {
    c == '\n' || c == '\r'
}

pub open spec fn single_line(s: Seq<char>) -> bool {
    forall|k: int| 0 <= k < s.len() ==> !is_line_break(#[trigger] s[k])
}

pub open spec fn lease_valid(l: LeaseView) -> bool {
    single_line(l.mac) && single_line(l.ip)
}

pub open spec fn leases_valid(ls: Seq<LeaseView>) -> bool {
    forall|k: int| 0 <= k < ls.len() ==> lease_valid(#[trigger] ls[k])
}

/// What is wrong with one interface, if anything; `index` is its position.
pub open spec fn interface_problem(i: InterfaceView, index: nat) -> Option<SchemaError> {
    if i.name.len() == 0 {
        Some(SchemaError::InterfaceNameEmpty(index as usize))
    } else if !(single_line(i.name) && single_line(i.dhcp_range) && leases_valid(i.static_leases)) {
        Some(SchemaError::LineBreak(index as usize))
    } else {
        None
    }
}

/// The problem of the first interface that has one.
pub open spec fn interfaces_problem(ifs: Seq<InterfaceView>) -> Option<SchemaError>
    decreases ifs.len(),
{
    if ifs.len() == 0 {
        None
    } else {
        match interfaces_problem(ifs.drop_last()) {
            Some(e) => Some(e),
            None => interface_problem(ifs.last(), (ifs.len() - 1) as nat),
        }
    }
}

/// The outcome of checking a declaration: the first rule it breaks, if any.
pub open spec fn schema_check(c: ConfigView) -> Result<(), SchemaError> {
    if c.conf.len() == 0 {
        Err(SchemaError::ConfPathEmpty)
    } else {
        match interfaces_problem(c.interfaces) {
            Some(e) => Err(e),
            None => Ok(()),
        }
    }
}

pub open spec fn interface_valid(i: InterfaceView) -> bool {
    i.name.len() > 0 && single_line(i.name) && single_line(i.dhcp_range) && leases_valid(
        i.static_leases,
    )
}

/// A declaration that obeys every structural rule.
pub open spec fn config_valid(c: ConfigView) -> bool {
    &&& c.conf.len() > 0
    &&& forall|k: int| 0 <= k < c.interfaces.len() ==> interface_valid(#[trigger] c.interfaces[k])
}

proof fn lemma_interfaces_problem_none(ifs: Seq<InterfaceView>)
    ensures
        interfaces_problem(ifs) is None <==> forall|k: int|
            0 <= k < ifs.len() ==> interface_valid(#[trigger] ifs[k]),
    decreases ifs.len(),
{
    if ifs.len() > 0 {
        lemma_interfaces_problem_none(ifs.drop_last());
        assert forall|k: int| 0 <= k < ifs.len() - 1 implies ifs.drop_last()[k] == ifs[k] by {}
    }
}

/// A declaration passes the check exactly when it is valid.
pub proof fn lemma_schema_check_ok(c: ConfigView)
    ensures
        schema_check(c) is Ok <==> config_valid(c),
{
    lemma_interfaces_problem_none(c.interfaces);
}

fn has_line_break(s: &String) -> (r: bool)
    ensures
        r == !single_line(s@),
{
    let n = s.as_str().unicode_len();
    let mut k: usize = 0;
    while k < n
        invariant
            n == s@.len(),
            k <= n,
            forall|j: int| 0 <= j < k ==> !is_line_break(#[trigger] s@[j]),
        decreases n - k,
    {
        let c = s.as_str().get_char(k);
        if c == '\n' || c == '\r' {
            return true;
        }
        k += 1;
    }
    false
}

fn leases_have_line_break(ls: &Vec<StaticLease>) -> (r: bool)
    ensures
        r == !leases_valid(ls@.map_values(|l: StaticLease| l@)),
{
    let ghost v = ls@.map_values(|l: StaticLease| l@);
    let mut k: usize = 0;
    while k < ls.len()
        invariant
            k <= ls.len(),
            v == ls@.map_values(|l: StaticLease| l@),
            forall|j: int| 0 <= j < k ==> lease_valid(#[trigger] v[j]),
        decreases ls.len() - k,
    {
        if has_line_break(&ls[k].mac) || has_line_break(&ls[k].ip) {
            assert(!lease_valid(v[k as int]));
            return true;
        }
        k += 1;
    }
    false
}

fn check_interface(i: &Interface, index: usize) -> (r: Option<SchemaError>)
    ensures
        r == interface_problem(i@, index as nat),
{
    if i.name.as_str().unicode_len() == 0 {
        Some(SchemaError::InterfaceNameEmpty(index))
    } else if has_line_break(&i.name) || has_line_break(&i.dhcp_range) || leases_have_line_break(
        &i.static_leases,
    ) {
        Some(SchemaError::LineBreak(index))
    } else {
        None
    }
}

/// Checks the structural rules of a declaration and reports the first one
/// it breaks: an empty output path, then, interface by interface in order,
/// an empty name or a value that holds a line break.
pub fn validate(config: &Config) -> (r: Result<(), SchemaError>)
    ensures
        r == schema_check(config@),
        r is Ok <==> config_valid(config@),
{
    proof {
        lemma_schema_check_ok(config@);
    }
    if config.dhcp_config.conf.as_str().unicode_len() == 0 {
        return Err(SchemaError::ConfPathEmpty);
    }
    let ghost ifs = config@.interfaces;
    let mut k: usize = 0;
    while k < config.interfaces.len()
        invariant
            k <= config.interfaces.len(),
            ifs == config@.interfaces,
            config@.conf.len() > 0,
            ifs.len() == config.interfaces.len(),
            interfaces_problem(ifs.take(k as int)) is None,
        decreases config.interfaces.len() - k,
    {
        let p = check_interface(&config.interfaces[k], k);
        proof {
            assert(ifs.take(k + 1 as int).drop_last() =~= ifs.take(k as int));
            assert(ifs.take(k + 1 as int).last() == config.interfaces@[k as int]@);
        }
        if p.is_some() {
            proof {
                assert(ifs.take(k + 1 as int).len() == k + 1);
                assert(interfaces_problem(ifs.take(k + 1 as int)) == p);
                lemma_first_problem_stays(ifs, (k + 1) as nat);
            }
            return Err(p.unwrap());
        }
        k += 1;
    }
    assert(ifs.take(k as int) =~= ifs);
    Ok(())
}

/// Once a prefix of the interfaces has a problem, the whole sequence has
/// that same first problem.
proof fn lemma_first_problem_stays(ifs: Seq<InterfaceView>, n: nat)
    requires
        n <= ifs.len(),
        interfaces_problem(ifs.take(n as int)) is Some,
    ensures
        interfaces_problem(ifs) == interfaces_problem(ifs.take(n as int)),
    decreases ifs.len() - n,
{
    if n < ifs.len() {
        assert(ifs.take(n + 1 as int).drop_last() =~= ifs.take(n as int));
        lemma_first_problem_stays(ifs, n + 1);
    } else {
        assert(ifs.take(n as int) =~= ifs);
    }
}

} // verus!
