//! What a scan run is asked to do: the ports, the target, the number of
//! workers, the connection timeout, the output file and the service table.
//!
//! The command line and the files are read elsewhere. Here their texts are
//! validated and turned into values that the scan can rely on.

use crate::ports::{normalized, PortSet, PortSpecError, MAX_PORT};
use crate::services::{all_text, json_object, names_of, ServiceTable, TableError};
use crate::text::{decimal_number, parse_decimal, text_of};
use vstd::prelude::*;
use vstd::string::StringExecFns;

verus! {

/// The greatest number of workers that can be asked for.
pub const MAX_WORKERS: u64 = 2147483647;

/// Why a scan run cannot be configured.
#[derive(Clone, Copy, Debug, PartialEq, Eq, Structural)]
pub enum OptionsError {
    /// The service table cannot be used.
    Table(TableError),
    /// A port is not a decimal number between 0 and 65535.
    InvalidPort,
    /// The ports name no range.
    Ports(PortSpecError),
    /// The number of workers is not a decimal number that can be asked for.
    InvalidThreads,
    /// No worker was asked for.
    NoThreads,
    /// The connection timeout is zero.
    NoTimeout,
}

/// The validated settings of one scan run.
pub struct Options {
    ports: PortSet,
    target: String,
    threads_number: usize,
    connection_timeout_nanos: u64,
    output_file: Option<String>,
    common_ports: ServiceTable,
}

/// The port that a command-line argument names, if it names one.
pub open spec fn port_of(arg: Seq<char>) -> Option<nat> {
    decimal_number(arg, MAX_PORT as nat)
}

/// Whether every argument names a port.
pub open spec fn all_ports(args: Seq<String>) -> bool {
    forall|i: int| 0 <= i < args.len() ==> port_of(#[trigger] args[i]@) is Some
}

/// The ports that the arguments name, in the same order.
pub open spec fn ports_of(args: Seq<String>) -> Seq<u16> {
    Seq::new(args.len(), |i: int| port_of(args[i]@)->0 as u16)
}

/// What is wrong with the settings, if anything: the first fault in the
/// order ports, number of workers, timeout.
pub open spec fn settings_fault(
    port_args: Seq<String>,
    threads_number: Seq<char>,
    connection_timeout_nanos: u64,
) -> Option<OptionsError> {
    if !all_ports(port_args) {
        Some(OptionsError::InvalidPort)
    } else if normalized(ports_of(port_args)) is Err {
        Some(OptionsError::Ports(normalized(ports_of(port_args))->Err_0))
    } else if decimal_number(threads_number, MAX_WORKERS as nat) is None {
        Some(OptionsError::InvalidThreads)
    } else if decimal_number(threads_number, MAX_WORKERS as nat) == Some(0nat) {
        Some(OptionsError::NoThreads)
    } else if connection_timeout_nanos == 0 {
        Some(OptionsError::NoTimeout)
    } else {
        None
    }
}

/// What is wrong with the entries read from the service table's text, if
/// anything.
pub open spec fn table_fault(parsed: Option<Map<Seq<char>, Option<Seq<char>>>>) -> Option<
    TableError,
> {
    match parsed {
        None => Some(TableError::NotAnObject),
        Some(entries) => if all_text(entries) {
            None
        } else {
            Some(TableError::NotAName)
        },
    }
}

impl Options {
    /// The settings' invariant: the range is in order, there is a worker and
    /// the timeout is not zero.
    pub closed spec fn wf(&self) -> bool {
        &&& self.ports.wf()
        &&& self.threads_number > 0
        &&& self.connection_timeout_nanos > 0
        &&& self.common_ports.wf()
    }

    /// The range of ports to probe.
    pub closed spec fn port_set(&self) -> PortSet {
        self.ports
    }

    /// The host to probe, as given.
    pub closed spec fn host(&self) -> Seq<char> {
        self.target@
    }

    /// The number of workers.
    pub closed spec fn workers(&self) -> int {
        self.threads_number as int
    }

    /// The connection timeout in nanoseconds.
    pub closed spec fn timeout(&self) -> int {
        self.connection_timeout_nanos as int
    }

    /// The file to append the report to, if any.
    pub closed spec fn output(&self) -> Option<Seq<char>> {
        match self.output_file {
            Some(path) => Some(path@),
            None => None,
        }
    }

    /// The service table.
    pub closed spec fn table(&self) -> ServiceTable {
        self.common_ports
    }

    /// The range of ports to probe.
    pub fn ports(&self) -> (set: PortSet)
        ensures
            set == self.port_set(),
    {
        self.ports
    }

    /// The host to probe, as given.
    pub fn target(&self) -> (host: &str)
        ensures
            host@ == self.host(),
    {
        self.target.as_str()
    }

    /// The number of workers.
    pub fn threads_number(&self) -> (n: usize)
        ensures
            n == self.workers(),
    {
        self.threads_number
    }

    /// The connection timeout in nanoseconds.
    pub fn connection_timeout_nanos(&self) -> (nanos: u64)
        ensures
            nanos == self.timeout(),
    {
        self.connection_timeout_nanos
    }

    /// The file to append the report to, if any.
    pub fn output_file(&self) -> (path: &Option<String>)
        ensures
            path matches Some(p) ==> self.output() == Some(p@),
            path is None ==> self.output() is None,
    {
        &self.output_file
    }

    /// The service table.
    pub fn common_ports(&self) -> (table: &ServiceTable)
        ensures
            *table == self.table(),
    {
        &self.common_ports
    }

    /// Gives up the settings for what the scan itself takes: the range, the
    /// number of workers and the service table.
    pub fn into_parts(self) -> (parts: (PortSet, usize, ServiceTable))
        ensures
            parts.0 == self.port_set(),
            parts.1 == self.workers(),
            parts.2 == self.table(),
            self.wf() ==> parts.0.wf() && parts.1 > 0 && parts.2.wf(),
    {
        (self.ports, self.threads_number, self.common_ports)
    }
}

/// Reads the port arguments of the command line.
pub fn parse_ports(port_args: &Vec<String>) -> (ports: Option<Vec<u16>>)
    ensures
        ports is Some <==> all_ports(port_args@),
        ports matches Some(list) ==> list@ == ports_of(port_args@),
{
    let mut list: Vec<u16> = Vec::new();
    let mut i: usize = 0;
    while i < port_args.len()
        invariant
            i <= port_args.len(),
            list.len() == i,
            forall|j: int| 0 <= j < i ==> port_of(#[trigger] port_args[j]@) is Some,
            forall|j: int| 0 <= j < i ==> list[j] == port_of(port_args[j]@)->0,
        decreases port_args.len() - i,
    {
        match parse_decimal(port_args[i].as_str(), MAX_PORT as u64) {
            Some(port) => {
                list.push(port as u16);
            },
            None => {
                return None;
            },
        }
        i = i + 1;
    }
    assert(list@ =~= ports_of(port_args@));
    Some(list)
}

/// Validates the settings of a scan run against a service table that has
/// been read already.
pub fn configure(
    port_args: &Vec<String>,
    target: &str,
    threads_number: &str,
    connection_timeout_nanos: u64,
    output_file: Option<String>,
    common_ports: ServiceTable,
) -> (made: Result<Options, OptionsError>)
    requires
        common_ports.wf(),
    ensures
        made is Ok <==> settings_fault(port_args@, threads_number@, connection_timeout_nanos)
            is None,
        made matches Err(error) ==> settings_fault(
            port_args@,
            threads_number@,
            connection_timeout_nanos,
        ) == Some(error),
        made matches Ok(options) ==> {
            &&& options.wf()
            &&& normalized(ports_of(port_args@)) == Ok::<(int, int), PortSpecError>(
                (options.port_set().first() as int, options.port_set().last() as int),
            )
            &&& options.host() == target@
            &&& Some(options.workers() as nat) == decimal_number(
                threads_number@,
                MAX_WORKERS as nat,
            )
            &&& options.timeout() == connection_timeout_nanos
            &&& options.output() == text_of(output_file)
            &&& options.table() == common_ports
        },
{
    let given = match parse_ports(port_args) {
        Some(given) => given,
        None => {
            return Err(OptionsError::InvalidPort);
        },
    };
    let ports = match PortSet::normalize(&given) {
        Ok(ports) => ports,
        Err(error) => {
            return Err(OptionsError::Ports(error));
        },
    };
    let workers = match parse_decimal(threads_number, MAX_WORKERS) {
        Some(workers) => workers,
        None => {
            return Err(OptionsError::InvalidThreads);
        },
    };
    if workers == 0 {
        return Err(OptionsError::NoThreads);
    }
    if connection_timeout_nanos == 0 {
        return Err(OptionsError::NoTimeout);
    }
    Ok(
        Options {
            ports,
            target: String::from_str(target),
            threads_number: workers as usize,
            connection_timeout_nanos,
            output_file,
            common_ports,
        },
    )
}

/// Validates the settings of a scan run: the service table's text first,
/// then the ports, the number of workers and the timeout.
pub fn get_options(
    port_args: &Vec<String>,
    target: &str,
    threads_number: &str,
    connection_timeout_nanos: u64,
    output_file: Option<String>,
    common_ports: &str,
) -> (made: Result<Options, OptionsError>)
    ensures
        made is Ok <==> table_fault(json_object(common_ports@)) is None && settings_fault(
            port_args@,
            threads_number@,
            connection_timeout_nanos,
        ) is None,
        made matches Err(error) ==> error == (match table_fault(json_object(common_ports@)) {
            Some(fault) => OptionsError::Table(fault),
            None => settings_fault(port_args@, threads_number@, connection_timeout_nanos)->0,
        }),
        made matches Ok(options) ==> {
            &&& options.wf()
            &&& normalized(ports_of(port_args@)) == Ok::<(int, int), PortSpecError>(
                (options.port_set().first() as int, options.port_set().last() as int),
            )
            &&& options.host() == target@
            &&& Some(options.workers() as nat) == decimal_number(
                threads_number@,
                MAX_WORKERS as nat,
            )
            &&& options.timeout() == connection_timeout_nanos
            &&& options.output() == text_of(output_file)
            &&& options.table()@ == names_of(json_object(common_ports@)->0)
        },
{
    match ServiceTable::from_json(common_ports) {
        Ok(table) => configure(
            port_args,
            target,
            threads_number,
            connection_timeout_nanos,
            output_file,
            table,
        ),
        Err(error) => Err(OptionsError::Table(error)),
    }
}

/// The host of a scan: the name that was given and the address it stands
/// for.
pub struct ScanTarget {
    hostname: String,
    ip: String,
}

impl ScanTarget {
    /// The name that was given.
    pub closed spec fn name(&self) -> Seq<char> {
        self.hostname@
    }

    /// The address that the probes connect to.
    pub closed spec fn address(&self) -> Seq<char> {
        self.ip@
    }

    /// The name that was given.
    pub fn hostname(&self) -> (name: &str)
        ensures
            name@ == self.name(),
    {
        self.hostname.as_str()
    }

    /// The address that the probes connect to.
    pub fn ip(&self) -> (address: &str)
        ensures
            address@ == self.address(),
    {
        self.ip.as_str()
    }

    /// Gives up the target for the name that was given.
    pub fn into_hostname(self) -> (name: String)
        ensures
            name@ == self.name(),
    {
        self.hostname
    }
}

/// What is handed to the resolver for a host: its name, a colon and the
/// port 80.
pub fn lookup_address(hostname: &str) -> (query: String)
    ensures
        query@ == hostname@ + ":80"@,
{
    let mut query = String::from_str(hostname);
    query.append(":80");
    query
}

/// Picks the address of a host from what the resolver found for it: the
/// first address, with the host's name kept beside it. There is no target
/// where the resolver found nothing.
pub fn get_ip(hostname: &str, addresses: &Vec<String>) -> (target: Option<ScanTarget>)
    ensures
        target is Some <==> addresses.len() > 0,
        target matches Some(found) ==> found.name() == hostname@ && found.address()
            == addresses[0]@,
{
    if addresses.len() == 0 {
        None
    } else {
        Some(ScanTarget { hostname: String::from_str(hostname), ip: addresses[0].clone() })
    }
}

} // verus!
