//! The result collector: the single owner of the list of open ports.
//!
//! Each port that a probe found open is handed to the collector once. The
//! collector looks up its service name and appends one entry to the list, in
//! the order of discovery.

use crate::services::ServiceTable;
use crate::text::{decimal, render_decimal};
use vstd::prelude::*;
use vstd::string::StringExecFns;

verus! {

/// The entry of one open port: its number, a space and its service name,
/// which is empty where the service table does not list the port.
pub open spec fn entry_text(port: u16, service: Seq<char>) -> Seq<char> {
    decimal(port as nat) + seq![' '] + service
}

/// The console line that announces one open port.
pub open spec fn notice_text(port: u16) -> Seq<char> {
    "[+] Open Port: "@ + decimal(port as nat)
}

/// The characters of each string of a list.
pub open spec fn texts(list: Seq<String>) -> Seq<Seq<char>> {
    Seq::new(list.len(), |i: int| list[i]@)
}

/// The entries of a list of open ports, in the same order.
pub open spec fn entries_of(ports: Seq<u16>, table: ServiceTable) -> Seq<Seq<char>> {
    Seq::new(ports.len(), |i: int| entry_text(ports[i], table.name_of(ports[i])))
}

/// Writes the entry of one open port.
pub fn format_entry(port: u16, service: &str) -> (entry: String)
    ensures
        entry@ == entry_text(port, service@),
{
    proof {
        reveal_strlit(" ");
    }
    let mut entry = render_decimal(port as u64);
    entry.append(" ");
    entry.append(service);
    assert(entry@ =~= entry_text(port, service@));
    entry
}

/// Writes the console line that announces one open port.
pub fn open_port_notice(port: u16) -> (notice: String)
    ensures
        notice@ == notice_text(port),
{
    let mut notice = String::from_str("[+] Open Port: ");
    let digits = render_decimal(port as u64);
    notice.append(digits.as_str());
    notice
}

/// The open ports found so far and their entries.
pub struct ResultCollector {
    table: ServiceTable,
    ports: Vec<u16>,
    open_ports: Vec<String>,
}

impl ResultCollector {
    /// The collector's invariant: there is one entry for each port handed
    /// in, in the same order, written with the service table's name for it.
    pub closed spec fn wf(&self) -> bool {
        &&& self.table.wf()
        &&& texts(self.open_ports@) == entries_of(self.ports@, self.table)
    }

    /// The service table that the entries are written with.
    pub closed spec fn table(&self) -> ServiceTable {
        self.table
    }

    /// The open ports in the order of discovery.
    pub closed spec fn reported(&self) -> Seq<u16> {
        self.ports@
    }

    /// The entries of the open ports in the order of discovery.
    pub open spec fn entries(&self) -> Seq<Seq<char>> {
        entries_of(self.reported(), self.table())
    }

    /// A collector that has seen no port yet.
    pub fn new(table: ServiceTable) -> (collector: ResultCollector)
        requires
            table.wf(),
        ensures
            collector.wf(),
            collector.table() == table,
            collector.reported() == Seq::<u16>::empty(),
    {
        let collector = ResultCollector { table, ports: Vec::new(), open_ports: Vec::new() };
        assert(texts(collector.open_ports@) =~= entries_of(collector.ports@, collector.table));
        collector
    }

    /// Takes in one open port: appends its entry and gives the console line
    /// that announces it.
    pub fn record(&mut self, port: u16) -> (notice: String)
        requires
            old(self).wf(),
        ensures
            final(self).wf(),
            final(self).table() == old(self).table(),
            final(self).reported() == old(self).reported().push(port),
            final(self).entries() == old(self).entries().push(
                entry_text(port, old(self).table().name_of(port)),
            ),
            notice@ == notice_text(port),
    {
        let service = self.table.service_name(port);
        let entry = format_entry(port, service.as_str());
        self.ports.push(port);
        self.open_ports.push(entry);
        proof {
            assert(texts(self.open_ports@) =~= texts(old(self).open_ports@).push(entry@));
            assert(entries_of(self.ports@, self.table) =~= entries_of(
                old(self).ports@,
                self.table,
            ).push(entry_text(port, self.table.name_of(port))));
        }
        open_port_notice(port)
    }

    /// How many open ports have been taken in.
    pub fn count(&self) -> (n: usize)
        ensures
            n == self.reported().len(),
    {
        self.ports.len()
    }

    /// Ends the collection and hands over the open ports and their entries.
    pub fn finish(self) -> (found: (Vec<u16>, Vec<String>))
        requires
            self.wf(),
        ensures
            found.0@ == self.reported(),
            texts(found.1@) == self.entries(),
    {
        (self.ports, self.open_ports)
    }
}

} // verus!
