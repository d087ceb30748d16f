//! The inclusive range of ports that one scan run probes.

use vstd::prelude::*;

verus! {

/// The highest TCP port.
pub const MAX_PORT: u16 = 65535;

/// Why the ports given on the command line name no range.
#[derive(Clone, Copy, Debug, PartialEq, Eq, Structural)]
pub enum PortSpecError {
    /// No port was given.
    NoPorts,
    /// More than two ports were given.
    TooManyPorts,
}

/// An inclusive range of TCP ports, `start <= end`.
#[derive(Clone, Copy, Debug)]
pub struct PortSet {
    start: u16,
    end: u16,
}

/// The bounds of the range that `given` asks for.
///
/// One port stands for itself, except that a lone `0` asks for every port.
/// Two ports are the two ends of a range, in either order; here `0` is an
/// ordinary port, so `[0, 0]` is port 0 alone and `[0, 80]` starts at port 0.
pub open spec fn normalized(given: Seq<u16>) -> Result<(int, int), PortSpecError> {
    if given.len() == 0 {
        Err(PortSpecError::NoPorts)
    } else if given.len() == 1 {
        if given[0] == 0 {
            Ok((0, MAX_PORT as int))
        } else {
            Ok((given[0] as int, given[0] as int))
        }
    } else if given.len() == 2 {
        if given[0] <= given[1] {
            Ok((given[0] as int, given[1] as int))
        } else {
            Ok((given[1] as int, given[0] as int))
        }
    } else {
        Err(PortSpecError::TooManyPorts)
    }
}

impl PortSet {
    /// The range invariant: the bounds are in order.
    pub open spec fn wf(&self) -> bool {
        self.first() <= self.last()
    }

    /// The first port of the range.
    pub closed spec fn first(&self) -> u16 {
        self.start
    }

    /// The last port of the range.
    pub closed spec fn last(&self) -> u16 {
        self.end
    }

    /// How many ports the range holds.
    pub open spec fn count(&self) -> int {
        self.last() - self.first() + 1
    }

    /// Whether `port` lies in the range.
    pub open spec fn has(&self, port: int) -> bool {
        self.first() <= port <= self.last()
    }

    /// The ports of the range in ascending order, each once.
    pub open spec fn view(&self) -> Seq<u16> {
        Seq::new(self.count() as nat, |i: int| (self.first() + i) as u16)
    }

    /// The range between two ports, whichever order they are given in.
    pub fn new(a: u16, b: u16) -> (set: PortSet)
        ensures
            set.wf(),
            set.first() == if a <= b { a } else { b },
            set.last() == if a <= b { b } else { a },
    {
        if a <= b {
            PortSet { start: a, end: b }
        } else {
            PortSet { start: b, end: a }
        }
    }

    /// The range of every port, 0 to 65535.
    pub fn full() -> (set: PortSet)
        ensures
            set.wf(),
            set.first() == 0,
            set.last() == MAX_PORT,
    {
        PortSet { start: 0, end: MAX_PORT }
    }

    /// The range that the ports of the command line ask for.
    pub fn normalize(given: &Vec<u16>) -> (made: Result<PortSet, PortSpecError>)
        ensures
            made is Ok <==> normalized(given@) is Ok,
            made matches Ok(set) ==> set.wf() && normalized(given@) == Ok::<
                (int, int),
                PortSpecError,
            >((set.first() as int, set.last() as int)),
            made matches Err(error) ==> normalized(given@) == Err::<(int, int), PortSpecError>(
                error,
            ),
    {
        if given.len() == 0 {
            Err(PortSpecError::NoPorts)
        } else if given.len() == 1 {
            if given[0] == 0 {
                Ok(PortSet::full())
            } else {
                Ok(PortSet::new(given[0], given[0]))
            }
        } else if given.len() == 2 {
            Ok(PortSet::new(given[0], given[1]))
        } else {
            Err(PortSpecError::TooManyPorts)
        }
    }

    /// The first port of the range.
    pub fn start(&self) -> (port: u16)
        ensures
            port == self.first(),
    {
        self.start
    }

    /// The last port of the range.
    pub fn end(&self) -> (port: u16)
        ensures
            port == self.last(),
    {
        self.end
    }

    /// How many ports the range holds.
    pub fn len(&self) -> (n: usize)
        requires
            self.wf(),
        ensures
            n == self.count(),
            n == self@.len(),
            1 <= n <= 65536,
    {
        (self.end - self.start) as usize + 1
    }

    /// Whether `port` lies in the range.
    pub fn contains(&self, port: u16) -> (inside: bool)
        ensures
            inside == self.has(port as int),
    {
        self.start <= port && port <= self.end
    }

    /// The port at place `i` of the range, counted from its first port.
    pub fn port_at(&self, i: usize) -> (port: u16)
        requires
            self.wf(),
            i < self.count(),
        ensures
            port == self@[i as int],
            port == self.first() + i,
    {
        self.start + (i as u16)
    }
}

/// A range of `b - a + 1` ports lists each of its ports exactly once, in
/// ascending order, and nothing else.
pub proof fn lemma_each_port_once(set: PortSet)
    requires
        set.wf(),
    ensures
        set@.len() == set.last() - set.first() + 1,
        set@.no_duplicates(),
        forall|port: u16| set.has(port as int) <==> set@.contains(port),
        forall|i: int, j: int| 0 <= i < j < set@.len() ==> set@[i] < set@[j],
{
    assert forall|port: u16| set.has(port as int) implies set@.contains(port) by {
        assert(set@[port - set.first()] == port);
    }
}

/// A lone nonzero port is a range of exactly that port; a lone `0` is the
/// range of every port.
pub proof fn lemma_single_port(port: u16)
    ensures
        port != 0 ==> normalized(seq![port]) == Ok::<(int, int), PortSpecError>(
            (port as int, port as int),
        ),
        port == 0 ==> normalized(seq![port]) == Ok::<(int, int), PortSpecError>((0, 65535)),
{
}

} // verus!
