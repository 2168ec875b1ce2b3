//! The probes: one per domain of facts about the machine, and the order in
//! which they are constructed and published.

use vstd::prelude::*;
use crate::fact::Fact;

verus! {

/// A domain of facts.
#[derive(Clone, Copy, Debug, PartialEq, Eq, Structural)]
pub enum ProbeKind {
    User,
    Host,
    Kernel,
    Distro,
    Uptime,
    PackageManagers,
    Shell,
    Resolution,
    Wm,
    De,
    Cpu,
    Gpu,
}

/// The number of domains.
pub const PROBES: usize = 12;

/// The fixed order in which the probes are constructed, and in which their
/// facts are published.
pub open spec fn order() -> Seq<ProbeKind> {
    seq![
        ProbeKind::User,
        ProbeKind::Host,
        ProbeKind::Kernel,
        ProbeKind::Distro,
        ProbeKind::Uptime,
        ProbeKind::PackageManagers,
        ProbeKind::Shell,
        ProbeKind::Resolution,
        ProbeKind::Wm,
        ProbeKind::De,
        ProbeKind::Cpu,
        ProbeKind::Gpu,
    ]
}

impl ProbeKind {
    /// Whether constructing a probe of this kind takes the probe of kind
    /// `on` as an input.
    pub open spec fn depends_on(self, on: ProbeKind) -> bool {
        match self {
            ProbeKind::User | ProbeKind::Host | ProbeKind::Kernel | ProbeKind::Resolution => false,
            ProbeKind::De => on == ProbeKind::Kernel || on == ProbeKind::Distro,
            _ => on == ProbeKind::Kernel,
        }
    }

    /// The place of this kind in the order, counted from zero.
    pub open spec fn rank(self) -> nat {
        match self {
            ProbeKind::User => 0,
            ProbeKind::Host => 1,
            ProbeKind::Kernel => 2,
            ProbeKind::Distro => 3,
            ProbeKind::Uptime => 4,
            ProbeKind::PackageManagers => 5,
            ProbeKind::Shell => 6,
            ProbeKind::Resolution => 7,
            ProbeKind::Wm => 8,
            ProbeKind::De => 9,
            ProbeKind::Cpu => 10,
            ProbeKind::Gpu => 11,
        }
    }

    /// The place of this kind in the order, counted from zero.
    pub fn position(self) -> (i: usize)
        ensures
            i == self.rank(),
            i < PROBES,
    {
        match self {
            ProbeKind::User => 0,
            ProbeKind::Host => 1,
            ProbeKind::Kernel => 2,
            ProbeKind::Distro => 3,
            ProbeKind::Uptime => 4,
            ProbeKind::PackageManagers => 5,
            ProbeKind::Shell => 6,
            ProbeKind::Resolution => 7,
            ProbeKind::Wm => 8,
            ProbeKind::De => 9,
            ProbeKind::Cpu => 10,
            ProbeKind::Gpu => 11,
        }
    }

    /// The kind at place `i` of the order, if there is one.
    pub fn at(i: usize) -> (kind: Option<ProbeKind>)
        ensures
            match kind {
                Some(k) => i < PROBES && k == order()[i as int],
                None => i >= PROBES,
            },
    {
        if i == 0 {
            Some(ProbeKind::User)
        } else if i == 1 {
            Some(ProbeKind::Host)
        } else if i == 2 {
            Some(ProbeKind::Kernel)
        } else if i == 3 {
            Some(ProbeKind::Distro)
        } else if i == 4 {
            Some(ProbeKind::Uptime)
        } else if i == 5 {
            Some(ProbeKind::PackageManagers)
        } else if i == 6 {
            Some(ProbeKind::Shell)
        } else if i == 7 {
            Some(ProbeKind::Resolution)
        } else if i == 8 {
            Some(ProbeKind::Wm)
        } else if i == 9 {
            Some(ProbeKind::De)
        } else if i == 10 {
            Some(ProbeKind::Cpu)
        } else if i == 11 {
            Some(ProbeKind::Gpu)
        } else {
            None
        }
    }

    /// The kinds that a probe of this kind is constructed from.
    pub fn dependencies(self) -> (on: Vec<ProbeKind>)
        ensures
            forall|d: ProbeKind| on@.contains(d) <==> self.depends_on(d),
    {
        let mut on: Vec<ProbeKind> = Vec::new();
        match self {
            ProbeKind::User | ProbeKind::Host | ProbeKind::Kernel | ProbeKind::Resolution => {},
            ProbeKind::De => {
                on.push(ProbeKind::Kernel);
                on.push(ProbeKind::Distro);
                assert(on@[0] == ProbeKind::Kernel && on@[1] == ProbeKind::Distro);
            },
            _ => {
                on.push(ProbeKind::Kernel);
                assert(on@[0] == ProbeKind::Kernel);
            },
        }
        on
    }
}

/// The order names every kind once, at its rank.
pub proof fn lemma_order_is_complete()
    ensures
        order().len() == PROBES,
        forall|k: ProbeKind| k.rank() < PROBES && order()[k.rank() as int] == k,
        forall|i: int| 0 <= i < PROBES ==> (#[trigger] order()[i]).rank() == i,
{
}

/// A probe comes after every probe that it is constructed from.
pub proof fn lemma_dependencies_come_first(probe: ProbeKind, on: ProbeKind)
    requires
        probe.depends_on(on),
    ensures
        on.rank() < probe.rank(),
{
}

/// What one probe found: a snapshot, taken once. A probe that could not
/// find its facts out is absent, which is no failure.
#[derive(Debug, PartialEq, Eq)]
pub struct Probe {
    pub kind: ProbeKind,
    pub facts: Option<Vec<Fact>>,
}

impl Probe {
    /// Whether the probe is absent.
    pub open spec fn is_absent(&self) -> bool {
        self.facts is None
    }

    /// A probe that holds `facts`.
    pub fn present(kind: ProbeKind, facts: Vec<Fact>) -> (probe: Self)
        ensures
            probe.kind == kind,
            probe.facts == Some(facts),
    {
        Probe { kind, facts: Some(facts) }
    }

    /// A probe that found nothing out.
    pub fn absent(kind: ProbeKind) -> (probe: Self)
        ensures
            probe.kind == kind,
            probe.is_absent(),
    {
        Probe { kind, facts: None }
    }
}

} // verus!
