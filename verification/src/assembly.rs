//! Assembling the probes. The assembly names the probe that is to be
//! constructed next and takes it in when it is done; a probe can be
//! constructed from those that the assembly already holds, and from no
//! others.

use vstd::prelude::*;
use crate::error::InfoError;
use crate::probe::{
    lemma_dependencies_come_first, lemma_order_is_complete, order, Probe, ProbeKind, PROBES,
};

verus! {

/// The probes constructed so far, in the order of their construction.
pub struct Assembly {
    built: Vec<Probe>,
}

/// Whether `built` is a beginning of the fixed order: its probes are of the
/// kinds that the order names, place by place.
pub open spec fn in_order(built: Seq<Probe>) -> bool {
    &&& built.len() <= PROBES
    &&& forall|i: int| 0 <= i < built.len() ==> (#[trigger] built[i]).kind == order()[i]
}

impl View for Assembly {
    type V = Seq<Probe>;

    closed spec fn view(&self) -> Seq<Probe> {
        self.built@
    }
}

impl Assembly {
    #[verifier::type_invariant]
    spec fn well_formed(&self) -> bool {
        in_order(self.built@)
    }

    /// An assembly that holds no probe yet.
    pub fn new() -> (assembly: Self)
        ensures
            assembly@.len() == 0,
            in_order(assembly@),
    {
        Assembly { built: Vec::new() }
    }

    /// The kind of probe that is to be constructed next; `None` once all are
    /// in. Every probe that the named one is constructed from is in already.
    pub fn pending(&self) -> (kind: Option<ProbeKind>)
        ensures
            in_order(self@),
            match kind {
                Some(k) => {
                    &&& self@.len() < PROBES
                    &&& k == order()[self@.len() as int]
                    &&& forall|on: ProbeKind| #[trigger]
                        k.depends_on(on) ==> on.rank() < self@.len() && self@[on.rank() as int].kind
                            == on
                },
                None => self@.len() == PROBES,
            },
    {
        proof {
            use_type_invariant(self);
            lemma_order_is_complete();
        }
        let kind = ProbeKind::at(self.built.len());
        proof {
            if let Some(k) = kind {
                assert forall|on: ProbeKind| #[trigger] k.depends_on(on) implies on.rank()
                    < self@.len() && self@[on.rank() as int].kind == on by {
                    lemma_dependencies_come_first(k, on);
                }
            }
        }
        kind
    }

    /// Takes `probe` in, if it is the one whose turn it is. Otherwise the
    /// assembly stays as it was.
    pub fn install(&mut self, probe: Probe) -> (r: Result<(), InfoError>)
        ensures
            in_order(final(self)@),
            match r {
                Ok(_) => {
                    &&& old(self)@.len() < PROBES
                    &&& probe.kind == order()[old(self)@.len() as int]
                    &&& final(self)@ == old(self)@.push(probe)
                },
                Err(e) => {
                    &&& final(self)@ == old(self)@
                    &&& old(self)@.len() < PROBES ==> probe.kind != order()[old(self)@.len() as int]
                        && e == (InfoError::OutOfOrder {
                        expected: Some(order()[old(self)@.len() as int]),
                        found: probe.kind,
                    })
                    &&& old(self)@.len() >= PROBES ==> e == (InfoError::OutOfOrder {
                        expected: None,
                        found: probe.kind,
                    })
                },
            },
    {
        let expected = self.pending();
        let found = probe.kind;
        let in_turn = match expected {
            Some(kind) => kind == found,
            None => false,
        };
        if in_turn {
            let mut taken = Assembly { built: Vec::new() };
            core::mem::swap(self, &mut taken);
            let mut built = taken.built;
            built.push(probe);
            *self = Assembly { built };
            Ok(())
        } else {
            Err(InfoError::OutOfOrder { expected, found })
        }
    }

    /// Hands the probes over, once all of them are in; tells which is the
    /// next to come otherwise.
    pub fn finish(self) -> (r: Result<Vec<Probe>, InfoError>)
        ensures
            in_order(self@),
            match r {
                Ok(probes) => self@.len() == PROBES && probes@ == self@,
                Err(e) => self@.len() < PROBES && e == (InfoError::Incomplete {
                    missing: order()[self@.len() as int],
                }),
            },
    {
        match self.pending() {
            Some(missing) => Err(InfoError::Incomplete { missing }),
            None => Ok(self.built),
        }
    }

    /// The probe of kind `kind`, once it has been taken in.
    pub fn probe(&self, kind: ProbeKind) -> (probe: Option<&Probe>)
        ensures
            match probe {
                Some(p) => kind.rank() < self@.len() && *p == self@[kind.rank() as int] && p.kind
                    == kind,
                None => kind.rank() >= self@.len(),
            },
    {
        proof {
            use_type_invariant(self);
            lemma_order_is_complete();
        }
        let i = kind.position();
        if i < self.built.len() {
            Some(&self.built[i])
        } else {
            None
        }
    }
}

/// Whatever has been taken in so far, every probe in it comes after all the
/// probes that it is constructed from: when a probe's turn comes, those are
/// in already.
pub proof fn lemma_built_after_dependencies(built: Seq<Probe>, i: int, on: ProbeKind)
    requires
        in_order(built),
        0 <= i < built.len(),
        built[i].kind.depends_on(on),
    ensures
        on.rank() < i,
        built[on.rank() as int].kind == on,
{
    lemma_order_is_complete();
    lemma_dependencies_come_first(built[i].kind, on);
}

} // verus!
