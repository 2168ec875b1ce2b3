//! The injection capability: what every probe, and the orchestrator itself,
//! offers to the pipeline. Preparing derives what is to be published and may
//! fail; publishing writes it into a context and does not.

use vstd::prelude::*;
use crate::context::{Context, Surfaces};
use crate::error::InfoError;
use crate::fact::{views, Datum};
use crate::probe::Probe;

verus! {

/// The two phases that the pipeline asks of whoever has facts to publish.
pub trait Inject {
    /// The facts that `inject` publishes, in order.
    spec fn published(&self) -> Seq<(Seq<char>, Datum)>;

    /// Derives what is to be published. A failure is fatal to the run.
    fn prep(&mut self) -> (r: Result<(), InfoError>);

    /// Publishes the facts into `ctx`, first to last.
    fn inject(&self, ctx: &mut Context) -> (r: Result<(), InfoError>)
        ensures
            r is Ok,
            final(ctx)@ == old(ctx)@.publish(self.published()),
    ;
}

impl Inject for Probe {
    /// A probe publishes its own facts, in their order; an absent probe
    /// publishes nothing.
    open spec fn published(&self) -> Seq<(Seq<char>, Datum)> {
        match self.facts {
            Some(facts) => views(facts@),
            None => Seq::empty(),
        }
    }

    /// A probe is a finished snapshot: there is nothing left to derive.
    fn prep(&mut self) -> (r: Result<(), InfoError>)
        ensures
            r is Ok,
            *final(self) == *old(self),
    {
        Ok(())
    }

    fn inject(&self, ctx: &mut Context) -> (r: Result<(), InfoError>) {
        match &self.facts {
            Some(facts) => {
                ctx.publish(facts);
            },
            None => {},
        }
        Ok(())
    }
}

/// An absent probe adds no key to any surface of a context.
pub proof fn lemma_absent_probe_is_silent(probe: Probe, surfaces: Surfaces)
    requires
        probe.is_absent(),
    ensures
        probe.published().len() == 0,
        surfaces.publish(probe.published()) == surfaces,
{
}

} // verus!
