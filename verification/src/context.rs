//! The context: the shared sink of published facts. One write reaches three
//! surfaces, each of which knows the fact under its own form of the key.

use vstd::prelude::*;
use crate::fact::{views, Datum, Fact, Value};
use crate::key::{script_name, shell_name, to_script_name, to_shell_name};
use crate::surface::Surface;

verus! {

/// The three surfaces of a context as contracts see them.
pub struct Surfaces {
    /// The template variables, under dotted keys, as text.
    pub template: Map<Seq<char>, Seq<char>>,
    /// The environment that is handed to a shell, under shell names, as text.
    pub environment: Map<Seq<char>, Seq<char>>,
    /// The globals of the scripting runtime, under camel-case names.
    pub script: Map<Seq<char>, Datum>,
}

impl Surfaces {
    /// Three surfaces on which nothing is bound.
    pub open spec fn empty() -> Surfaces {
        Surfaces { template: Map::empty(), environment: Map::empty(), script: Map::empty() }
    }

    /// The surfaces after `value` has been published under `key`.
    pub open spec fn set(self, key: Seq<char>, value: Datum) -> Surfaces {
        Surfaces {
            template: self.template.insert(key, value.text()),
            environment: self.environment.insert(shell_name(key), value.text()),
            script: self.script.insert(script_name(key), value),
        }
    }

    /// The surfaces after `facts` have been published, first to last.
    pub open spec fn publish(self, facts: Seq<(Seq<char>, Datum)>) -> Surfaces
        decreases facts.len(),
    {
        if facts.len() == 0 {
            self
        } else {
            self.publish(facts.drop_last()).set(facts.last().0, facts.last().1)
        }
    }

    /// The surfaces after the scripting runtime has refused the global
    /// `name`: that global is gone, everything else is as it was.
    pub open spec fn reject(self, name: Seq<char>) -> Surfaces {
        Surfaces { script: self.script.remove(name), ..self }
    }
}

/// Publishing nothing leaves every surface as it was, and publishing one
/// list after another is publishing the two as one.
pub proof fn lemma_publish_in_turn(
    surfaces: Surfaces,
    first: Seq<(Seq<char>, Datum)>,
    second: Seq<(Seq<char>, Datum)>,
)
    ensures
        surfaces.publish(Seq::empty()) == surfaces,
        surfaces.publish(first).publish(second) == surfaces.publish(first + second),
    decreases second.len(),
{
    if second.len() == 0 {
        assert(first + second =~= first);
    } else {
        lemma_publish_in_turn(surfaces, first, second.drop_last());
        assert((first + second).drop_last() =~= first + second.drop_last());
        assert((first + second).last() == second.last());
    }
}

/// The context.
pub struct Context {
    template: Surface<String>,
    environment: Surface<String>,
    script: Surface<Value>,
}

impl View for Context {
    type V = Surfaces;

    closed spec fn view(&self) -> Surfaces {
        Surfaces {
            template: self.template@,
            environment: self.environment@,
            script: self.script@,
        }
    }
}

impl Context {
    /// A context in which nothing has been published.
    pub fn new() -> (ctx: Self)
        ensures
            ctx@ == Surfaces::empty(),
    {
        Context { template: Surface::new(), environment: Surface::new(), script: Surface::new() }
    }

    /// Publishes `value` under `key` on all three surfaces.
    pub fn set(&mut self, key: &str, value: &Value)
        ensures
            final(self)@ == old(self)@.set(key@, value@),
    {
        self.template.set(String::from_str(key), value.text());
        self.environment.set(to_shell_name(key), value.text());
        self.script.set(to_script_name(key), value.clone());
    }

    /// Publishes `facts`, first to last.
    pub fn publish(&mut self, facts: &Vec<Fact>)
        ensures
            final(self)@ == old(self)@.publish(views(facts@)),
    {
        let mut i: usize = 0;
        while i < facts.len()
            invariant
                i <= facts.len(),
                self@ == old(self)@.publish(views(facts@.take(i as int))),
            decreases facts.len() - i,
        {
            proof {
                let seen = views(facts@.take(i + 1));
                assert(seen.drop_last() =~= views(facts@.take(i as int)));
                assert(seen.last() == facts[i as int]@);
            }
            self.set(facts[i].key.as_str(), &facts[i].value);
            i = i + 1;
        }
        proof {
            assert(facts@.take(facts.len() as int) =~= facts@);
        }
    }

    /// Records that the scripting runtime has refused the global `name`.
    pub fn reject(&mut self, name: &str)
        ensures
            final(self)@ == old(self)@.reject(name@),
    {
        self.script.remove(name);
    }

    /// The template variables.
    pub fn template(&self) -> (s: &Surface<String>)
        ensures
            s@ == self@.template,
    {
        &self.template
    }

    /// The environment.
    pub fn environment(&self) -> (s: &Surface<String>)
        ensures
            s@ == self@.environment,
    {
        &self.environment
    }

    /// The globals of the scripting runtime.
    pub fn script(&self) -> (s: &Surface<Value>)
        ensures
            s@ == self@.script,
    {
        &self.script
    }
}

} // verus!
