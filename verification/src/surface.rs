//! One surface of the context: a mapping from names to values in which the
//! last write to a name wins.

use vstd::prelude::*;

verus! {

/// One write: a name and the value bound to it.
pub struct Binding<V> {
    pub name: String,
    pub value: V,
}

/// What a sequence of writes leaves bound: each name with the value of the
/// last write to it.
pub open spec fn written<V: View>(log: Seq<Binding<V>>) -> Map<Seq<char>, V::V>
    decreases log.len(),
{
    if log.len() == 0 {
        Map::empty()
    } else {
        written(log.drop_last()).insert(log.last().name@, log.last().value@)
    }
}

/// The last write to a name wins. Where no write from place `from` on is to
/// `name`, the name is bound to the value of the write before `from` if that
/// one is to it, and is not bound at all where `from` is the beginning.
pub proof fn lemma_last_write_wins<V: View>(log: Seq<Binding<V>>, name: Seq<char>, from: int)
    requires
        0 <= from <= log.len(),
        forall|j: int| from <= j < log.len() ==> log[j].name@ != name,
    ensures
        from == 0 ==> !written(log).contains_key(name),
        from > 0 && log[from - 1].name@ == name ==> written(log).contains_key(name) && written(
            log,
        )[name] == log[from - 1].value@,
    decreases log.len(),
{
    if log.len() > from {
        lemma_last_write_wins(log.drop_last(), name, from);
    }
}

/// A surface. It keeps the writes it has received, in order.
pub struct Surface<V> {
    log: Vec<Binding<V>>,
}

impl<V: View> View for Surface<V> {
    type V = Map<Seq<char>, V::V>;

    closed spec fn view(&self) -> Map<Seq<char>, V::V> {
        written(self.log@)
    }
}

impl<V: View> Surface<V> {
    /// A surface on which nothing is bound.
    pub fn new() -> (s: Self)
        ensures
            s@ == Map::<Seq<char>, V::V>::empty(),
    {
        Surface { log: Vec::new() }
    }

    /// Binds `name` to `value`, in place of what it was bound to.
    pub fn set(&mut self, name: String, value: V)
        ensures
            final(self)@ == old(self)@.insert(name@, value@),
    {
        self.log.push(Binding { name, value });
        proof {
            assert(self.log@.drop_last() =~= old(self).log@);
        }
    }

    /// The value that `name` is bound to, if any.
    pub fn get(&self, name: &str) -> (r: Option<&V>)
        ensures
            match r {
                Some(v) => self@.contains_key(name@) && self@[name@] == v@,
                None => !self@.contains_key(name@),
            },
    {
        let wanted = String::from_str(name);
        let mut i = self.log.len();
        while i > 0
            invariant
                i <= self.log.len(),
                wanted@ == name@,
                forall|j: int| i <= j < self.log.len() ==> self.log[j].name@ != name@,
            decreases i,
        {
            i = i - 1;
            if self.log[i].name == wanted {
                proof {
                    lemma_last_write_wins(self.log@, name@, i + 1);
                }
                return Some(&self.log[i].value);
            }
        }
        proof {
            lemma_last_write_wins(self.log@, name@, 0);
        }
        None
    }

    /// Unbinds `name`; the other names stay bound as they were.
    pub fn remove(&mut self, name: &str)
        ensures
            final(self)@ == old(self)@.remove(name@),
    {
        let wanted = String::from_str(name);
        let mut kept: Vec<Binding<V>> = Vec::new();
        let mut log: Vec<Binding<V>> = Vec::new();
        core::mem::swap(&mut self.log, &mut log);
        for binding in it: log
            invariant
                wanted@ == name@,
                it.seq() == old(self).log@,
                written(kept@) == written(it.seq().take(it.index())).remove(name@),
        {
            proof {
                let seen = it.seq().take(it.index() + 1);
                assert(seen.drop_last() =~= it.seq().take(it.index()));
                assert(seen.last() == binding);
            }
            if binding.name == wanted {
                proof {
                    let before = written(it.seq().take(it.index()));
                    assert(before.insert(name@, binding.value@).remove(name@) =~= before.remove(
                        name@,
                    ));
                }
            } else {
                proof {
                    let before = written(it.seq().take(it.index()));
                    assert(before.insert(binding.name@, binding.value@).remove(name@)
                        =~= before.remove(name@).insert(binding.name@, binding.value@));
                    assert(kept@.push(binding).drop_last() =~= kept@);
                }
                kept.push(binding);
            }
        }
        proof {
            assert(old(self).log@.take(old(self).log@.len() as int) =~= old(self).log@);
        }
        self.log = kept;
    }

    /// The writes received so far, oldest first. Applying them in this order
    /// to an empty mapping gives the surface.
    pub fn writes(&self) -> (log: &Vec<Binding<V>>)
        ensures
            written(log@) == self@,
    {
        &self.log
    }
}

} // verus!
