//! The orchestrator: it holds the probes, gathers their facts into a context
//! for the template, takes the rendered text in, measures it, and publishes
//! text and measurements as facts of its own.

use vstd::prelude::*;
use crate::assembly::{in_order, Assembly};
use crate::context::{Context, Surfaces};
use crate::control::visible;
use crate::dimension::{dimensions, lines, widest};
use crate::error::InfoError;
use crate::fact::{Datum, Value};
use crate::inject::Inject;
use crate::key::{lemma_script_name_of, script_name, shell_name, upper};
use crate::numeral::decimal;
use crate::probe::{lemma_order_is_complete, order, Probe, ProbeKind, PROBES};

verus! {

/// The key of the rendered text.
pub const INFO: &'static str = "info";

/// The key of the rendered text's width.
pub const INFO_WIDTH: &'static str = "info.width";

/// The key of the rendered text's height.
pub const INFO_HEIGHT: &'static str = "info.height";

/// The orchestrator.
pub struct Info {
    ctx: Context,
    rendered: String,
    width: usize,
    height: usize,
    probes: Vec<Probe>,
}

/// An orchestrator as contracts see it.
pub struct InfoView {
    /// The context that the template is expanded against.
    pub context: Surfaces,
    /// The rendered text; empty until there is one.
    pub rendered: Seq<char>,
    /// The width of the rendered text as a terminal shows it.
    pub width: nat,
    /// Its height.
    pub height: nat,
    /// The probes, in the fixed order.
    pub probes: Seq<Probe>,
}

/// The surfaces after every probe of `probes` has published its facts, first
/// probe to last.
pub open spec fn gathered(surfaces: Surfaces, probes: Seq<Probe>) -> Surfaces
    decreases probes.len(),
{
    if probes.len() == 0 {
        surfaces
    } else {
        gathered(surfaces, probes.drop_last()).publish(probes.last().published())
    }
}

/// An absent probe changes nothing of what is gathered: the surfaces are
/// those that the probes before it have left.
pub proof fn lemma_gathered_skips_absent(surfaces: Surfaces, probes: Seq<Probe>, probe: Probe)
    requires
        probe.is_absent(),
    ensures
        gathered(surfaces, probes.push(probe)) == gathered(surfaces, probes),
{
    assert(probes.push(probe).drop_last() =~= probes);
}

/// The names under which the rendered text and its measurements are known
/// on each surface: dotted among the template variables, with underscores in
/// the environment, in camel case among the scripting globals.
pub proof fn lemma_published_names()
    ensures
        shell_name(INFO@) == "info"@,
        script_name(INFO@) == "info"@,
        shell_name(INFO_WIDTH@) == "info_width"@,
        script_name(INFO_WIDTH@) == "infoWidth"@,
        shell_name(INFO_HEIGHT@) == "info_height"@,
        script_name(INFO_HEIGHT@) == "infoHeight"@,
{
    reveal_strlit("info");
    reveal_strlit("info.width");
    reveal_strlit("info.height");
    reveal_strlit("info_width");
    reveal_strlit("info_height");
    reveal_strlit("infoWidth");
    reveal_strlit("infoHeight");
    assert(shell_name(INFO@) =~= "info"@);
    assert(shell_name(INFO_WIDTH@) =~= "info_width"@);
    assert(shell_name(INFO_HEIGHT@) =~= "info_height"@);
    assert(script_name(INFO@) =~= "info"@) by {
        lemma_script_name_of(INFO@, 0);
        lemma_script_name_of(INFO@, 1);
        lemma_script_name_of(INFO@, 2);
        lemma_script_name_of(INFO@, 3);
        lemma_script_name_of(INFO@, 4);
        assert(INFO@.take(4) =~= INFO@);
    }
    assert(script_name(INFO_WIDTH@) =~= "infoWidth"@) by {
        lemma_script_name_of(INFO_WIDTH@, 0);
        lemma_script_name_of(INFO_WIDTH@, 1);
        lemma_script_name_of(INFO_WIDTH@, 2);
        lemma_script_name_of(INFO_WIDTH@, 3);
        lemma_script_name_of(INFO_WIDTH@, 4);
        lemma_script_name_of(INFO_WIDTH@, 5);
        lemma_script_name_of(INFO_WIDTH@, 6);
        lemma_script_name_of(INFO_WIDTH@, 7);
        lemma_script_name_of(INFO_WIDTH@, 8);
        lemma_script_name_of(INFO_WIDTH@, 9);
        lemma_script_name_of(INFO_WIDTH@, 10);
        assert(upper('w') == 'W');
        assert(INFO_WIDTH@.take(10) =~= INFO_WIDTH@);
    }
    assert(script_name(INFO_HEIGHT@) =~= "infoHeight"@) by {
        lemma_script_name_of(INFO_HEIGHT@, 0);
        lemma_script_name_of(INFO_HEIGHT@, 1);
        lemma_script_name_of(INFO_HEIGHT@, 2);
        lemma_script_name_of(INFO_HEIGHT@, 3);
        lemma_script_name_of(INFO_HEIGHT@, 4);
        lemma_script_name_of(INFO_HEIGHT@, 5);
        lemma_script_name_of(INFO_HEIGHT@, 6);
        lemma_script_name_of(INFO_HEIGHT@, 7);
        lemma_script_name_of(INFO_HEIGHT@, 8);
        lemma_script_name_of(INFO_HEIGHT@, 9);
        lemma_script_name_of(INFO_HEIGHT@, 10);
        lemma_script_name_of(INFO_HEIGHT@, 11);
        assert(upper('h') == 'H');
        assert(INFO_HEIGHT@.take(11) =~= INFO_HEIGHT@);
    }
}

impl View for Info {
    type V = InfoView;

    closed spec fn view(&self) -> InfoView {
        InfoView {
            context: self.ctx@,
            rendered: self.rendered@,
            width: self.width as nat,
            height: self.height as nat,
            probes: self.probes@,
        }
    }
}

impl Info {
    /// Whether the orchestrator holds one probe of each kind, in the fixed
    /// order.
    pub open spec fn wf(&self) -> bool {
        in_order(self@.probes) && self@.probes.len() == PROBES
    }

    /// An orchestrator over the probes of `assembly`, with nothing gathered
    /// or rendered yet. It takes a complete assembly; of an incomplete one it
    /// tells which probe is the next to come.
    pub fn new(assembly: Assembly) -> (r: Result<Info, InfoError>)
        ensures
            match r {
                Ok(info) => {
                    &&& assembly@.len() == PROBES
                    &&& info.wf()
                    &&& info@ == (InfoView {
                        context: Surfaces::empty(),
                        rendered: Seq::<char>::empty(),
                        width: 0,
                        height: 0,
                        probes: assembly@,
                    })
                },
                Err(e) => assembly@.len() < PROBES && e == (InfoError::Incomplete {
                    missing: order()[assembly@.len() as int],
                }),
            },
    {
        match assembly.finish() {
            Ok(probes) => Ok(
                Info { ctx: Context::new(), rendered: String::new(), width: 0, height: 0, probes },
            ),
            Err(e) => Err(e),
        }
    }

    /// Takes in the outcome of expanding the template against the context:
    /// the text becomes the rendered text, and is measured as a terminal
    /// shows it. A failed expansion, or a text that cannot be measured, is an
    /// error and leaves the orchestrator as it was.
    pub fn render(&mut self, expansion: Result<String, String>) -> (r: Result<(), InfoError>)
        ensures
            r is Err ==> final(self)@ == old(self)@,
            match expansion {
                Err(cause) => r == Err::<(), InfoError>(InfoError::Render { cause }),
                Ok(text) => match visible(text@) {
                    None => r == Err::<(), InfoError>(InfoError::Pattern),
                    Some(plain) => if widest(lines(plain)) <= usize::MAX && lines(plain).len()
                        <= usize::MAX {
                        &&& r is Ok
                        &&& final(self)@ == (InfoView {
                            rendered: text@,
                            width: widest(lines(plain)),
                            height: lines(plain).len(),
                            ..old(self)@
                        })
                    } else {
                        r == Err::<(), InfoError>(InfoError::Overflow)
                    },
                },
            },
    {
        match expansion {
            Err(cause) => Err(InfoError::Render { cause }),
            Ok(text) => match dimensions(text.as_str()) {
                Err(e) => Err(e),
                Ok(d) => {
                    self.rendered = text;
                    self.width = d.width;
                    self.height = d.height;
                    Ok(())
                },
            },
        }
    }

    /// The context that the template is expanded against.
    pub fn context(&self) -> (ctx: &Context)
        ensures
            ctx@ == self@.context,
    {
        &self.ctx
    }

    /// Records that the scripting runtime has refused the global `name` of
    /// the context.
    pub fn reject(&mut self, name: &str)
        ensures
            final(self)@ == (InfoView { context: old(self)@.context.reject(name@), ..old(self)@ }),
    {
        self.ctx.reject(name);
    }

    /// The rendered text.
    pub fn rendered(&self) -> (text: &str)
        ensures
            text@ == self@.rendered,
    {
        self.rendered.as_str()
    }

    /// The width of the rendered text.
    pub fn width(&self) -> (width: usize)
        ensures
            width == self@.width,
    {
        self.width
    }

    /// The height of the rendered text.
    pub fn height(&self) -> (height: usize)
        ensures
            height == self@.height,
    {
        self.height
    }

    /// The probe of kind `kind`.
    pub fn probe(&self, kind: ProbeKind) -> (probe: &Probe)
        requires
            self.wf(),
        ensures
            *probe == self@.probes[kind.rank() as int],
            probe.kind == kind,
    {
        proof {
            lemma_order_is_complete();
        }
        &self.probes[kind.position()]
    }
}

impl Inject for Info {
    /// The orchestrator publishes the rendered text, its width and its
    /// height.
    open spec fn published(&self) -> Seq<(Seq<char>, Datum)> {
        seq![
            (INFO@, Datum::Text(self@.rendered)),
            (INFO_WIDTH@, Datum::Integer(self@.width)),
            (INFO_HEIGHT@, Datum::Integer(self@.height)),
        ]
    }

    /// Gathers the facts of every probe into the context, in the fixed
    /// order. Absent probes add nothing.
    fn prep(&mut self) -> (r: Result<(), InfoError>)
        ensures
            r is Ok,
            final(self)@ == (InfoView {
                context: gathered(old(self)@.context, old(self)@.probes),
                ..old(self)@
            }),
    {
        let mut i: usize = 0;
        while i < self.probes.len()
            invariant
                i <= self.probes.len(),
                self@ == (InfoView {
                    context: gathered(old(self)@.context, old(self)@.probes.take(i as int)),
                    ..old(self)@
                }),
            decreases self.probes.len() - i,
        {
            proof {
                let seen = self.probes@.take(i + 1);
                assert(seen.drop_last() =~= self.probes@.take(i as int));
                assert(seen.last() == self.probes@[i as int]);
            }
            match self.probes[i].prep() {
                Ok(_) => {},
                Err(e) => {
                    return Err(e);
                },
            }
            proof {
                assert(self.probes@ =~= old(self).probes@);
            }
            let _ = self.probes[i].inject(&mut self.ctx);
            i = i + 1;
        }
        proof {
            assert(self.probes@.take(self.probes.len() as int) =~= self.probes@);
        }
        Ok(())
    }

    fn inject(&self, ctx: &mut Context) -> (r: Result<(), InfoError>) {
        ctx.set(INFO, &Value::Text(self.rendered.clone()));
        ctx.set(INFO_WIDTH, &Value::Integer(self.width));
        ctx.set(INFO_HEIGHT, &Value::Integer(self.height));
        proof {
            let before = old(ctx)@;
            let facts = self.published();
            let two = facts.drop_last();
            let one = two.drop_last();
            assert(before.publish(one.drop_last()) == before);
            assert(before.publish(one) == before.set(facts[0].0, facts[0].1));
            assert(before.publish(two) == before.publish(one).set(facts[1].0, facts[1].1));
            assert(before.publish(facts) == before.publish(two).set(facts[2].0, facts[2].1));
        }
        Ok(())
    }
}

/// What a context holds once the orchestrator has published into it: on
/// each surface the rendered text, its width and its height, each under the
/// surface's form of the key; text and numerals among the template variables
/// and in the environment, text and counts among the scripting globals.
pub proof fn lemma_published_facts(info: Info, surfaces: Surfaces)
    ensures
        ({
            let after = surfaces.publish(info.published());
            &&& after.template.contains_key(INFO@)
            &&& after.template.contains_key(INFO_WIDTH@)
            &&& after.template.contains_key(INFO_HEIGHT@)
            &&& after.template[INFO@] == info@.rendered
            &&& after.template[INFO_WIDTH@] == decimal(info@.width)
            &&& after.template[INFO_HEIGHT@] == decimal(info@.height)
            &&& after.environment.contains_key("info"@)
            &&& after.environment.contains_key("info_width"@)
            &&& after.environment.contains_key("info_height"@)
            &&& after.environment["info"@] == info@.rendered
            &&& after.environment["info_width"@] == decimal(info@.width)
            &&& after.environment["info_height"@] == decimal(info@.height)
            &&& after.script.contains_key("info"@)
            &&& after.script.contains_key("infoWidth"@)
            &&& after.script.contains_key("infoHeight"@)
            &&& after.script["info"@] == Datum::Text(info@.rendered)
            &&& after.script["infoWidth"@] == Datum::Integer(info@.width)
            &&& after.script["infoHeight"@] == Datum::Integer(info@.height)
        }),
{
    lemma_published_names();
    reveal_strlit("info");
    reveal_strlit("info.width");
    reveal_strlit("info.height");
    reveal_strlit("info_width");
    reveal_strlit("info_height");
    reveal_strlit("infoWidth");
    reveal_strlit("infoHeight");
    let facts = info.published();
    let two = facts.drop_last();
    let one = two.drop_last();
    assert(surfaces.publish(one.drop_last()) == surfaces);
    assert(surfaces.publish(one) == surfaces.set(facts[0].0, facts[0].1));
    assert(surfaces.publish(two) == surfaces.publish(one).set(facts[1].0, facts[1].1));
    assert(surfaces.publish(facts) == surfaces.publish(two).set(facts[2].0, facts[2].1));
    assert(INFO@.len() == 4 && INFO_WIDTH@.len() == 10 && INFO_HEIGHT@.len() == 11);
    assert("info_width"@.len() == 10 && "info_height"@.len() == 11);
    assert("infoWidth"@.len() == 9 && "infoHeight"@.len() == 10);
}

} // verus!
