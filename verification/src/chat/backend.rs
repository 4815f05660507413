//! Where phrases come from.
use rand::rngs::StdRng;
use vstd::prelude::*;

use crate::chat::context;
use crate::chat::context::SituationContext;
use crate::chat::phrasebook::PhraseDb;
use crate::text;

verus! {

/// A backend capable of generating a chat message given situational context.
///
/// `generate` returns `None` if the backend has no phrase for this context
/// or if generation failed.  The engine silently skips the character in that
/// case.
pub trait ChatBackend<F> {
    /// Whether the backend may say this, or nothing, in a situation. A backend
    /// that promises nothing leaves it as it is.
    open spec fn may_say(&self, ctx: SituationContext<F>, said: Option<Seq<char>>) -> bool {
        true
    }

    fn generate(&mut self, ctx: &SituationContext<F>, rng: &mut StdRng) -> (r: Option<String>)
        ensures
            old(self).may_say(*ctx, text::opt_view(r)),
    ;
}

/// Chooses a template, fills its slots and expands its fragments.
pub struct PhrasebookBackend(pub PhraseDb);

impl PhrasebookBackend {
    /// Whether a phrase fits a situation: it is a template of the pool for it,
    /// rendered; nothing fits where that pool is empty.
    pub open spec fn fits<F>(&self, ctx: SituationContext<F>, said: Option<Seq<char>>) -> bool {
        let pool = self.0.candidates(
            ctx.trigger_kind@,
            ctx.archetype.spec_name(),
            ctx.register.spec_name(),
        );
        match said {
            Some(t) => exists|raw: Seq<char>| #[trigger]
                pool.contains(raw) && self.0.renders(raw, context::slot_views(ctx.slots@), t),
            None => pool.len() == 0,
        }
    }

    /// A phrase for the situation.
    pub fn phrase<F>(&self, ctx: &SituationContext<F>, rng: &mut StdRng) -> (r: Option<String>)
        ensures
            self.fits(*ctx, text::opt_view(r)),
    {
        match self.0.select(ctx.trigger_kind, &ctx.archetype, &ctx.register, rng) {
            Some(raw) => Some(self.0.render(raw.as_str(), &ctx.slots, rng)),
            None => None,
        }
    }
}

impl<F> ChatBackend<F> for PhrasebookBackend {
    open spec fn may_say(&self, ctx: SituationContext<F>, said: Option<Seq<char>>) -> bool {
        self.fits(ctx, said)
    }

    fn generate(&mut self, ctx: &SituationContext<F>, rng: &mut StdRng) -> (r: Option<String>)
        ensures
            final(self).0 == old(self).0,
    {
        self.phrase(ctx, rng)
    }
}

} // verus!
