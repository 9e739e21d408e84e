//! The desk's settings: their defaults, and how stored choices are repaired.
use vstd::prelude::*;
use vstd::string::*;
use crate::rules::{is_one_of, equals_any};
use crate::text::chars_of;
use crate::paths::{contains_path, listed, same_path};

verus! {

/// What the user chose: models, rewriting, insertion, shortcut mode, the
/// rewriting style, structure and context, the spoken language, and extra model folders.
#[derive(Clone, Debug)]
pub struct Settings {
    pub speech_model: String,
    pub rewrite_model: String,
    pub auto_rewrite: bool,
    pub auto_paste: bool,
    pub hold_to_talk: bool,
    pub styling: String,
    pub structure: String,
    pub context: String,
    pub language: String,
    pub model_roots: Vec<String>,
}

/// Rewriting styles S1-mini was trained on.
pub open spec fn stylings() -> Seq<&'static str> {
    seq!["casual", "semi-casual", "semi-formal", "formal"]
}

/// Text structures S1-mini was trained on.
pub open spec fn structures() -> Seq<&'static str> {
    seq!["prose", "lists"]
}

/// Writing contexts S1-mini was trained on.
pub open spec fn contexts() -> Seq<&'static str> {
    seq!["general", "email"]
}

/// `value` when it is one of `allowed`, else `fallback`.
pub open spec fn choice_or(value: Seq<char>, allowed: Seq<&'static str>, fallback: Seq<char>) -> Seq<char> {
    if is_one_of(value, allowed) {
        value
    } else {
        fallback
    }
}

/// The settings of a first start.
pub open spec fn is_default(s: Settings) -> bool {
    &&& s.speech_model@ == Seq::<char>::empty()
    &&& s.rewrite_model@ == Seq::<char>::empty()
    &&& s.auto_rewrite
    &&& !s.auto_paste
    &&& !s.hold_to_talk
    &&& s.styling@ == "semi-formal"@
    &&& s.structure@ == "prose"@
    &&& s.context@ == "general"@
    &&& s.language@ == "auto"@
    &&& s.model_roots@.len() == 0
}

impl Default for Settings {
    /// No models chosen, rewriting on, insertion off, toggle shortcut, semi-formal
    /// prose for general use, language detected automatically, no extra folders.
    fn default() -> (s: Self)
        ensures
            is_default(s),
    {
        Settings {
            speech_model: String::new(),
            rewrite_model: String::new(),
            auto_rewrite: true,
            auto_paste: false,
            hold_to_talk: false,
            styling: String::from_str("semi-formal"),
            structure: String::from_str("prose"),
            context: String::from_str("general"),
            language: String::from_str("auto"),
            model_roots: Vec::new(),
        }
    }
}

/// Replaces `value` by `fallback` unless it is one of `allowed`.
fn repair(value: &mut String, allowed: &Vec<&'static str>, fallback: &'static str)
    ensures
        final(value)@ == choice_or(old(value)@, allowed@, fallback@),
{
    if !equals_any(&chars_of(value.as_str()), allowed) {
        *value = String::from_str(fallback);
    }
}

impl Settings {
    /// Replaces a styling, structure or context that S1-mini does not know by its
    /// default (semi-formal, prose, general); every other setting is kept.
    pub fn repair_choices(&mut self)
        ensures
            final(self).styling@ == choice_or(old(self).styling@, stylings(), "semi-formal"@),
            final(self).structure@ == choice_or(old(self).structure@, structures(), "prose"@),
            final(self).context@ == choice_or(old(self).context@, contexts(), "general"@),
            final(self).speech_model == old(self).speech_model,
            final(self).rewrite_model == old(self).rewrite_model,
            final(self).auto_rewrite == old(self).auto_rewrite,
            final(self).auto_paste == old(self).auto_paste,
            final(self).hold_to_talk == old(self).hold_to_talk,
            final(self).language == old(self).language,
            final(self).model_roots == old(self).model_roots,
    {
        let s = vec!["casual", "semi-casual", "semi-formal", "formal"];
        assert(s@ =~= stylings());
        let t = vec!["prose", "lists"];
        assert(t@ =~= structures());
        let c = vec!["general", "email"];
        assert(c@ =~= contexts());
        repair(&mut self.styling, &s, "semi-formal");
        repair(&mut self.structure, &t, "prose");
        repair(&mut self.context, &c, "general");
    }
}

impl Settings {
    /// Adds the model folder `folder` unless the same path is already listed;
    /// every other setting is kept.
    pub fn add_model_root(&mut self, folder: String)
        ensures
            listed(old(self).model_roots@, folder@) ==> final(self).model_roots@ == old(self).model_roots@,
            !listed(old(self).model_roots@, folder@) ==> final(self).model_roots@ == old(self).model_roots@.push(folder),
            final(self).speech_model == old(self).speech_model,
            final(self).rewrite_model == old(self).rewrite_model,
            final(self).auto_rewrite == old(self).auto_rewrite,
            final(self).auto_paste == old(self).auto_paste,
            final(self).hold_to_talk == old(self).hold_to_talk,
            final(self).styling == old(self).styling,
            final(self).structure == old(self).structure,
            final(self).context == old(self).context,
            final(self).language == old(self).language,
    {
        if !contains_path(&self.model_roots, folder.as_str()) {
            self.model_roots.push(folder);
        }
    }
}

/// Once a folder is added it is listed, and adding it (or the same path written
/// another way) again leaves the folders unchanged.
pub proof fn lemma_add_model_root_once(roots: Seq<String>, folder: String, again: String)
    requires
        same_path(folder@, again@),
    ensures
        ({
            let once = if listed(roots, folder@) {
                roots
            } else {
                roots.push(folder)
            };
            let twice = if listed(once, again@) {
                once
            } else {
                once.push(again)
            };
            listed(once, again@) && twice == once
        }),
{
    if listed(roots, folder@) {
        let i = choose|i: int| 0 <= i < roots.len() && same_path(#[trigger] roots[i]@, folder@);
        assert(same_path(roots[i]@, again@));
    } else {
        let once = roots.push(folder);
        assert(same_path(once[roots.len() as int]@, again@));
    }
}

/// Repaired choices are always ones S1-mini knows.
pub proof fn lemma_repaired_choices_known(styling: Seq<char>, structure: Seq<char>, context: Seq<char>)
    ensures
        is_one_of(choice_or(styling, stylings(), "semi-formal"@), stylings()),
        is_one_of(choice_or(structure, structures(), "prose"@), structures()),
        is_one_of(choice_or(context, contexts(), "general"@), contexts()),
{
    assert(stylings()[2]@ == "semi-formal"@);
    assert(structures()[0]@ == "prose"@);
    assert(contexts()[0]@ == "general"@);
}

/// Repairing choices twice changes nothing more than repairing once.
pub proof fn lemma_repair_idempotent(value: Seq<char>, allowed: Seq<&'static str>, fallback: Seq<char>)
    requires
        is_one_of(fallback, allowed),
    ensures
        choice_or(choice_or(value, allowed, fallback), allowed, fallback) == choice_or(value, allowed, fallback),
{
}

/// Repair keeps each styling S1-mini was trained on (casual, semi-casual,
/// semi-formal, formal) and turns any other into semi-formal.
pub proof fn lemma_stylings_kept(v: Seq<char>)
    ensures
        choice_or(v, stylings(), "semi-formal"@) == (if v == "casual"@ || v == "semi-casual"@ || v
            == "semi-formal"@ || v == "formal"@ {
            v
        } else {
            "semi-formal"@
        }),
{
    let w = stylings();
    if v == "casual"@ {
        assert(v == w[0]@);
    } else if v == "semi-casual"@ {
        assert(v == w[1]@);
    } else if v == "semi-formal"@ {
        assert(v == w[2]@);
    } else if v == "formal"@ {
        assert(v == w[3]@);
    } else if is_one_of(v, w) {
        let k = choose|k: int| 0 <= k < w.len() && v == #[trigger] w[k]@;
        assert(k == 0 || k == 1 || k == 2 || k == 3);
    }
}

/// Repair keeps the structures prose and lists and turns any other into prose.
pub proof fn lemma_structures_kept(v: Seq<char>)
    ensures
        choice_or(v, structures(), "prose"@) == (if v == "prose"@ || v == "lists"@ {
            v
        } else {
            "prose"@
        }),
{
    let w = structures();
    if v == "prose"@ {
        assert(v == w[0]@);
    } else if v == "lists"@ {
        assert(v == w[1]@);
    } else if is_one_of(v, w) {
        let k = choose|k: int| 0 <= k < w.len() && v == #[trigger] w[k]@;
        assert(k == 0 || k == 1);
    }
}

/// Repair keeps the contexts general and email and turns any other into general.
pub proof fn lemma_contexts_kept(v: Seq<char>)
    ensures
        choice_or(v, contexts(), "general"@) == (if v == "general"@ || v == "email"@ {
            v
        } else {
            "general"@
        }),
{
    let w = contexts();
    if v == "general"@ {
        assert(v == w[0]@);
    } else if v == "email"@ {
        assert(v == w[1]@);
    } else if is_one_of(v, w) {
        let k = choose|k: int| 0 <= k < w.len() && v == #[trigger] w[k]@;
        assert(k == 0 || k == 1);
    }
}

} // verus!
