//! Ordered keyword tables: the first pattern that occurs in a text decides.
use vstd::prelude::*;
use crate::text::{has_infix, contains_str, chars_equal_str};

verus! {

/// The value of the first rule whose pattern occurs in `hay`, if any.
pub open spec fn first_rule<V>(hay: Seq<char>, rules: Seq<(&'static str, V)>) -> Option<V>
    decreases rules.len(),
{
    if rules.len() == 0 {
        None
    } else if has_infix(hay, rules[0].0@) {
        Some(rules[0].1)
    } else {
        first_rule(hay, rules.drop_first())
    }
}

/// Some pattern of `pats` occurs in `hay`.
pub open spec fn any_infix(hay: Seq<char>, pats: Seq<&'static str>) -> bool {
    exists|i: int| 0 <= i < pats.len() && has_infix(hay, #[trigger] pats[i]@)
}

/// Some entry of `words` equals `s`.
pub open spec fn is_one_of(s: Seq<char>, words: Seq<&'static str>) -> bool {
    exists|i: int| 0 <= i < words.len() && s == #[trigger] words[i]@
}

/// The value of the first rule of `rules` whose pattern occurs in `hay`.
pub fn find_rule<V: Copy>(hay: &Vec<char>, rules: &Vec<(&'static str, V)>) -> (r: Option<V>)
    ensures
        r == first_rule(hay@, rules@),
{
    let mut i: usize = 0;
    assert(rules@.skip(0) =~= rules@);
    while i < rules.len()
        invariant
            i <= rules.len(),
            first_rule(hay@, rules@) == first_rule(hay@, rules@.skip(i as int)),
        decreases rules.len() - i,
    {
        let (pat, value) = rules[i];
        assert(rules@.skip(i as int)[0] == rules@[i as int]);
        if contains_str(hay, pat) {
            return Some(value);
        }
        assert(rules@.skip(i as int).drop_first() =~= rules@.skip(i + 1));
        i += 1;
    }
    assert(rules@.skip(i as int).len() == 0);
    None
}

/// Whether some pattern of `pats` occurs in `hay`.
pub fn contains_any(hay: &Vec<char>, pats: &Vec<&'static str>) -> (r: bool)
    ensures
        r == any_infix(hay@, pats@),
{
    let mut i: usize = 0;
    while i < pats.len()
        invariant
            i <= pats.len(),
            forall|k: int| 0 <= k < i ==> !has_infix(hay@, #[trigger] pats@[k]@),
        decreases pats.len() - i,
    {
        if contains_str(hay, pats[i]) {
            return true;
        }
        i += 1;
    }
    false
}

/// Whether `s` equals some entry of `words`.
pub fn equals_any(s: &Vec<char>, words: &Vec<&'static str>) -> (r: bool)
    ensures
        r == is_one_of(s@, words@),
{
    let mut i: usize = 0;
    while i < words.len()
        invariant
            i <= words.len(),
            forall|k: int| 0 <= k < i ==> s@ != #[trigger] words@[k]@,
        decreases words.len() - i,
    {
        if chars_equal_str(s, words[i]) {
            return true;
        }
        i += 1;
    }
    false
}

/// The value of the first rule of `rules` whose pattern equals `s`, if any.
pub open spec fn first_equal<V>(s: Seq<char>, rules: Seq<(&'static str, V)>) -> Option<V>
    decreases rules.len(),
{
    if rules.len() == 0 {
        None
    } else if s == rules[0].0@ {
        Some(rules[0].1)
    } else {
        first_equal(s, rules.drop_first())
    }
}

/// The value of the first rule of `rules` whose pattern equals `s`.
pub fn find_equal<V: Copy>(s: &Vec<char>, rules: &Vec<(&'static str, V)>) -> (r: Option<V>)
    ensures
        r == first_equal(s@, rules@),
{
    let mut i: usize = 0;
    assert(rules@.skip(0) =~= rules@);
    while i < rules.len()
        invariant
            i <= rules.len(),
            first_equal(s@, rules@) == first_equal(s@, rules@.skip(i as int)),
        decreases rules.len() - i,
    {
        let (pat, value) = rules[i];
        assert(rules@.skip(i as int)[0] == rules@[i as int]);
        if chars_equal_str(s, pat) {
            return Some(value);
        }
        assert(rules@.skip(i as int).drop_first() =~= rules@.skip(i + 1));
        i += 1;
    }
    assert(rules@.skip(i as int).len() == 0);
    None
}

} // verus!
