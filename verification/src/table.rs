//! A set of models keyed by id, kept in id order: what the scanner fills and
//! what the catalog merges into.
use vstd::prelude::*;
use crate::catalog::Model;
use crate::order::{
    text_less,
    text_less_exec,
    lemma_text_less_irreflexive,
    lemma_text_less_total,
    lemma_text_less_transitive,
};
use crate::text::chars_of;

verus! {

/// The models of `s` by id; a later model replaces an earlier one with the same id.
pub open spec fn id_map(s: Seq<Model>) -> Map<Seq<char>, Model>
    decreases s.len(),
{
    if s.len() == 0 {
        Map::empty()
    } else {
        id_map(s.drop_last()).insert(s.last().id@, s.last())
    }
}

/// The ids of `s` strictly increase.
pub open spec fn sorted_by_id(s: Seq<Model>) -> bool {
    forall|i: int, j: int| 0 <= i < j < s.len() ==> text_less(s[i].id@, s[j].id@)
}

/// No two models of `s` share an id.
pub open spec fn unique_ids(s: Seq<Model>) -> bool {
    forall|i: int, j: int| 0 <= i < s.len() && 0 <= j < s.len() && i != j ==> s[i].id@ != s[j].id@
}

/// Some model of `s` has id `k`.
pub open spec fn has_id(s: Seq<Model>, k: Seq<char>) -> bool {
    exists|i: int| 0 <= i < s.len() && (#[trigger] s[i]).id@ == k
}

/// The ids keyed by `id_map(s)` are exactly the ids of `s`.
pub proof fn lemma_id_map_keys(s: Seq<Model>)
    ensures
        forall|k: Seq<char>| id_map(s).contains_key(k) <==> has_id(s, k),
    decreases s.len(),
{
    if s.len() > 0 {
        lemma_id_map_keys(s.drop_last());
        assert forall|k: Seq<char>| id_map(s).contains_key(k) <==> has_id(s, k) by {
            if has_id(s, k) {
                let i = choose|i: int| 0 <= i < s.len() && (#[trigger] s[i]).id@ == k;
                if i < s.len() - 1 {
                    assert(s.drop_last()[i] == s[i]);
                }
            }
            if has_id(s.drop_last(), k) {
                let i = choose|i: int| 0 <= i < s.len() - 1 && (#[trigger] s.drop_last()[i]).id@ == k;
                assert(s[i] == s.drop_last()[i]);
            }
        }
    }
}

/// With unique ids, `id_map(s)` maps each model's id to that model.
pub proof fn lemma_id_map_unique(s: Seq<Model>)
    requires
        unique_ids(s),
    ensures
        forall|k: Seq<char>| id_map(s).contains_key(k) <==> has_id(s, k),
        forall|i: int| 0 <= i < s.len() ==> id_map(s)[(#[trigger] s[i]).id@] == s[i],
    decreases s.len(),
{
    lemma_id_map_keys(s);
    if s.len() > 0 {
        let t = s.drop_last();
        assert(unique_ids(t)) by {
            assert forall|i: int, j: int| 0 <= i < t.len() && 0 <= j < t.len() && i != j implies t[i].id@ != t[j].id@ by {
                assert(t[i] == s[i] && t[j] == s[j]);
            }
        }
        lemma_id_map_unique(t);
        assert forall|i: int| 0 <= i < s.len() implies id_map(s)[(#[trigger] s[i]).id@] == s[i] by {
            if i < s.len() - 1 {
                assert(t[i] == s[i]);
                assert(s[i].id@ != s.last().id@);
            }
        }
    }
}

/// Strictly sorted ids are unique.
pub proof fn lemma_sorted_unique(s: Seq<Model>)
    requires
        sorted_by_id(s),
    ensures
        unique_ids(s),
{
    assert forall|i: int, j: int| 0 <= i < s.len() && 0 <= j < s.len() && i != j implies s[i].id@ != s[j].id@ by {
        if s[i].id@ == s[j].id@ {
            lemma_text_less_irreflexive(s[i].id@);
        }
    }
}

/// Two sequences with unique ids and the same models have the same id map.
pub proof fn lemma_same_models_same_map(a: Seq<Model>, b: Seq<Model>)
    requires
        unique_ids(a),
        unique_ids(b),
        forall|i: int| 0 <= i < a.len() ==> b.contains(#[trigger] a[i]),
        forall|j: int| 0 <= j < b.len() ==> a.contains(#[trigger] b[j]),
    ensures
        id_map(a) == id_map(b),
{
    lemma_id_map_unique(a);
    lemma_id_map_unique(b);
    assert forall|k: Seq<char>| id_map(a).contains_key(k) <==> id_map(b).contains_key(k) by {
        if has_id(a, k) {
            let i = choose|i: int| 0 <= i < a.len() && (#[trigger] a[i]).id@ == k;
            assert(b.contains(a[i]));
            let j = choose|j: int| 0 <= j < b.len() && b[j] == a[i];
            assert(b[j].id@ == k);
        }
        if has_id(b, k) {
            let j = choose|j: int| 0 <= j < b.len() && (#[trigger] b[j]).id@ == k;
            assert(a.contains(b[j]));
            let i = choose|i: int| 0 <= i < a.len() && a[i] == b[j];
            assert(a[i].id@ == k);
        }
    }
    assert forall|k: Seq<char>| id_map(a).contains_key(k) implies id_map(a)[k] == id_map(b)[k] by {
        assert(has_id(a, k));
        let i = choose|i: int| 0 <= i < a.len() && (#[trigger] a[i]).id@ == k;
        assert(b.contains(a[i]));
        let j = choose|j: int| 0 <= j < b.len() && b[j] == a[i];
        assert(id_map(a)[a[i].id@] == a[i]);
        assert(id_map(b)[b[j].id@] == b[j]);
    }
    assert(id_map(a) =~= id_map(b));
}

/// Models keyed by id, in increasing id order.
pub struct ModelTable {
    models: Vec<Model>,
}

impl View for ModelTable {
    type V = Seq<Model>;

    closed spec fn view(&self) -> Seq<Model> {
        self.models@
    }
}

impl ModelTable {
    #[verifier::type_invariant]
    spec fn ordered(self) -> bool {
        sorted_by_id(self.models@)
    }

    /// An empty table.
    pub fn new() -> (t: ModelTable)
        ensures
            t@ == Seq::<Model>::empty(),
    {
        ModelTable { models: Vec::new() }
    }

    /// Adds `m`. A model already stored under the same id is replaced only when
    /// `preferred` is set; otherwise the earlier model stays.
    pub fn insert_found(&mut self, m: Model, preferred: bool)
        ensures
            (preferred || !id_map(old(self)@).contains_key(m.id@)) ==> id_map(final(self)@) == id_map(
                old(self)@,
            ).insert(m.id@, m),
            !(preferred || !id_map(old(self)@).contains_key(m.id@)) ==> id_map(final(self)@) == id_map(
                old(self)@,
            ),
    {
        proof {
            use_type_invariant(&*self);
        }
        let mut models: Vec<Model> = Vec::new();
        std::mem::swap(&mut models, &mut self.models);
        let ghost old_models = models@;
        proof {
            lemma_sorted_unique(old_models);
            lemma_id_map_unique(old_models);
        }
        let key = chars_of(m.id.as_str());
        let mut p: usize = 0;
        while p < models.len() && text_less_exec(&chars_of(models[p].id.as_str()), &key)
            invariant
                p <= models.len(),
                models@ == old_models,
                key@ == m.id@,
                forall|q: int| 0 <= q < p ==> text_less(#[trigger] models@[q].id@, key@),
            decreases models.len() - p,
        {
            p += 1;
        }
        let same = p < models.len() && crate::text::chars_equal(&chars_of(models[p].id.as_str()), &key);
        if same {
            if preferred {
                models.set(p, m);
                proof {
                    let n = models@;
                    assert(n == old_models.update(p as int, m));
                    assert(sorted_by_id(n)) by {
                        assert forall|i: int, j: int| 0 <= i < j < n.len() implies text_less(n[i].id@, n[j].id@) by {
                            assert(old_models[p as int].id@ == m.id@);
                        }
                    }
                    lemma_sorted_unique(n);
                    lemma_id_map_unique(n);
                    assert forall|k: Seq<char>| #![auto] id_map(n).contains_key(k) <==> id_map(old_models).insert(m.id@, m).contains_key(k) by {
                        if has_id(old_models, k) {
                            let i = choose|i: int| 0 <= i < old_models.len() && (#[trigger] old_models[i]).id@ == k;
                            if i == p {
                                assert(n[i].id@ == k);
                            } else {
                                assert(n[i] == old_models[i]);
                            }
                        }
                        if has_id(n, k) {
                            let i = choose|i: int| 0 <= i < n.len() && (#[trigger] n[i]).id@ == k;
                            if i != p {
                                assert(n[i] == old_models[i]);
                            }
                        }
                    }
                    assert forall|k: Seq<char>| #![auto] id_map(n).contains_key(k) implies id_map(n)[k] == id_map(old_models).insert(m.id@, m)[k] by {
                        assert(has_id(n, k));
                        let i = choose|i: int| 0 <= i < n.len() && (#[trigger] n[i]).id@ == k;
                        assert(id_map(n)[n[i].id@] == n[i]);
                        if i != p {
                            assert(n[i] == old_models[i]);
                            assert(id_map(old_models)[old_models[i].id@] == old_models[i]);
                        }
                    }
                    assert(id_map(n) =~= id_map(old_models).insert(m.id@, m));
                }
            } else {
                proof {
                    assert(old_models[p as int].id@ == m.id@);
                    assert(has_id(old_models, m.id@));
                    assert(id_map(old_models).contains_key(m.id@));
                }
            }
        } else {
            proof {
                if p < models.len() {
                    lemma_text_less_total(models@[p as int].id@, key@);
                }
                assert forall|q: int| 0 <= q < old_models.len() implies old_models[q].id@ != m.id@ by {
                    if q < p {
                        lemma_text_less_irreflexive(m.id@);
                    } else if q > p {
                        lemma_text_less_transitive(m.id@, old_models[p as int].id@, old_models[q].id@);
                        lemma_text_less_irreflexive(m.id@);
                    }
                }
                assert(!has_id(old_models, m.id@));
                assert(!id_map(old_models).contains_key(m.id@));
            }
            models.insert(p, m);
            proof {
                let n = models@;
                assert(n == old_models.insert(p as int, m));
                assert(sorted_by_id(n)) by {
                    assert forall|i: int, j: int| 0 <= i < j < n.len() implies text_less(n[i].id@, n[j].id@) by {
                        if j < p {
                            assert(n[i] == old_models[i] && n[j] == old_models[j]);
                        } else if j == p {
                            assert(n[i] == old_models[i]);
                        } else if i == p {
                            assert(n[j] == old_models[j - 1]);
                            if j - 1 > p {
                                lemma_text_less_transitive(m.id@, old_models[p as int].id@, old_models[j - 1].id@);
                            }
                        } else if i < p {
                            assert(n[i] == old_models[i] && n[j] == old_models[j - 1]);
                        } else {
                            assert(n[i] == old_models[i - 1] && n[j] == old_models[j - 1]);
                        }
                    }
                }
                lemma_sorted_unique(n);
                lemma_id_map_unique(n);
                assert forall|k: Seq<char>| #![auto] id_map(n).contains_key(k) <==> id_map(old_models).insert(m.id@, m).contains_key(k) by {
                    if has_id(old_models, k) {
                        let i = choose|i: int| 0 <= i < old_models.len() && (#[trigger] old_models[i]).id@ == k;
                        if i < p {
                            assert(n[i] == old_models[i]);
                        } else {
                            assert(n[i + 1] == old_models[i]);
                        }
                    }
                    if k == m.id@ {
                        assert(n[p as int] == m);
                    }
                    if has_id(n, k) {
                        let i = choose|i: int| 0 <= i < n.len() && (#[trigger] n[i]).id@ == k;
                        if i < p {
                            assert(n[i] == old_models[i]);
                        } else if i > p {
                            assert(n[i] == old_models[i - 1]);
                        }
                    }
                }
                assert forall|k: Seq<char>| #![auto] id_map(n).contains_key(k) implies id_map(n)[k] == id_map(old_models).insert(m.id@, m)[k] by {
                    assert(has_id(n, k));
                    let i = choose|i: int| 0 <= i < n.len() && (#[trigger] n[i]).id@ == k;
                    assert(id_map(n)[n[i].id@] == n[i]);
                    if i < p {
                        assert(n[i] == old_models[i]);
                        assert(id_map(old_models)[old_models[i].id@] == old_models[i]);
                    } else if i > p {
                        assert(n[i] == old_models[i - 1]);
                        assert(id_map(old_models)[old_models[i - 1].id@] == old_models[i - 1]);
                    }
                }
                assert(id_map(n) =~= id_map(old_models).insert(m.id@, m));
            }
        }
        self.models = models;
    }

    /// The table's models, in increasing id order.
    pub fn into_models(self) -> (r: Vec<Model>)
        ensures
            r@ == self@,
            sorted_by_id(r@),
    {
        proof {
            use_type_invariant(&self);
        }
        self.models
    }
}

} // verus!
