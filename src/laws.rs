//! Facts about merging and list handling, proved over the models the
//! executable functions are specified with.

use vstd::prelude::*;

use crate::config::{Environment, EnvironmentVariable};
use crate::merge::{merge_result, rule_result, rules_result, VarModel};
use crate::strings::{items_from, join_spec, split_spec};

verus! {

/// Applying `a` then `b` is applying `a` and, where it succeeds, `b` after it.
pub proof fn lemma_rules_concat(
    m: VarModel,
    a: Seq<(String, EnvironmentVariable)>,
    b: Seq<(String, EnvironmentVariable)>,
)
    ensures
        rules_result(m, a + b) == match rules_result(m, a) {
            Ok(m2) => rules_result(m2, b),
            Err(e) => Err(e),
        },
    decreases a.len(),
{
    if a.len() > 0 {
        assert((a + b).drop_first() =~= a.drop_first() + b);
        assert((a + b)[0] == a[0]);
        match rule_result(m, a[0].0@, a[0].1) {
            Ok(m2) => lemma_rules_concat(m2, a.drop_first(), b),
            Err(_) => {},
        }
    } else {
        assert(a + b =~= b);
    }
}

/// Merging `a` then `b` is merging `a` and, where it succeeds, `b` after it.
pub proof fn lemma_merge_concat(m: VarModel, a: Seq<&Environment>, b: Seq<&Environment>)
    ensures
        merge_result(m, a + b) == match merge_result(m, a) {
            Ok(m2) => merge_result(m2, b),
            Err(e) => Err(e),
        },
    decreases a.len(),
{
    if a.len() > 0 {
        assert((a + b).drop_first() =~= a.drop_first() + b);
        assert((a + b)[0] == a[0]);
        match rules_result(m, a[0].variables@) {
            Ok(m2) => lemma_merge_concat(m2, a.drop_first(), b),
            Err(_) => {},
        }
    } else {
        assert(a + b =~= b);
    }
}

/// With no environments selected, the merge returns the ambient mapping unchanged.
pub proof fn lemma_merge_no_environments(ambient: VarModel)
    ensures
        merge_result(ambient, Seq::<&Environment>::empty()) == Ok::<VarModel, Seq<char>>(ambient),
{
}

/// Setting a variable twice keeps the value set last.
pub proof fn lemma_set_string_last_wins(m: VarModel, name: Seq<char>, first: String, second: String)
    ensures
        ({
            let once = m.insert(name, first@);
            &&& rule_result(m, name, EnvironmentVariable::SetString(first)) == Ok::<
                VarModel,
                Seq<char>,
            >(once)
            &&& rule_result(once, name, EnvironmentVariable::SetString(second)) == Ok::<
                VarModel,
                Seq<char>,
            >(m.insert(name, second@))
        }),
{
    assert(m.insert(name, first@).insert(name, second@) =~= m.insert(name, second@));
}

/// Two environments that each set one variable leave the value of the later one.
pub proof fn lemma_set_string_across_environments(
    m: VarModel,
    e1: &Environment,
    e2: &Environment,
    name: String,
    first: String,
    second: String,
)
    requires
        e1.variables@ == seq![(name, EnvironmentVariable::SetString(first))],
        e2.variables@ == seq![(name, EnvironmentVariable::SetString(second))],
    ensures
        merge_result(m, seq![e1, e2]) == Ok::<VarModel, Seq<char>>(m.insert(name@, second@)),
{
    let s = seq![e1, e2];
    let once = m.insert(name@, first@);
    assert(s[0] == e1);
    assert(s.drop_first() =~= seq![e2]);
    assert(s.drop_first()[0] == e2);
    let twice = once.insert(name@, second@);
    assert(e1.variables@[0] == (name, EnvironmentVariable::SetString(first)));
    assert(e2.variables@[0] == (name, EnvironmentVariable::SetString(second)));
    assert(e1.variables@.drop_first() =~= Seq::<(String, EnvironmentVariable)>::empty());
    assert(e2.variables@.drop_first() =~= Seq::<(String, EnvironmentVariable)>::empty());
    assert(rules_result(once, e1.variables@.drop_first()) == Ok::<VarModel, Seq<char>>(once));
    assert(rules_result(m, e1.variables@) == Ok::<VarModel, Seq<char>>(once));
    assert(rules_result(twice, e2.variables@.drop_first()) == Ok::<VarModel, Seq<char>>(twice));
    assert(rules_result(once, e2.variables@) == Ok::<VarModel, Seq<char>>(twice));
    assert(merge_result(twice, s.drop_first().drop_first()) == Ok::<VarModel, Seq<char>>(twice));
    assert(merge_result(once, s.drop_first()) == Ok::<VarModel, Seq<char>>(twice));
    assert(s.drop_first().drop_first() =~= Seq::<&Environment>::empty());
    assert(e1.variables@.drop_first() =~= Seq::<(String, EnvironmentVariable)>::empty());
    assert(e2.variables@.drop_first() =~= Seq::<(String, EnvironmentVariable)>::empty());
    assert(m.insert(name@, first@).insert(name@, second@) =~= m.insert(name@, second@));
}

/// Clearing an absent variable succeeds and changes nothing.
pub proof fn lemma_clear_absent(m: VarModel, name: Seq<char>)
    requires
        !m.contains_key(name),
    ensures
        rule_result(m, name, EnvironmentVariable::Clear) == Ok::<VarModel, Seq<char>>(m),
{
    assert(m.remove(name) =~= m);
}

/// A default leaves a present variable as it is and fills an absent one.
pub proof fn lemma_default(m: VarModel, name: Seq<char>, value: String)
    ensures
        m.contains_key(name) ==> rule_result(m, name, EnvironmentVariable::Default(value)) == Ok::<
            VarModel,
            Seq<char>,
        >(m),
        !m.contains_key(name) ==> rule_result(m, name, EnvironmentVariable::Default(value))
            == Ok::<VarModel, Seq<char>>(m.insert(name, value@)),
{
}

/// A required variable that nothing before its rule has set fails the whole
/// merge, naming that variable, whatever environments come after.
pub proof fn lemma_required_missing_fails(
    ambient: VarModel,
    prior: Seq<&Environment>,
    env: &Environment,
    later: Seq<&Environment>,
    k: int,
    before_rule: VarModel,
)
    requires
        0 <= k < env.variables@.len(),
        env.variables@[k].1 == EnvironmentVariable::Required,
        ({
            let rules_before = env.variables@.subrange(0, k);
            match merge_result(ambient, prior) {
                Ok(m) => rules_result(m, rules_before) == Ok::<VarModel, Seq<char>>(before_rule),
                Err(_) => false,
            }
        }),
        !before_rule.contains_key(env.variables@[k].0@),
    ensures
        merge_result(ambient, prior.push(env) + later) == Err::<VarModel, Seq<char>>(
            env.variables@[k].0@,
        ),
{
    let rules = env.variables@;
    let m = merge_result(ambient, prior)->Ok_0;
    lemma_rules_concat(m, rules.subrange(0, k), rules.subrange(k, rules.len() as int));
    assert(rules.subrange(0, k) + rules.subrange(k, rules.len() as int) =~= rules);
    assert(rules.subrange(k, rules.len() as int)[0] == rules[k]);
    assert(rules_result(m, rules) == Err::<VarModel, Seq<char>>(rules[k].0@));
    lemma_merge_concat(ambient, prior, seq![env]);
    assert(prior + seq![env] =~= prior.push(env));
    assert(merge_result(m, seq![env]) == Err::<VarModel, Seq<char>>(rules[k].0@));
    lemma_merge_concat(ambient, prior.push(env), later);
}

/// Rules none of which is for `name` keep `name` absent.
pub proof fn lemma_rules_keep_absent(m: VarModel, rules: Seq<(String, EnvironmentVariable)>, name: Seq<char>)
    requires
        !m.contains_key(name),
        forall|i: int| 0 <= i < rules.len() ==> rules[i].0@ != name,
    ensures
        match rules_result(m, rules) {
            Ok(f) => !f.contains_key(name),
            Err(_) => true,
        },
    decreases rules.len(),
{
    if rules.len() > 0 {
        match rule_result(m, rules[0].0@, rules[0].1) {
            Ok(m2) => {
                assert(!m2.contains_key(name));
                lemma_rules_keep_absent(m2, rules.drop_first(), name);
            },
            Err(_) => {},
        }
    }
}

/// A variable cleared by the last environment is absent from a successful
/// merge, whatever earlier environments set it to.
pub proof fn lemma_later_clear_wins(ambient: VarModel, earlier: Seq<&Environment>, last: &Environment, k: int)
    requires
        last.wf(),
        0 <= k < last.variables@.len(),
        last.variables@[k].1 == EnvironmentVariable::Clear,
    ensures
        match merge_result(ambient, earlier.push(last)) {
            Ok(f) => !f.contains_key(last.variables@[k].0@),
            Err(_) => true,
        },
{
    let rules = last.variables@;
    let name = rules[k].0@;
    lemma_merge_concat(ambient, earlier, seq![last]);
    assert(earlier + seq![last] =~= earlier.push(last));
    match merge_result(ambient, earlier) {
        Ok(m) => {
            assert(seq![last].drop_first() =~= Seq::<&Environment>::empty());
            assert(seq![last][0] == last);
            match rules_result(m, rules) {
                Ok(f) => {
                    assert(merge_result(f, seq![last].drop_first()) == Ok::<VarModel, Seq<char>>(f));
                    assert(merge_result(m, seq![last]) == Ok::<VarModel, Seq<char>>(f));
                },
                Err(e) => {
                    assert(merge_result(m, seq![last]) == Err::<VarModel, Seq<char>>(e));
                },
            }
            let pre = rules.subrange(0, k + 1);
            let post = rules.subrange(k + 1, rules.len() as int);
            assert(pre + post =~= rules);
            lemma_rules_concat(m, pre, post);
            lemma_rules_concat(m, rules.subrange(0, k), seq![rules[k]]);
            assert(rules.subrange(0, k) + seq![rules[k]] =~= pre);
            match rules_result(m, rules.subrange(0, k)) {
                Ok(m1) => {
                    assert(seq![rules[k]].drop_first() =~= Seq::<(String, EnvironmentVariable)>::empty());
                    let m2 = m1.remove(name);
                    assert(seq![rules[k]][0] == rules[k]);
                    assert(rule_result(m1, name, rules[k].1) == Ok::<VarModel, Seq<char>>(m2));
                    assert(rules_result(m1, seq![rules[k]]) == rules_result(m2, seq![rules[k]].drop_first()));
                    assert(rules_result(m, pre) == Ok::<VarModel, Seq<char>>(m2));
                    assert forall|i: int| 0 <= i < post.len() implies post[i].0@ != name by {
                        assert(post[i] == rules[k + 1 + i]);
                    }
                    lemma_rules_keep_absent(m2, post, name);
                },
                Err(_) => {},
            }
        },
        Err(_) => {},
    }
}

/// Whether no item is empty and no item holds a character of `d`.
pub open spec fn plain_items(items: Seq<Seq<char>>, d: Seq<char>) -> bool {
    forall|i: int|
        0 <= i < items.len() ==> items[i].len() > 0 && forall|j: int|
            0 <= j < items[i].len() ==> !d.contains(#[trigger] items[i][j])
}

proof fn lemma_skip_plain(s: Seq<char>, t: Seq<char>, d: Seq<char>, cur: Seq<char>)
    requires
        d.len() > 0,
        forall|j: int| 0 <= j < s.len() ==> !d.contains(#[trigger] s[j]),
    ensures
        items_from(s + t, d, cur) == items_from(t, d, cur + s),
    decreases s.len(),
{
    if s.len() == 0 {
        assert(s + t =~= t);
        assert(cur + s =~= cur);
    } else {
        let st = s + t;
        assert(st[0] == s[0]);
        assert(d.contains(d[0]));
        if d.len() <= st.len() && st.subrange(0, d.len() as int) == d {
            assert(st.subrange(0, d.len() as int)[0] == d[0]);
        }
        assert(st.drop_first() =~= s.drop_first() + t);
        lemma_skip_plain(s.drop_first(), t, d, cur.push(s[0]));
        assert(cur.push(s[0]) + s.drop_first() =~= cur + s);
    }
}

proof fn lemma_join_front(items: Seq<Seq<char>>, d: Seq<char>)
    requires
        items.len() >= 2,
    ensures
        join_spec(items, d) == items[0] + d + join_spec(items.drop_first(), d),
    decreases items.len(),
{
    if items.len() == 2 {
        assert(items.drop_last() =~= seq![items[0]]);
        assert(items.drop_first() =~= seq![items[1]]);
        assert(join_spec(items.drop_last(), d) == items[0]);
        assert(join_spec(items.drop_first(), d) == items[1]);
    } else {
        lemma_join_front(items.drop_last(), d);
        assert(items.drop_last().drop_first() =~= items.drop_first().drop_last());
        assert(items.drop_first().last() == items.last());
        assert(items.drop_last()[0] == items[0]);
        assert(join_spec(items.drop_first(), d) == join_spec(items.drop_first().drop_last(), d) + d
            + items.drop_first().last());
        assert(items[0] + d + join_spec(items.drop_first().drop_last(), d) + d + items.last() =~= items[0]
            + d + (join_spec(items.drop_first().drop_last(), d) + d + items.last()));
    }
}

/// Splitting a joined list with its delimiter gives back the items, where
/// the delimiter is not empty and no item is empty or holds a character of it.
pub proof fn lemma_split_join_round_trip(items: Seq<Seq<char>>, d: Seq<char>)
    requires
        d.len() > 0,
        plain_items(items, d),
    ensures
        split_spec(join_spec(items, d), d) == items,
        join_spec(split_spec(join_spec(items, d), d), d) == join_spec(items, d),
    decreases items.len(),
{
    if items.len() == 0 {
        assert(split_spec(Seq::empty(), d) =~= Seq::<Seq<char>>::empty());
    } else if items.len() == 1 {
        lemma_skip_plain(items[0], Seq::empty(), d, Seq::empty());
        assert(items[0] + Seq::<char>::empty() =~= items[0]);
        assert(Seq::<char>::empty() + items[0] =~= items[0]);
        assert(seq![items[0]] =~= items);
    } else {
        lemma_join_front(items, d);
        let rest = join_spec(items.drop_first(), d);
        assert(items[0] + d + rest =~= items[0] + (d + rest));
        assert forall|j: int| 0 <= j < items[0].len() implies !d.contains(#[trigger] items[0][j]) by {
            assert(0 < items.len());
        }
        lemma_skip_plain(items[0], d + rest, d, Seq::empty());
        assert(Seq::<char>::empty() + items[0] =~= items[0]);
        let dr = d + rest;
        assert(dr.subrange(0, d.len() as int) =~= d);
        assert(dr.subrange(d.len() as int, dr.len() as int) =~= rest);
        assert(plain_items(items.drop_first(), d)) by {
            assert forall|i: int| 0 <= i < items.drop_first().len() implies items.drop_first()[i].len() > 0
                && forall|j: int| 0 <= j < items.drop_first()[i].len() ==> !d.contains(
                #[trigger] items.drop_first()[i][j]) by {
                assert(items.drop_first()[i] == items[i + 1]);
            }
        }
        lemma_split_join_round_trip(items.drop_first(), d);
        assert(seq![items[0]] + items.drop_first() =~= items);
    }
}

} // verus!
