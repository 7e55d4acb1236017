//! The merge engine: environments applied in order over a working mapping.

use vstd::prelude::*;

use crate::config::{Environment, EnvironmentVariable, StringList, StringListMode};
use crate::strings::{join_items, join_spec, split_items, split_spec, views_of};
use crate::var_map::VarMap;

verus! {

/// Why a merge failed.
#[derive(Clone, Debug)]
pub enum MergeError {
    /// A `Required` variable was absent when its rule was applied.
    MissingRequiredVariable(String),
}

impl MergeError {
    /// A sentence describing the failure, naming the variable.
    pub fn message(&self) -> (r: String)
        ensures
            match self {
                MergeError::MissingRequiredVariable(n) => r@ == "Required environment variable '"@
                    + n@ + "' is not set."@,
            },
    {
        match self {
            MergeError::MissingRequiredVariable(n) => {
                let mut r = String::new();
                r.append("Required environment variable '");
                r.append(n.as_str());
                r.append("' is not set.");
                r
            },
        }
    }
}

/// The working mapping of variable names to values.
pub type VarModel = Map<Seq<char>, Seq<char>>;

/// The value a variable has for list purposes: empty where it is absent.
pub open spec fn current_value(m: VarModel, name: Seq<char>) -> Seq<char> {
    if m.contains_key(name) {
        m[name]
    } else {
        Seq::empty()
    }
}

/// The existing items combined with the new ones according to `mode`.
pub open spec fn combined_items(
    existing: Seq<Seq<char>>,
    items: Seq<Seq<char>>,
    mode: StringListMode,
) -> Seq<Seq<char>> {
    match mode {
        StringListMode::Append => existing + items,
        StringListMode::Prepend => items + existing,
        StringListMode::Replace => items,
    }
}

/// The value a list rule gives to a variable whose value is `current`.
pub open spec fn list_value(current: Seq<char>, list: StringList) -> Seq<char> {
    join_spec(
        combined_items(split_spec(current, list.delimiter@), views_of(list.items@), list.mode),
        list.delimiter@,
    )
}

/// The mapping after one rule for `name`, or the name of a missing required variable.
pub open spec fn rule_result(m: VarModel, name: Seq<char>, rule: EnvironmentVariable) -> Result<
    VarModel,
    Seq<char>,
> {
    match rule {
        EnvironmentVariable::Clear => Ok(m.remove(name)),
        EnvironmentVariable::SetString(v) => Ok(m.insert(name, v@)),
        EnvironmentVariable::StringList(list) => Ok(
            m.insert(name, list_value(current_value(m, name), list)),
        ),
        EnvironmentVariable::Required => if m.contains_key(name) {
            Ok(m)
        } else {
            Err(name)
        },
        EnvironmentVariable::Default(v) => if m.contains_key(name) {
            Ok(m)
        } else {
            Ok(m.insert(name, v@))
        },
    }
}

/// The mapping after `rules` in order; the first failure ends it.
pub open spec fn rules_result(m: VarModel, rules: Seq<(String, EnvironmentVariable)>) -> Result<
    VarModel,
    Seq<char>,
>
    decreases rules.len(),
{
    if rules.len() == 0 {
        Ok(m)
    } else {
        match rule_result(m, rules[0].0@, rules[0].1) {
            Ok(m2) => rules_result(m2, rules.drop_first()),
            Err(e) => Err(e),
        }
    }
}

/// The mapping after each of `envs` in order, starting from `m`.
pub open spec fn merge_result(m: VarModel, envs: Seq<&Environment>) -> Result<VarModel, Seq<char>>
    decreases envs.len(),
{
    if envs.len() == 0 {
        Ok(m)
    } else {
        match rules_result(m, envs[0].variables@) {
            Ok(m2) => merge_result(m2, envs.drop_first()),
            Err(e) => Err(e),
        }
    }
}

fn extend_cloned(dst: &mut Vec<String>, src: &Vec<String>)
    ensures
        final(dst)@ == old(dst)@ + src@,
{
    let mut i: usize = 0;
    while i < src.len()
        invariant
            i <= src@.len(),
            dst@ == old(dst)@ + src@.subrange(0, i as int),
        decreases src@.len() - i,
    {
        dst.push(src[i].clone());
        i = i + 1;
        assert(dst@ =~= old(dst)@ + src@.subrange(0, i as int));
    }
    assert(src@.subrange(0, src@.len() as int) =~= src@);
}

/// The new value of a list variable whose value is `current`.
pub fn apply_string_list(current: &str, list: &StringList) -> (r: String)
    ensures
        r@ == list_value(current@, *list),
{
    let existing = split_items(current, list.delimiter.as_str());
    let mut combined: Vec<String> = Vec::new();
    match list.mode {
        StringListMode::Append => {
            extend_cloned(&mut combined, &existing);
            extend_cloned(&mut combined, &list.items);
        },
        StringListMode::Prepend => {
            extend_cloned(&mut combined, &list.items);
            extend_cloned(&mut combined, &existing);
        },
        StringListMode::Replace => {
            extend_cloned(&mut combined, &list.items);
        },
    }
    assert(views_of(combined@) =~= combined_items(
        views_of(existing@),
        views_of(list.items@),
        list.mode,
    ));
    join_items(&combined, list.delimiter.as_str())
}

/// Applies the rule `rule` for `name` to `map`.
pub fn apply_rule(map: &mut VarMap, name: &String, rule: &EnvironmentVariable) -> (r: Result<
    (),
    MergeError,
>)
    requires
        old(map).wf(),
    ensures
        final(map).wf(),
        match r {
            Ok(()) => rule_result(old(map)@, name@, *rule) == Ok::<VarModel, Seq<char>>(
                final(map)@,
            ),
            Err(MergeError::MissingRequiredVariable(n)) => rule_result(old(map)@, name@, *rule)
                == Err::<VarModel, Seq<char>>(n@),
        },
{
    match rule {
        EnvironmentVariable::Clear => {
            map.remove(name);
            Ok(())
        },
        EnvironmentVariable::SetString(v) => {
            map.insert(name.clone(), v.clone());
            Ok(())
        },
        EnvironmentVariable::StringList(list) => {
            let value = match map.get(name) {
                Some(cur) => apply_string_list(cur.as_str(), list),
                None => {
                    let empty = String::new();
                    apply_string_list(empty.as_str(), list)
                },
            };
            map.insert(name.clone(), value);
            Ok(())
        },
        EnvironmentVariable::Required => {
            if map.contains_key(name) {
                Ok(())
            } else {
                Err(MergeError::MissingRequiredVariable(name.clone()))
            }
        },
        EnvironmentVariable::Default(v) => {
            if !map.contains_key(name) {
                map.insert(name.clone(), v.clone());
            }
            Ok(())
        },
    }
}

/// Applies `environments` in order over the snapshot `ambient` and returns the
/// final mapping, or the first required variable found missing.
pub fn apply_env(environments: Vec<&Environment>, ambient: VarMap) -> (r: Result<VarMap, MergeError>)
    requires
        ambient.wf(),
    ensures
        match r {
            Ok(m) => m.wf() && merge_result(ambient@, environments@) == Ok::<VarModel, Seq<char>>(
                m@,
            ),
            Err(MergeError::MissingRequiredVariable(n)) => merge_result(ambient@, environments@)
                == Err::<VarModel, Seq<char>>(n@),
        },
{
    let mut map = ambient;
    let mut i: usize = 0;
    assert(environments@.subrange(0, environments@.len() as int) =~= environments@);
    while i < environments.len()
        invariant
            i <= environments@.len(),
            map.wf(),
            merge_result(ambient@, environments@) == merge_result(
                map@,
                environments@.subrange(i as int, environments@.len() as int),
            ),
        decreases environments@.len() - i,
    {
        let env = environments[i];
        let ghost start = map@;
        let ghost rest = environments@.subrange(i as int, environments@.len() as int);
        assert(rest.drop_first() =~= environments@.subrange(i + 1, environments@.len() as int));
        let mut j: usize = 0;
        assert(env.variables@.subrange(0, env.variables@.len() as int) =~= env.variables@);
        while j < env.variables.len()
            invariant
                j <= env.variables@.len(),
                i < environments@.len(),
                env == environments@[i as int],
                rest == environments@.subrange(i as int, environments@.len() as int),
                merge_result(ambient@, environments@) == merge_result(start, rest),
                map.wf(),
                rules_result(start, env.variables@) == rules_result(
                    map@,
                    env.variables@.subrange(j as int, env.variables@.len() as int),
                ),
            decreases env.variables@.len() - j,
        {
            let ghost rules = env.variables@.subrange(j as int, env.variables@.len() as int);
            assert(rules.drop_first() =~= env.variables@.subrange(j + 1, env.variables@.len() as int));
            let entry = &env.variables[j];
            assert(rules[0] == *entry);
            let ghost before = map@;
            match apply_rule(&mut map, &entry.0, &entry.1) {
                Ok(()) => {},
                Err(e) => {
                    assert(rest[0] == env);
                    assert(rules_result(before, rules) == rule_result(before, entry.0@, entry.1));
                    return Err(e);
                },
            }
            j = j + 1;
        }
        assert(env.variables@.subrange(j as int, env.variables@.len() as int) =~= Seq::<(String, EnvironmentVariable)>::empty());
        i = i + 1;
    }
    assert(environments@.subrange(i as int, environments@.len() as int) =~= Seq::<&Environment>::empty());
    Ok(map)
}

} // verus!
