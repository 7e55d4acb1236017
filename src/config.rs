//! The configuration model: environments of per-variable rules.

use vstd::prelude::*;

verus! {

/// How new items are combined with the items a list variable already holds.
#[derive(Clone, Copy, Debug, PartialEq, Eq, Structural)]
pub enum StringListMode {
    /// Existing items, then the new ones.
    Append,
    /// New items, then the existing ones.
    Prepend,
    /// The new items alone.
    Replace,
}

/// An additional list behaviour that a configuration may carry; reserved for
/// extensions of the list rule and not applied by the merge.
#[derive(Clone, Copy, Debug, PartialEq, Eq, Structural)]
pub enum StringListBehavior {
    RemoveDuplicates,
}

/// A list-valued variable: its value is `delimiter`-joined items.
#[derive(Clone, Debug)]
pub struct StringList {
    pub items: Vec<String>,
    pub delimiter: String,
    pub mode: StringListMode,
}

/// One rule for one variable.
#[derive(Clone, Debug)]
pub enum EnvironmentVariable {
    /// Remove the variable if it is present.
    Clear,
    /// Set the variable, replacing any earlier value.
    SetString(String),
    /// Treat the variable as a list and combine items into it.
    StringList(StringList),
    /// The variable must already be present.
    Required,
    /// Set the variable only where it is absent.
    Default(String),
}

/// A named environment: a rule for each of a set of variable names.
#[derive(Clone, Debug)]
pub struct Environment {
    pub variables: Vec<(String, EnvironmentVariable)>,
}

/// Whether no two entries of `v` share a name.
pub open spec fn names_distinct<T>(v: Seq<(String, T)>) -> bool {
    forall|i: int, j: int| 0 <= i < v.len() && 0 <= j < v.len() && i != j ==> v[i].0@ != v[j].0@
}

/// Whether some entry of `v` is named `name`.
pub open spec fn has_name<T>(v: Seq<(String, T)>, name: Seq<char>) -> bool {
    exists|i: int| 0 <= i < v.len() && v[i].0@ == name
}

/// Finds the position of the entry named `name`.
fn position_of<T>(v: &Vec<(String, T)>, name: &String) -> (r: Option<usize>)
    ensures
        match r {
            Some(i) => i < v@.len() && v@[i as int].0@ == name@,
            None => !has_name(v@, name@),
        },
{
    let mut i: usize = 0;
    while i < v.len()
        invariant
            i <= v@.len(),
            forall|j: int| 0 <= j < i ==> v@[j].0@ != name@,
        decreases v@.len() - i,
    {
        if v[i].0 == *name {
            return Some(i);
        }
        i = i + 1;
    }
    None
}

impl Environment {
    pub open spec fn wf(&self) -> bool {
        names_distinct(self.variables@)
    }

    /// An environment with no rules.
    pub fn new() -> (r: Environment)
        ensures
            r.wf(),
            r.variables@.len() == 0,
    {
        Environment { variables: Vec::new() }
    }

    /// Sets the rule for `name`, replacing the rule it had.
    pub fn insert(&mut self, name: String, rule: EnvironmentVariable)
        requires
            old(self).wf(),
        ensures
            final(self).wf(),
            has_name(old(self).variables@, name@) ==> exists|i: int|
                0 <= i < old(self).variables@.len() && old(self).variables@[i].0@ == name@
                    && final(self).variables@ == old(self).variables@.update(i, (name, rule)),
            !has_name(old(self).variables@, name@) ==> final(self).variables@
                == old(self).variables@.push((name, rule)),
    {
        match position_of(&self.variables, &name) {
            Some(i) => {
                self.variables.set(i, (name, rule));
            },
            None => {
                self.variables.push((name, rule));
            },
        }
    }
}

/// Every environment of a configuration, by name.
#[derive(Clone, Debug)]
pub struct ConfigurationFile {
    pub environments: Vec<(String, Environment)>,
}

impl ConfigurationFile {
    pub open spec fn wf(&self) -> bool {
        names_distinct(self.environments@)
    }

    /// A configuration with no environments.
    pub fn new() -> (r: ConfigurationFile)
        ensures
            r.wf(),
            r.environments@.len() == 0,
    {
        ConfigurationFile { environments: Vec::new() }
    }

    /// Sets the environment named `name`, replacing the one it had.
    pub fn insert(&mut self, name: String, env: Environment)
        requires
            old(self).wf(),
        ensures
            final(self).wf(),
            has_name(old(self).environments@, name@) ==> exists|i: int|
                0 <= i < old(self).environments@.len() && old(self).environments@[i].0@ == name@
                    && final(self).environments@ == old(self).environments@.update(i, (name, env)),
            !has_name(old(self).environments@, name@) ==> final(self).environments@
                == old(self).environments@.push((name, env)),
    {
        match position_of(&self.environments, &name) {
            Some(i) => {
                self.environments.set(i, (name, env));
            },
            None => {
                self.environments.push((name, env));
            },
        }
    }

    /// The environment named `name`, if there is one.
    pub fn get(&self, name: &String) -> (r: Option<&Environment>)
        ensures
            match r {
                Some(e) => env_named(self.environments@, name@) == Some(*e),
                None => env_named(self.environments@, name@) == None::<Environment>,
            },
    {
        let mut i: usize = 0;
        assert(self.environments@.subrange(0, self.environments@.len() as int) =~= self.environments@);
        while i < self.environments.len()
            invariant
                i <= self.environments@.len(),
                env_named(self.environments@, name@) == env_named(
                    self.environments@.subrange(i as int, self.environments@.len() as int),
                    name@,
                ),
            decreases self.environments@.len() - i,
        {
            let ghost rest = self.environments@.subrange(i as int, self.environments@.len() as int);
            assert(rest.drop_first() =~= self.environments@.subrange(i + 1, self.environments@.len() as int));
            if self.environments[i].0 == *name {
                return Some(&self.environments[i].1);
            }
            i = i + 1;
        }
        None
    }
}

/// The first environment of `entries` named `name`.
pub open spec fn env_named(entries: Seq<(String, Environment)>, name: Seq<char>) -> Option<Environment>
    decreases entries.len(),
{
    if entries.len() == 0 {
        None
    } else if entries[0].0@ == name {
        Some(entries[0].1)
    } else {
        env_named(entries.drop_first(), name)
    }
}

} // verus!
