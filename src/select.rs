//! Resolving environment names against a configuration.

use vstd::prelude::*;

use crate::config::{env_named, ConfigurationFile, Environment};

verus! {

/// What happens to a name that no environment of the configuration has.
#[derive(Clone, Copy, Debug, PartialEq, Eq, Structural)]
pub enum UnknownEnvironmentPolicy {
    /// The whole selection fails.
    Strict,
    /// The name is skipped and reported; the others are kept.
    Lenient,
}

/// Why a selection failed.
#[derive(Clone, Debug)]
pub enum SelectError {
    /// No environment of the configuration has this name.
    UnknownEnvironmentReference(String),
}

impl SelectError {
    /// A sentence describing the failure, naming the environment.
    pub fn message(&self) -> (r: String)
        ensures
            match self {
                SelectError::UnknownEnvironmentReference(n) => r@ == "Environment '"@ + n@
                    + "' not found in configuration."@,
            },
    {
        match self {
            SelectError::UnknownEnvironmentReference(n) => {
                let mut r = String::new();
                r.append("Environment '");
                r.append(n.as_str());
                r.append("' not found in configuration.");
                r
            },
        }
    }
}

/// Whether the configuration has an environment named `name`.
pub open spec fn is_known(entries: Seq<(String, Environment)>, name: Seq<char>) -> bool {
    env_named(entries, name) is Some
}

/// The names of `names` that the configuration has, in order.
pub open spec fn known_names(entries: Seq<(String, Environment)>, names: Seq<String>) -> Seq<
    Seq<char>,
>
    decreases names.len(),
{
    if names.len() == 0 {
        Seq::empty()
    } else if is_known(entries, names.last()@) {
        known_names(entries, names.drop_last()).push(names.last()@)
    } else {
        known_names(entries, names.drop_last())
    }
}

/// The names of `names` that the configuration lacks, in order.
pub open spec fn unknown_names(entries: Seq<(String, Environment)>, names: Seq<String>) -> Seq<
    Seq<char>,
>
    decreases names.len(),
{
    if names.len() == 0 {
        Seq::empty()
    } else if is_known(entries, names.last()@) {
        unknown_names(entries, names.drop_last())
    } else {
        unknown_names(entries, names.drop_last()).push(names.last()@)
    }
}

/// Resolves `names` in order. Under `Strict` an unknown name fails the whole
/// selection with the first such name; under `Lenient` unknown names are
/// skipped and returned beside the environments found.
pub fn select_environments<'a>(
    config: &'a ConfigurationFile,
    names: &Vec<String>,
    policy: UnknownEnvironmentPolicy,
) -> (r: Result<(Vec<&'a Environment>, Vec<String>), SelectError>)
    ensures
        match r {
            Ok((envs, skipped)) => {
                &&& policy == UnknownEnvironmentPolicy::Strict ==> unknown_names(
                    config.environments@,
                    names@,
                ).len() == 0
                &&& envs@.len() == known_names(config.environments@, names@).len()
                &&& forall|i: int|
                    0 <= i < envs@.len() ==> env_named(
                        config.environments@,
                        #[trigger] known_names(config.environments@, names@)[i],
                    ) == Some(*envs@[i])
                &&& skipped@.map_values(|s: String| s@) == unknown_names(
                    config.environments@,
                    names@,
                )
            },
            Err(SelectError::UnknownEnvironmentReference(n)) => {
                &&& policy == UnknownEnvironmentPolicy::Strict
                &&& unknown_names(config.environments@, names@).len() > 0
                &&& n@ == unknown_names(config.environments@, names@)[0]
            },
        },
{
    let mut envs: Vec<&'a Environment> = Vec::new();
    let mut skipped: Vec<String> = Vec::new();
    let mut i: usize = 0;
    while i < names.len()
        invariant
            i <= names@.len(),
            envs@.len() == known_names(config.environments@, names@.subrange(0, i as int)).len(),
            forall|k: int|
                0 <= k < envs@.len() ==> env_named(
                    config.environments@,
                    #[trigger] known_names(config.environments@, names@.subrange(0, i as int))[k],
                ) == Some(*envs@[k]),
            skipped@.map_values(|s: String| s@) == unknown_names(
                config.environments@,
                names@.subrange(0, i as int),
            ),
            policy == UnknownEnvironmentPolicy::Strict ==> skipped@.len() == 0,
        decreases names@.len() - i,
    {
        let ghost prev = names@.subrange(0, i as int);
        let ghost next = names@.subrange(0, i + 1);
        assert(next.drop_last() =~= prev);
        let ghost known_prev = known_names(config.environments@, prev);
        match config.get(&names[i]) {
            Some(e) => {
                envs.push(e);
                assert(known_names(config.environments@, next) =~= known_prev.push(names@[i as int]@));
                assert(skipped@.map_values(|s: String| s@) =~= unknown_names(config.environments@, next));
            },
            None => {
                if policy == UnknownEnvironmentPolicy::Strict {
                    proof {
                        lemma_first_unknown(config.environments@, names@, i as int);
                    }
                    return Err(SelectError::UnknownEnvironmentReference(names[i].clone()));
                }
                skipped.push(names[i].clone());
                assert(known_names(config.environments@, next) =~= known_prev);
                assert(skipped@.map_values(|s: String| s@) =~= unknown_names(config.environments@, next));
            },
        }
        i = i + 1;
    }
    assert(names@.subrange(0, i as int) =~= names@);
    Ok((envs, skipped))
}

/// Where the first `i` names are all known and the next is not, that name
/// is the first unknown one.
proof fn lemma_first_unknown(entries: Seq<(String, Environment)>, names: Seq<String>, i: int)
    requires
        0 <= i < names.len(),
        unknown_names(entries, names.subrange(0, i)).len() == 0,
        !is_known(entries, names[i]@),
    ensures
        unknown_names(entries, names).len() > 0,
        unknown_names(entries, names)[0] == names[i]@,
    decreases names.len(),
{
    if i == names.len() - 1 {
        assert(names.drop_last() =~= names.subrange(0, i));
    } else {
        assert(names.drop_last().subrange(0, i) =~= names.subrange(0, i));
        lemma_first_unknown(entries, names.drop_last(), i);
    }
}

} // verus!
