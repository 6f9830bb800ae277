//! The parts of a kubeconfig that the modes read.
use crate::search::{first_where, lemma_first_where, lemma_first_where_is_first};
use vstd::prelude::*;

verus! {

/// The settings of one context.
#[derive(Debug, Clone)]
pub struct Context {
    pub namespace: Option<String>,
}

/// A context and its name.
#[derive(Debug, Clone)]
pub struct NamedContext {
    pub name: String,
    pub context: Option<Context>,
}

/// A kubeconfig: its current context and its contexts, in file order.
#[derive(Debug, Clone)]
pub struct Kubeconfig {
    pub current_context: Option<String>,
    pub contexts: Vec<NamedContext>,
}

/// Whether a context is called `name`.
pub open spec fn named(name: Seq<char>) -> spec_fn(NamedContext) -> bool {
    |c: NamedContext| c.name@ == name
}

/// Whether a kubeconfig has a context called `name`.
pub open spec fn has_context(name: Seq<char>) -> spec_fn(Kubeconfig) -> bool {
    |k: Kubeconfig| exists|i: int| 0 <= i < k.contexts@.len() && (#[trigger] k.contexts@[i]).name@ == name
}

/// The position of the first context of `config` called `name`.
pub fn find_context(config: &Kubeconfig, name: &str) -> (r: Option<usize>)
    ensures
        match r {
            Some(i) => i < config.contexts@.len() && first_where(config.contexts@, named(name@))
                == Some(i as int),
            None => first_where(config.contexts@, named(name@)) is None,
        },
{
    let mut j: usize = 0;
    while j < config.contexts.len()
        invariant
            j <= config.contexts@.len(),
            forall|k: int| 0 <= k < j ==> !named(name@)(#[trigger] config.contexts@[k]),
        decreases config.contexts.len() - j,
    {
        if crate::text::same_text(config.contexts[j].name.as_str(), name) {
            proof {
                lemma_first_where(config.contexts@, named(name@), j as int);
            }
            return Some(j);
        }
        j = j + 1;
    }
    proof {
        lemma_first_where(config.contexts@, named(name@), j as int);
    }
    None
}

/// The position of the first of `configs` that has a context called `name`.
pub fn find_config_with_context(configs: &Vec<Kubeconfig>, name: &str) -> (r: Option<usize>)
    ensures
        match r {
            Some(i) => i < configs@.len() && first_where(configs@, has_context(name@)) == Some(
                i as int,
            ),
            None => first_where(configs@, has_context(name@)) is None,
        },
{
    let mut j: usize = 0;
    while j < configs.len()
        invariant
            j <= configs@.len(),
            forall|k: int| 0 <= k < j ==> !has_context(name@)(#[trigger] configs@[k]),
        decreases configs.len() - j,
    {
        let found = find_context(&configs[j], name);
        proof {
            lemma_first_where_is_first(configs@[j as int].contexts@, named(name@));
        }
        if found.is_some() {
            proof {
                lemma_first_where(configs@, has_context(name@), j as int);
            }
            return Some(j);
        }
        j = j + 1;
    }
    proof {
        lemma_first_where(configs@, has_context(name@), j as int);
    }
    None
}

} // verus!
