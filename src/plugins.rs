//! The plugin pipeline: how replies of `handleImport` hooks, taken in the
//! order the plugins were registered, rewrite or veto a specifier.
use vstd::prelude::*;

use crate::model::BuildError;

verus! {

/// What one plugin's `handleImport` hook answered for an import.
#[derive(Debug, Clone)]
pub enum HookReply {
    /// A string: it replaces the specifier.
    Rewrite(String),
    /// The boolean `false`: the import is dropped.
    Veto,
    /// `true`, any other value, or no hook at all: the specifier goes on unchanged.
    Pass,
}

/// The working specifier after one more reply; `None` once vetoed.
pub open spec fn thread_spec(cur: Option<Seq<char>>, reply: HookReply) -> Option<Seq<char>> {
    match cur {
        None => None,
        Some(s) => match reply {
            HookReply::Rewrite(t) => Some(t@),
            HookReply::Veto => None,
            HookReply::Pass => Some(s),
        },
    }
}

/// The specifier that reaches resolution after `replies`, in order, or `None`
/// when one of them vetoed the import.
pub open spec fn chain_spec(s: Seq<char>, replies: Seq<HookReply>) -> Option<Seq<char>>
    decreases replies.len(),
{
    if replies.len() == 0 {
        Some(s)
    } else {
        thread_spec(chain_spec(s, replies.drop_last()), replies.last())
    }
}

/// Applies one plugin's reply to the working specifier: a rewrite replaces
/// it, a veto drops it, anything else leaves it as it is.
pub fn next_specifier(current: String, reply: HookReply) -> (r: Option<String>)
    ensures
        r matches Some(t) ==> thread_spec(Some(current@), reply) == Some(t@),
        r is None ==> thread_spec(Some(current@), reply) is None,
{
    match reply {
        HookReply::Rewrite(t) => Some(t),
        HookReply::Veto => None,
        HookReply::Pass => Some(current),
    }
}

/// Every registered plugin must carry a name; the first that lacks one is a
/// configuration error, raised before any traversal.
pub fn check_plugin_names(names: &Vec<Option<String>>) -> (r: Result<(), BuildError>)
    ensures
        r is Ok <==> forall|i: int| 0 <= i < names@.len() ==> names@[i] is Some,
        r matches Err(e) ==> e is UnnamedPlugin,
{
    let mut i: usize = 0;
    while i < names.len()
        invariant
            0 <= i <= names.len(),
            forall|j: int| 0 <= j < i ==> names@[j] is Some,
        decreases names.len() - i,
    {
        if names[i].is_none() {
            return Err(BuildError::UnnamedPlugin);
        }
        i = i + 1;
    }
    Ok(())
}

proof fn lemma_vetoed_stays(s: Seq<char>, replies: Seq<HookReply>, n: int)
    requires
        0 <= n <= replies.len(),
        chain_spec(s, replies.subrange(0, n)) is None,
    ensures
        chain_spec(s, replies) is None,
    decreases replies.len() - n,
{
    if n < replies.len() {
        let next = replies.subrange(0, n + 1);
        assert(next.drop_last() =~= replies.subrange(0, n));
        lemma_vetoed_stays(s, replies, n + 1);
    } else {
        assert(replies.subrange(0, n) =~= replies);
    }
}

proof fn lemma_unvetoed_after(s: Seq<char>, replies: Seq<HookReply>, n: int, t: Seq<char>)
    requires
        0 <= n <= replies.len(),
        chain_spec(s, replies.subrange(0, n)) == Some(t),
        forall|k: int| n <= k < replies.len() ==> replies[k] is Pass,
    ensures
        chain_spec(s, replies) == Some(t),
    decreases replies.len() - n,
{
    if n < replies.len() {
        let next = replies.subrange(0, n + 1);
        assert(next.drop_last() =~= replies.subrange(0, n));
        lemma_unvetoed_after(s, replies, n + 1, t);
    } else {
        assert(replies.subrange(0, n) =~= replies);
    }
}

proof fn lemma_no_veto_is_some(s: Seq<char>, replies: Seq<HookReply>)
    requires
        forall|k: int| 0 <= k < replies.len() ==> !(replies[k] is Veto),
    ensures
        chain_spec(s, replies) is Some,
    decreases replies.len(),
{
    if replies.len() > 0 {
        lemma_no_veto_is_some(s, replies.drop_last());
    }
}

/// A veto by any plugin drops the import: nothing is left to resolve.
pub proof fn lemma_veto_drops_import(s: Seq<char>, replies: Seq<HookReply>, j: int)
    requires
        0 <= j < replies.len(),
        replies[j] is Veto,
    ensures
        chain_spec(s, replies) is None,
{
    let pre = replies.subrange(0, j + 1);
    assert(pre.drop_last() =~= replies.subrange(0, j));
    assert(pre.last() == replies[j]);
    lemma_vetoed_stays(s, replies, j + 1);
}

/// When no plugin vetoes, the specifier that is resolved is the last rewrite:
/// after a plugin returns `t`, and later plugins only pass, `t` is resolved,
/// not the specifier that was written in the source.
pub proof fn lemma_rewrite_is_resolved(s: Seq<char>, replies: Seq<HookReply>, j: int, t: String)
    requires
        0 <= j < replies.len(),
        replies[j] == HookReply::Rewrite(t),
        forall|k: int| 0 <= k < replies.len() ==> !(replies[k] is Veto),
        forall|k: int| j < k < replies.len() ==> replies[k] is Pass,
    ensures
        chain_spec(s, replies) == Some(t@),
{
    let pre = replies.subrange(0, j + 1);
    assert(pre.drop_last() =~= replies.subrange(0, j));
    assert(pre.last() == replies[j]);
    lemma_no_veto_is_some(s, replies.subrange(0, j));
    lemma_unvetoed_after(s, replies, j + 1, t@);
}

} // verus!
