//! Git hooks: the names under which git invokes its hook scripts, and the
//! library's view of a subscription to one of them.

use vstd::prelude::*;

use crate::text::str_eq;

verus! {

/// The git hooks a pipeline can subscribe to.
#[derive(Clone, Copy, Debug, PartialEq, Eq, Structural)]
pub enum GitHook {
    ApplypatchMsg,
    PreApplypatch,
    PostApplypatch,
    PreCommit,
    PrepareCommitMsg,
    CommitMsg,
    PostCommit,
    PreRebase,
    PostCheckout,
    PostMerge,
    PreReceive,
    Update,
    PostReceive,
    PostUpdate,
    PreAutoGc,
    PostRewrite,
    PrePush,
}

/// The file name under which git knows a hook.
pub open spec fn hook_name(h: GitHook) -> Seq<char> {
    match h {
        GitHook::ApplypatchMsg => "applypatch-msg"@,
        GitHook::PreApplypatch => "pre-applypatch"@,
        GitHook::PostApplypatch => "post-applypatch"@,
        GitHook::PreCommit => "pre-commit"@,
        GitHook::PrepareCommitMsg => "prepare-commit-msg"@,
        GitHook::CommitMsg => "commit-msg"@,
        GitHook::PostCommit => "post-commit"@,
        GitHook::PreRebase => "pre-rebase"@,
        GitHook::PostCheckout => "post-checkout"@,
        GitHook::PostMerge => "post-merge"@,
        GitHook::PreReceive => "pre-receive"@,
        GitHook::Update => "update"@,
        GitHook::PostReceive => "post-receive"@,
        GitHook::PostUpdate => "post-update"@,
        GitHook::PreAutoGc => "pre-auto-gc"@,
        GitHook::PostRewrite => "post-rewrite"@,
        GitHook::PrePush => "pre-push"@,
    }
}

/// Is `s` the name of a git hook?
pub open spec fn is_hook_name(s: Seq<char>) -> bool {
    exists|h: GitHook| hook_name(h) == s
}

/// A subscription to one git hook.
#[derive(Clone, Copy, Debug, PartialEq, Eq, Structural)]
pub struct Hook {
    pub githook: GitHook,
}

impl Hook {
    /// The hook's name as git spells it.
    pub fn to_string(&self) -> (r: String)
        ensures
            r@ == hook_name(self.githook),
    {
        let name: &str = match self.githook {
            GitHook::ApplypatchMsg => "applypatch-msg",
            GitHook::PreApplypatch => "pre-applypatch",
            GitHook::PostApplypatch => "post-applypatch",
            GitHook::PreCommit => "pre-commit",
            GitHook::PrepareCommitMsg => "prepare-commit-msg",
            GitHook::CommitMsg => "commit-msg",
            GitHook::PostCommit => "post-commit",
            GitHook::PreRebase => "pre-rebase",
            GitHook::PostCheckout => "post-checkout",
            GitHook::PostMerge => "post-merge",
            GitHook::PreReceive => "pre-receive",
            GitHook::Update => "update",
            GitHook::PostReceive => "post-receive",
            GitHook::PostUpdate => "post-update",
            GitHook::PreAutoGc => "pre-auto-gc",
            GitHook::PostRewrite => "post-rewrite",
            GitHook::PrePush => "pre-push",
        };
        name.to_owned()
    }

    /// The hook known under `name`. Only hook names are accepted: the
    /// callers guard any other input away.
    pub fn from_str(name: &str) -> (r: Hook)
        requires
            is_hook_name(name@),
        ensures
            hook_name(r.githook) == name@,
    {
        match hook_of_name(name) {
            Some(h) => h,
            None => unreached(),
        }
    }

    /// The hook whose directory a process was started from: git invokes the
    /// scripts of `<hook>.d`, so the hook's name is the working directory's
    /// last path component with that suffix taken off. `None` exactly when
    /// the component names no hook.
    pub fn origin(path: &str) -> (r: Option<Hook>)
        ensures
            match r {
                Some(h) => hook_name(h.githook) == origin_name(path@),
                None => !is_hook_name(origin_name(path@)),
            },
    {
        let plen = path.unicode_len();
        let mut i: usize = plen;
        while i > 0 && path.get_char(i - 1) != '/'
            invariant
                i <= plen,
                plen == path@.len(),
                forall|k: int| i <= k < path@.len() ==> path@[k] != '/',
            decreases i,
        {
            i -= 1;
        }
        let component = path.substring_char(i, plen);
        proof {
            lemma_after_last_slash(path@, i as int);
            assert(component@ == path@.skip(i as int));
        }
        let clen = component.unicode_len();
        let name: &str = if clen >= 2 && component.get_char(clen - 2) == '.'
            && component.get_char(clen - 1) == 'd' {
            component.substring_char(0, clen - 2)
        } else {
            component
        };
        proof {
            assert(name@ == strip_dot_d(component@));
        }
        hook_of_name(name)
    }
}

/// The part of a path after its last `/` (the whole path when it has none).
pub open spec fn after_last_slash(s: Seq<char>) -> Seq<char>
    decreases s.len(),
{
    if s.len() == 0 {
        s
    } else if s.last() == '/' {
        Seq::empty()
    } else {
        after_last_slash(s.drop_last()).push(s.last())
    }
}

/// A directory name with a trailing `.d` taken off.
pub open spec fn strip_dot_d(s: Seq<char>) -> Seq<char> {
    if s.len() >= 2 && s[s.len() - 2] == '.' && s[s.len() - 1] == 'd' {
        s.take(s.len() - 2)
    } else {
        s
    }
}

/// The hook name a working directory's path encodes.
pub open spec fn origin_name(path: Seq<char>) -> Seq<char> {
    strip_dot_d(after_last_slash(path))
}

proof fn lemma_after_last_slash(s: Seq<char>, j: int)
    requires
        0 <= j <= s.len(),
        forall|k: int| j <= k < s.len() ==> s[k] != '/',
        j > 0 ==> s[j - 1] == '/',
    ensures
        after_last_slash(s) == s.skip(j),
    decreases s.len(),
{
    if s.len() == j {
        assert(s.skip(j) =~= Seq::<char>::empty());
        if j > 0 {
            assert(s.last() == '/');
        } else {
            assert(s =~= Seq::<char>::empty());
        }
    } else {
        assert(s.last() != '/');
        lemma_after_last_slash(s.drop_last(), j);
        assert(s.drop_last().skip(j).push(s.last()) =~= s.skip(j));
    }
}

/// The hook known under `name`, or `None` exactly when no hook is.
fn hook_of_name(name: &str) -> (r: Option<Hook>)
    ensures
        match r {
            Some(h) => hook_name(h.githook) == name@,
            None => !is_hook_name(name@),
        },
{
        if str_eq(name, "applypatch-msg") {
            Some(Hook { githook: GitHook::ApplypatchMsg })
        } else if str_eq(name, "pre-applypatch") {
            Some(Hook { githook: GitHook::PreApplypatch })
        } else if str_eq(name, "post-applypatch") {
            Some(Hook { githook: GitHook::PostApplypatch })
        } else if str_eq(name, "pre-commit") {
            Some(Hook { githook: GitHook::PreCommit })
        } else if str_eq(name, "prepare-commit-msg") {
            Some(Hook { githook: GitHook::PrepareCommitMsg })
        } else if str_eq(name, "commit-msg") {
            Some(Hook { githook: GitHook::CommitMsg })
        } else if str_eq(name, "post-commit") {
            Some(Hook { githook: GitHook::PostCommit })
        } else if str_eq(name, "pre-rebase") {
            Some(Hook { githook: GitHook::PreRebase })
        } else if str_eq(name, "post-checkout") {
            Some(Hook { githook: GitHook::PostCheckout })
        } else if str_eq(name, "post-merge") {
            Some(Hook { githook: GitHook::PostMerge })
        } else if str_eq(name, "pre-receive") {
            Some(Hook { githook: GitHook::PreReceive })
        } else if str_eq(name, "update") {
            Some(Hook { githook: GitHook::Update })
        } else if str_eq(name, "post-receive") {
            Some(Hook { githook: GitHook::PostReceive })
        } else if str_eq(name, "post-update") {
            Some(Hook { githook: GitHook::PostUpdate })
        } else if str_eq(name, "pre-auto-gc") {
            Some(Hook { githook: GitHook::PreAutoGc })
        } else if str_eq(name, "post-rewrite") {
            Some(Hook { githook: GitHook::PostRewrite })
        } else if str_eq(name, "pre-push") {
            Some(Hook { githook: GitHook::PrePush })
        } else {
            proof {
                assert(!is_hook_name(name@)) by {
                    assert forall|h: GitHook| hook_name(h) != name@ by {}
                }
            }
            None
        }
    }


/// The managed set of git hooks.
#[derive(Clone, Copy, Debug, PartialEq, Eq, Structural)]
pub struct Hooks {}

impl Hooks {
    /// Every git hook, in declaration order.
    pub fn iter() -> (r: Vec<GitHook>)
        ensures
            r@ == seq![
                GitHook::ApplypatchMsg,
                GitHook::PreApplypatch,
                GitHook::PostApplypatch,
                GitHook::PreCommit,
                GitHook::PrepareCommitMsg,
                GitHook::CommitMsg,
                GitHook::PostCommit,
                GitHook::PreRebase,
                GitHook::PostCheckout,
                GitHook::PostMerge,
                GitHook::PreReceive,
                GitHook::Update,
                GitHook::PostReceive,
                GitHook::PostUpdate,
                GitHook::PreAutoGc,
                GitHook::PostRewrite,
                GitHook::PrePush,
            ],
    {
        let mut v: Vec<GitHook> = Vec::new();
        v.push(GitHook::ApplypatchMsg);
        v.push(GitHook::PreApplypatch);
        v.push(GitHook::PostApplypatch);
        v.push(GitHook::PreCommit);
        v.push(GitHook::PrepareCommitMsg);
        v.push(GitHook::CommitMsg);
        v.push(GitHook::PostCommit);
        v.push(GitHook::PreRebase);
        v.push(GitHook::PostCheckout);
        v.push(GitHook::PostMerge);
        v.push(GitHook::PreReceive);
        v.push(GitHook::Update);
        v.push(GitHook::PostReceive);
        v.push(GitHook::PostUpdate);
        v.push(GitHook::PreAutoGc);
        v.push(GitHook::PostRewrite);
        v.push(GitHook::PrePush);
        proof {
            assert(v@ =~= seq![
                GitHook::ApplypatchMsg,
                GitHook::PreApplypatch,
                GitHook::PostApplypatch,
                GitHook::PreCommit,
                GitHook::PrepareCommitMsg,
                GitHook::CommitMsg,
                GitHook::PostCommit,
                GitHook::PreRebase,
                GitHook::PostCheckout,
                GitHook::PostMerge,
                GitHook::PreReceive,
                GitHook::Update,
                GitHook::PostReceive,
                GitHook::PostUpdate,
                GitHook::PreAutoGc,
                GitHook::PostRewrite,
                GitHook::PrePush,
            ]);
        }
        v
    }
}

} // verus!
