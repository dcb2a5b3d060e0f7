use vstd::prelude::*;

use crate::branch::Branch;
use crate::text::same_text;

verus! {

/// Why deleting one branch failed.
#[derive(PartialEq, Eq, Structural, Clone, Copy, Debug)]
pub enum DeletionError {
    /// The local branch could not be deleted.
    LocalDeleteFailed,
    /// The local branch was deleted but its remote branch could not be.
    RemoteDeleteFailed,
}

/// A branch on a remote repository.
pub struct RemoteRef {
    /// Name of the remote, such as `origin`.
    pub remote: String,
    /// Name of the branch on that remote.
    pub branch: String,
}

/// What deleting one branch involves.
pub struct DeletionPlan {
    /// The local branch, always deleted, merged or not.
    pub local: String,
    /// The remote branch to delete as well, if any.
    pub remote: Option<RemoteRef>,
}

/// Position of the first `/` in `s`, if any.
pub open spec fn first_slash(s: Seq<char>) -> Option<int> {
    if exists|i: int| 0 <= i < s.len() && s[i] == '/' {
        Some(choose|i: int| 0 <= i < s.len() && s[i] == '/' && forall|j: int| 0 <= j < i ==> s[j] != '/')
    } else {
        None
    }
}

/// The remote branch of `b` is deleted only when `b` tracks one and its
/// author is the operator.
pub open spec fn remote_deletion_allowed(b: Branch, operator_email: Seq<char>) -> bool {
    b.remote@.len() > 0 && b.email@ == operator_email
}

/// `r` is the remote branch that `upstream` names: the text before its first
/// `/` is the remote, the text after it the branch.
pub open spec fn names_remote(r: RemoteRef, upstream: Seq<char>) -> bool {
    first_slash(upstream) matches Some(i) && r.remote@ == upstream.subrange(0, i) && r.branch@
        == upstream.subrange(i + 1, upstream.len() as int)
}

/// Decides what deleting `branch` involves for the operator whose email is
/// `operator_email`: the local branch always, and the remote branch that it
/// tracks when the operator authored it. An upstream without a `/` names no
/// remote branch.
pub fn plan_deletion(branch: &Branch, operator_email: &str) -> (r: DeletionPlan)
    ensures
        r.local@ == branch.name@,
        r.remote is Some <==> remote_deletion_allowed(*branch, operator_email@)
            && first_slash(branch.remote@) is Some,
        r.remote matches Some(rr) ==> names_remote(rr, branch.remote@),
        branch.remote@.len() == 0 ==> r.remote is None,
        branch.email@ != operator_email@ ==> r.remote is None,
{
    let local = branch.name.clone();
    let upstream = branch.remote.as_str();
    let n = upstream.unicode_len();
    let email_matches = same_text(branch.email.as_str(), operator_email);
    if n == 0 || !email_matches {
        return DeletionPlan { local, remote: None };
    }
    let mut i: usize = 0;
    while i < n
        invariant
            n == upstream@.len(),
            upstream@ == branch.remote@,
            local@ == branch.name@,
            n > 0,
            email_matches,
            email_matches == (branch.email@ == operator_email@),
            i <= n,
            forall|j: int| 0 <= j < i ==> upstream@[j] != '/',
        decreases n - i,
    {
        if upstream.get_char(i) == '/' {
            let ghost s = upstream@;
            assert(first_slash(s) == Some(i as int)) by {
                assert(exists|k: int| 0 <= k < s.len() && s[k] == '/');
                let c = choose|k: int| 0 <= k < s.len() && s[k] == '/' && forall|j: int| 0 <= j < k ==> s[j] != '/';
                assert(s[i as int] == '/');
                if c < i {
                    assert(s[c] != '/');
                } else if c > i {
                    assert(s[i as int] != '/');
                }
            }
            let rr = RemoteRef {
                remote: upstream.substring_char(0, i).to_owned(),
                branch: upstream.substring_char(i + 1, n).to_owned(),
            };
            return DeletionPlan { local, remote: Some(rr) };
        }
        i = i + 1;
    }
    assert(first_slash(upstream@) is None);
    DeletionPlan { local, remote: None }
}

impl DeletionPlan {
    /// The outcome of carrying out the plan, given whether the local deletion
    /// succeeded and, when a remote branch was to go too, whether that
    /// succeeded. A failed remote deletion leaves the local one standing.
    pub fn outcome(&self, local_ok: bool, remote_ok: bool) -> (r: Result<(), DeletionError>)
        ensures
            !local_ok ==> r == Err::<(), DeletionError>(DeletionError::LocalDeleteFailed),
            local_ok && self.remote is Some && !remote_ok ==> r == Err::<(), DeletionError>(
                DeletionError::RemoteDeleteFailed,
            ),
            local_ok && (self.remote is None || remote_ok) ==> r is Ok,
    {
        if !local_ok {
            Err(DeletionError::LocalDeleteFailed)
        } else if self.remote.is_some() && !remote_ok {
            Err(DeletionError::RemoteDeleteFailed)
        } else {
            Ok(())
        }
    }
}

} // verus!
