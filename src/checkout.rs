//! Naming and bookkeeping of the transient branches that give each job its
//! two revisions, and the cleanup that removes them.
use vstd::prelude::*;
use crate::report::views;
use crate::text::{contains_spec, contains_text, decimal, decimal_spec};

verus! {

/// The local branch a pull request's head is fetched into.
pub open spec fn pull_branch_spec(base_sha: Seq<char>, head_sha: Seq<char>) -> Seq<char> {
    "mdb-"@ + base_sha + "-"@ + head_sha
}

/// The local branch a pull request's head is fetched into.
pub fn pull_branch_name(base_sha: &str, head_sha: &str) -> (r: String)
    ensures
        r@ == pull_branch_spec(base_sha@, head_sha@),
{
    let mut s = String::from_str("mdb-");
    s.append(base_sha);
    s.append("-");
    s.append(head_sha);
    s
}

/// The refspec that fetches the head of pull request `number` into `branch`.
pub open spec fn head_refspec_spec(number: u64, branch: Seq<char>) -> Seq<char> {
    "pull/"@ + decimal_spec(number as nat) + "/head:"@ + branch
}

/// The refspec that fetches the head of pull request `number` into `branch`.
pub fn head_refspec(number: u64, branch: &str) -> (r: String)
    ensures
        r@ == head_refspec_spec(number, branch@),
{
    let mut s = String::from_str("pull/");
    s.append(decimal(number).as_str());
    s.append("/head:");
    s.append(branch);
    s
}

/// The transient branch that holds a job's head revision.
pub open spec fn head_branch_spec(base_sha: Seq<char>, head_sha: Seq<char>) -> Seq<char> {
    "mdb-pull-"@ + base_sha + "-"@ + head_sha
}

/// The transient branch that holds a job's head revision.
pub fn head_branch_name(base_sha: &str, head_sha: &str) -> (r: String)
    ensures
        r@ == head_branch_spec(base_sha@, head_sha@),
{
    let mut s = String::from_str("mdb-pull-");
    s.append(base_sha);
    s.append("-");
    s.append(head_sha);
    s
}

/// The marker that names a transient job branch.
pub open spec fn job_marker() -> Seq<char> {
    seq!['p', 'u', 'l', 'l', '-']
}

/// Whether a reference name belongs to a transient job branch.
pub open spec fn is_job_branch(name: Seq<char>) -> bool {
    contains_spec(name, job_marker())
}

/// Tests whether a reference name belongs to a transient job branch.
pub fn is_job_reference(name: &str) -> (r: bool)
    ensures
        r == is_job_branch(name@),
{
    let marker = "pull-";
    proof {
        reveal_strlit("pull-");
        assert(marker@ =~= job_marker());
    }
    contains_text(name, marker)
}

/// The head branch of every job is a job branch, so cleanup removes it.
pub proof fn lemma_head_branch_is_job_branch(base_sha: Seq<char>, head_sha: Seq<char>)
    ensures
        is_job_branch(head_branch_spec(base_sha, head_sha)),
{
    reveal_strlit("mdb-pull-");
    let name = head_branch_spec(base_sha, head_sha);
    assert(name.subrange(4, 9) =~= job_marker());
    assert(crate::text::occurs_at(name, 4, job_marker()));
}

/// Two jobs whose base shas hold no `-` and whose sha pairs differ get head
/// branches of different names, so they never share a checkout.
pub proof fn lemma_head_branches_distinct(
    base1: Seq<char>,
    head1: Seq<char>,
    base2: Seq<char>,
    head2: Seq<char>,
)
    requires
        !base1.contains('-'),
        !base2.contains('-'),
        base1 != base2 || head1 != head2,
    ensures
        head_branch_spec(base1, head1) != head_branch_spec(base2, head2),
{
    reveal_strlit("mdb-pull-");
    reveal_strlit("-");
    let n1 = head_branch_spec(base1, head1);
    let n2 = head_branch_spec(base2, head2);
    if n1 == n2 {
        let p: int = 9;
        if base1.len() < base2.len() {
            assert(n1[p + base1.len()] == '-');
            assert(n2[p + base1.len()] == base2[base1.len() as int]);
        } else if base2.len() < base1.len() {
            assert(n2[p + base2.len()] == '-');
            assert(n1[p + base2.len()] == base1[base2.len() as int]);
        } else {
            assert(base1 =~= n1.subrange(p, p + base1.len()));
            assert(base2 =~= n2.subrange(p, p + base2.len()));
            assert(head1 =~= n1.subrange(p + base1.len() + 1, n1.len() as int));
            assert(head2 =~= n2.subrange(p + base2.len() + 1, n2.len() as int));
        }
    }
}

/// The reference names, in order, that cleanup deletes.
pub open spec fn job_references(names: Seq<Seq<char>>) -> Seq<Seq<char>> {
    names.filter(|n: Seq<char>| is_job_branch(n))
}

/// The reference names, in order, that cleanup deletes: those of the
/// transient job branches.
pub fn references_to_delete(names: &Vec<String>) -> (r: Vec<String>)
    ensures
        views(r@) == job_references(views(names@)),
{
    let ghost pred = |n: Seq<char>| is_job_branch(n);
    let mut out: Vec<String> = Vec::new();
    let mut i: usize = 0;
    while i < names.len()
        invariant
            i <= names.len(),
            pred == (|n: Seq<char>| is_job_branch(n)),
            views(out@) == views(names@).take(i as int).filter(pred),
        decreases names.len() - i,
    {
        let is_job = is_job_reference(names[i].as_str());
        proof {
            assert(views(names@).take(i + 1) =~= views(names@).take(i as int).push(names@[i as int]@));
            views(names@).take(i as int).lemma_filter_push(names@[i as int]@, pred);
        }
        if is_job {
            let ghost before = out@;
            out.push(names[i].clone());
            assert(views(out@) =~= views(before).push(names@[i as int]@));
        }
        i = i + 1;
    }
    assert(views(names@).take(names@.len() as int) =~= views(names@));
    out
}

/// What cleanup does to a clone: point HEAD at the default branch, reset the
/// working tree, and delete the listed references.
pub struct CleanupPlan {
    pub checkout: String,
    pub delete: Vec<String>,
}

/// The cleanup of a clone with references `refs`: the branch HEAD is set to,
/// and the references deleted.
pub open spec fn cleanup_plan(refs: Seq<Seq<char>>, default_branch: Seq<char>) -> (Seq<char>, Seq<Seq<char>>) {
    (default_branch, job_references(refs))
}

/// The references left when those in `delete` are deleted from `refs`.
pub open spec fn remaining_after(refs: Seq<Seq<char>>, delete: Seq<Seq<char>>) -> Seq<Seq<char>> {
    refs.filter(|n: Seq<char>| !delete.contains(n))
}

/// Plans the cleanup of a clone after a job, whatever became of the job:
/// HEAD goes back to `default_branch` and every job branch is deleted.
pub fn clean_up_references(references: &Vec<String>, default_branch: &str) -> (r: CleanupPlan)
    ensures
        (r.checkout@, views(r.delete@)) == cleanup_plan(views(references@), default_branch@),
{
    CleanupPlan {
        checkout: String::from_str(default_branch),
        delete: references_to_delete(references),
    }
}

/// After cleanup HEAD is the default branch, no job branch remains among the
/// references, and every other reference is kept.
pub proof fn lemma_cleanup_leaves_no_job_branch(refs: Seq<Seq<char>>, default_branch: Seq<char>)
    ensures
        cleanup_plan(refs, default_branch).0 == default_branch,
        cleanup_plan(refs, default_branch).1 == job_references(refs),
        forall|n: Seq<char>|
            #[trigger] remaining_after(refs, job_references(refs)).contains(n) ==> !is_job_branch(n),
        forall|n: Seq<char>|
            refs.contains(n) && !is_job_branch(n) ==> #[trigger] remaining_after(
                refs,
                job_references(refs),
            ).contains(n),
{
    broadcast use vstd::seq_lib::group_filter_ensures;

    let del = job_references(refs);
    let p_job = |n: Seq<char>| is_job_branch(n);
    let p_keep = |n: Seq<char>| !del.contains(n);
    assert forall|n: Seq<char>| #[trigger] remaining_after(refs, del).contains(n) implies !is_job_branch(
        n,
    ) by {
        let i = choose|i: int| 0 <= i < refs.filter(p_keep).len() && refs.filter(p_keep)[i] == n;
        refs.lemma_filter_pred(p_keep, i);
        refs.lemma_filter_contains_rev(p_keep, n);
        if is_job_branch(n) {
            let j = choose|j: int| 0 <= j < refs.len() && refs[j] == n;
            refs.lemma_filter_contains(p_job, j);
        }
    }
    assert forall|n: Seq<char>| refs.contains(n) && !is_job_branch(n) implies #[trigger] remaining_after(
        refs,
        del,
    ).contains(n) by {
        if del.contains(n) {
            let i = choose|i: int| 0 <= i < del.len() && del[i] == n;
            refs.lemma_filter_pred(p_job, i);
        }
        let j = choose|j: int| 0 <= j < refs.len() && refs[j] == n;
        refs.lemma_filter_contains(p_keep, j);
    }
}

/// The commit a revision branch is set to: the requested commit when it
/// could be resolved, else the tip that was fetched.
pub fn target_commit(resolved: Option<String>, fetched_tip: &str) -> (r: String)
    ensures
        r@ == (match resolved {
            Some(c) => c@,
            None => fetched_tip@,
        }),
{
    match resolved {
        Some(c) => c,
        None => String::from_str(fetched_tip),
    }
}

} // verus!
