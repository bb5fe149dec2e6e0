//! Work that runs off the frame: what a frame publishes of the jobs that have
//! finished.

use vstd::prelude::*;

verus! {

/// The jobs that are published among the first `count`: those that have
/// finished, in order, until `budget` of them are taken.
pub open spec fn published<T>(jobs: Seq<T>, done: Seq<bool>, budget: nat, count: nat) -> Seq<T>
    decreases count,
{
    if count == 0 {
        Seq::empty()
    } else {
        let sofar = published(jobs, done, budget, (count - 1) as nat);
        if done[count - 1] && sofar.len() < budget {
            sofar.push(jobs[count - 1])
        } else {
            sofar
        }
    }
}

/// The jobs that are left among the first `count`, in order.
pub open spec fn left_over<T>(jobs: Seq<T>, done: Seq<bool>, budget: nat, count: nat) -> Seq<T>
    decreases count,
{
    if count == 0 {
        Seq::empty()
    } else {
        let sofar = left_over(jobs, done, budget, (count - 1) as nat);
        if done[count - 1] && published(jobs, done, budget, (count - 1) as nat).len() < budget {
            sofar
        } else {
            sofar.push(jobs[count - 1])
        }
    }
}

/// Takes the finished jobs out of the list, at most `budget` of them; the
/// others keep their order. `done` tells of each job whether it has finished.
pub fn take_completed<T>(jobs: &mut Vec<T>, done: &Vec<bool>, budget: usize) -> (r: Vec<T>)
    requires
        done@.len() == old(jobs)@.len(),
    ensures
        r@ == published(old(jobs)@, done@, budget as nat, done@.len()),
        final(jobs)@ == left_over(old(jobs)@, done@, budget as nat, done@.len()),
{
    let ghost all = jobs@;
    let count: usize = done.len();
    let mut out: Vec<T> = Vec::new();
    let mut kept: usize = 0;
    let mut seen: usize = 0;
    assert(all.skip(0) =~= all);
    while seen < count
        invariant
            count == all.len(),
            count == done@.len(),
            kept <= seen <= count,
            out@ == published(all, done@, budget as nat, seen as nat),
            jobs@.take(kept as int) == left_over(all, done@, budget as nat, seen as nat),
            jobs@.skip(kept as int) == all.skip(seen as int),
            jobs@.len() == kept + count - seen,
        decreases count - seen,
    {
        let ghost now = jobs@;
        assert(now[kept as int] == now.skip(kept as int)[0]);
        assert(now[kept as int] == all[seen as int]);
        assert(now.skip(kept as int).skip(1) =~= all.skip(seen as int + 1));
        if done[seen] && out.len() < budget {
            out.push(jobs.remove(kept));
            assert(jobs@.take(kept as int) =~= now.take(kept as int));
            assert(jobs@.skip(kept as int) =~= now.skip(kept as int).skip(1));
        } else {
            assert(now.take(kept as int + 1) =~= now.take(kept as int).push(all[seen as int]));
            assert(now.skip(kept as int + 1) =~= now.skip(kept as int).skip(1));
            kept = kept + 1;
        }
        seen = seen + 1;
    }
    assert(jobs@.take(kept as int) =~= jobs@);
    out
}

/// A frame publishes no more than its budget, and every job is either
/// published or left.
pub proof fn publishing_is_bounded<T>(jobs: Seq<T>, done: Seq<bool>, budget: nat, count: nat)
    requires
        count <= jobs.len(),
        jobs.len() == done.len(),
    ensures
        published(jobs, done, budget, count).len() <= budget,
        published(jobs, done, budget, count).len() + left_over(jobs, done, budget, count).len()
            == count,
    decreases count,
{
    if count > 0 {
        publishing_is_bounded(jobs, done, budget, (count - 1) as nat);
    }
}

/// One of the first `count` jobs is `job`, and `finished` tells whether it has
/// finished.
pub open spec fn is_among<T>(
    jobs: Seq<T>,
    done: Seq<bool>,
    count: nat,
    job: T,
    finished: bool,
) -> bool {
    exists|i: int| 0 <= i < count && #[trigger] done[i] == finished && jobs[i] == job
}

/// Only finished jobs are published, and while the budget is not used up no
/// finished job is left.
pub proof fn finished_jobs_are_published<T>(
    jobs: Seq<T>,
    done: Seq<bool>,
    budget: nat,
    count: nat,
)
    requires
        count <= jobs.len(),
        jobs.len() == done.len(),
    ensures
        forall|k: int|
            0 <= k < published(jobs, done, budget, count).len() ==> is_among(
                jobs,
                done,
                count,
                #[trigger] published(jobs, done, budget, count)[k],
                true,
            ),
        published(jobs, done, budget, count).len() < budget ==> forall|k: int|
            0 <= k < left_over(jobs, done, budget, count).len() ==> is_among(
                jobs,
                done,
                count,
                #[trigger] left_over(jobs, done, budget, count)[k],
                false,
            ),
    decreases count,
{
    if count > 0 {
        let before = (count - 1) as nat;
        finished_jobs_are_published(jobs, done, budget, before);
        let now = published(jobs, done, budget, count);
        let sofar = published(jobs, done, budget, before);
        assert forall|k: int| 0 <= k < now.len() implies is_among(
            jobs,
            done,
            count,
            #[trigger] now[k],
            true,
        ) by {
            if k < sofar.len() {
                assert(is_among(jobs, done, before, sofar[k], true));
            } else {
                assert(done[count - 1]);
            }
        }
        let rest = left_over(jobs, done, budget, count);
        let earlier = left_over(jobs, done, budget, before);
        if now.len() < budget {
            assert forall|k: int| 0 <= k < rest.len() implies is_among(
                jobs,
                done,
                count,
                #[trigger] rest[k],
                false,
            ) by {
                if k < earlier.len() {
                    assert(is_among(jobs, done, before, earlier[k], false));
                } else {
                    assert(!done[count - 1]);
                }
            }
        }
    }
}

/// The jobs that are left are jobs of the list in their order: for two of
/// them, the earlier one was earlier before.
pub proof fn left_over_keeps_order<T>(jobs: Seq<T>, done: Seq<bool>, budget: nat, count: nat) -> (
    place: Seq<int>)
    requires
        count <= jobs.len(),
        jobs.len() == done.len(),
    ensures
        place.len() == left_over(jobs, done, budget, count).len(),
        forall|k: int|
            0 <= k < place.len() ==> 0 <= #[trigger] place[k] < count && jobs[place[k]]
                == left_over(jobs, done, budget, count)[k],
        forall|k: int, l: int|
            0 <= k < l < place.len() ==> #[trigger] place[k] < #[trigger] place[l],
    decreases count,
{
    if count == 0 {
        Seq::empty()
    } else {
        let before = left_over_keeps_order(jobs, done, budget, (count - 1) as nat);
        if left_over(jobs, done, budget, count).len() == before.len() {
            before
        } else {
            before.push(count - 1)
        }
    }
}

} // verus!
