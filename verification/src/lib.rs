use vstd::prelude::*;

pub mod client;
pub mod files;
pub mod pool;
pub mod stress;

verus! {

/// A control envelope delivered to exactly one worker: either a new job to
/// run or the signal to stop. The job payload is kept abstract; the pool
/// never inspects it, it only moves it from the submitter to a worker.
#[derive(Debug)]
pub enum Message<J> {
    NewJob(J),
    Terminate,
}

/// The job payloads of a message queue, oldest first: the sequence of jobs a
/// pool still owes to its workers.
pub open spec fn jobs_of<J>(q: Seq<Message<J>>) -> Seq<J>
    decreases q.len(),
{
    if q.len() == 0 {
        Seq::empty()
    } else {
        match q.first() {
            Message::NewJob(j) => seq![j] + jobs_of(q.drop_first()),
            Message::Terminate => jobs_of(q.drop_first()),
        }
    }
}

/// How many termination signals a message queue holds.
pub open spec fn count_terminates<J>(q: Seq<Message<J>>) -> int
    decreases q.len(),
{
    if q.len() == 0 {
        0
    } else {
        (if q.first() is Terminate {
            1int
        } else {
            0int
        }) + count_terminates(q.drop_first())
    }
}

pub proof fn lemma_jobs_of_push<J>(q: Seq<Message<J>>, m: Message<J>)
    ensures
        jobs_of(q.push(m)) == (match m {
            Message::NewJob(j) => jobs_of(q).push(j),
            Message::Terminate => jobs_of(q),
        }),
    decreases q.len(),
{
    let qm = q.push(m);
    if q.len() == 0 {
        assert(qm.first() == m);
        assert(qm.drop_first() =~= Seq::<Message<J>>::empty());
        assert(jobs_of(Seq::<Message<J>>::empty()) == Seq::<J>::empty());
        assert(jobs_of(q) == Seq::<J>::empty());
        match m {
            Message::NewJob(j) => {
                assert(jobs_of(qm) == seq![j] + jobs_of(qm.drop_first()));
                assert(seq![j] + Seq::<J>::empty() =~= Seq::<J>::empty().push(j));
            },
            Message::Terminate => {
                assert(jobs_of(qm) == jobs_of(qm.drop_first()));
            },
        }
    } else {
        lemma_jobs_of_push(q.drop_first(), m);
        assert(qm.first() == q.first());
        assert(qm.drop_first() =~= q.drop_first().push(m));
        match q.first() {
            Message::NewJob(h) => {
                assert(jobs_of(qm) == seq![h] + jobs_of(q.drop_first().push(m)));
                assert(jobs_of(q) == seq![h] + jobs_of(q.drop_first()));
                match m {
                    Message::NewJob(j) => {
                        assert(seq![h] + jobs_of(q.drop_first()).push(j) =~= (seq![h]
                            + jobs_of(q.drop_first())).push(j));
                    },
                    Message::Terminate => {},
                }
            },
            Message::Terminate => {
                assert(jobs_of(qm) == jobs_of(q.drop_first().push(m)));
                assert(jobs_of(q) == jobs_of(q.drop_first()));
            },
        }
    }
}

pub proof fn lemma_count_terminates_push<J>(q: Seq<Message<J>>, m: Message<J>)
    ensures
        count_terminates(q.push(m)) == count_terminates(q) + (if m is Terminate {
            1int
        } else {
            0int
        }),
    decreases q.len(),
{
    let qm = q.push(m);
    if q.len() == 0 {
        assert(qm.first() == m);
        assert(qm.drop_first() =~= Seq::<Message<J>>::empty());
        assert(count_terminates(Seq::<Message<J>>::empty()) == 0);
        assert(count_terminates(q) == 0);
    } else {
        lemma_count_terminates_push(q.drop_first(), m);
        assert(qm.first() == q.first());
        assert(qm.drop_first() =~= q.drop_first().push(m));
    }
}

/// Taking the oldest message off the queue accounts for exactly that
/// message, in both the job view and the termination count.
pub proof fn lemma_take_first<J>(q: Seq<Message<J>>)
    requires
        q.len() > 0,
    ensures
        count_terminates(q.drop_first()) == count_terminates(q) - (if q.first() is Terminate {
            1int
        } else {
            0int
        }),
        jobs_of(q) == (match q.first() {
            Message::NewJob(j) => seq![j] + jobs_of(q.drop_first()),
            Message::Terminate => jobs_of(q.drop_first()),
        }),
{
}

pub proof fn lemma_count_terminates_nonneg<J>(q: Seq<Message<J>>)
    ensures
        0 <= count_terminates(q) <= q.len(),
    decreases q.len(),
{
    if q.len() > 0 {
        lemma_count_terminates_nonneg(q.drop_first());
    }
}

/// A queue with no termination signal in it delivers a job wherever a worker
/// looks: every message it holds is a `NewJob`.
pub proof fn lemma_no_terminate_means_all_jobs<J>(q: Seq<Message<J>>)
    requires
        count_terminates(q) == 0,
    ensures
        forall|i: int| 0 <= i < q.len() ==> #[trigger] q[i] is NewJob,
    decreases q.len(),
{
    if q.len() > 0 {
        lemma_count_terminates_nonneg(q.drop_first());
        lemma_no_terminate_means_all_jobs(q.drop_first());
        assert forall|i: int| 0 <= i < q.len() implies #[trigger] q[i] is NewJob by {
            if i > 0 {
                assert(q[i] == q.drop_first()[i - 1]);
            }
        }
    }
}

} // verus!
