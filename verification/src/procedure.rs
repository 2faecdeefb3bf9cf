//! Sequences of system calls that stop at the first failure and give back
//! what they hold.

use vstd::prelude::*;

use crate::failure::Failure;
use crate::win32::Reply;

verus! {

/// A fixed sequence of calls. Each call is decided by the replies to the calls
/// before it, and each reply lets the sequence go on or fails it.
pub trait Procedure: Sized {
    /// A call to make.
    type Action;

    /// What the sequence is made for.
    type Product;

    spec fn steps(&self) -> nat;

    /// What the reply to a step fails the sequence with, if it does.
    spec fn verdict(&self, step: nat, reply: Reply) -> Option<Failure>;

    /// The call that follows these replies, one for each step passed.
    spec fn call(&self, replies: Seq<Reply>) -> Self::Action;

    /// The calls that give back what the steps passed have taken, in order.
    spec fn releases(&self, replies: Seq<Reply>) -> Seq<Self::Action>;

    spec fn product(&self, replies: Seq<Reply>) -> Self::Product;

    fn step_count(&self) -> (count: usize)
        ensures
            count == self.steps(),
    ;

    fn judge(&self, step: usize, reply: Reply) -> (failure: Option<Failure>)
        requires
            step < self.steps(),
        ensures
            failure == self.verdict(step as nat, reply),
    ;

    fn next_call(&self, replies: &Vec<Reply>) -> (call: Self::Action)
        requires
            replies@.len() < self.steps(),
        ensures
            call == self.call(replies@),
    ;

    fn release_at(&self, replies: &Vec<Reply>, index: usize) -> (call: Option<Self::Action>)
        requires
            replies@.len() <= self.steps(),
        ensures
            self.releases(replies@).len() <= usize::MAX,
            call == (if index < self.releases(replies@).len() {
                Some(self.releases(replies@)[index as int])
            } else {
                None
            }),
    ;

    fn take_product(&self, replies: &Vec<Reply>) -> (product: Self::Product)
        requires
            replies@.len() == self.steps(),
        ensures
            product == self.product(replies@),
    ;
}

/// One call where it is needed, and none where it is not.
pub open spec fn needed<A>(condition: bool, call: A) -> Seq<A> {
    if condition {
        seq![call]
    } else {
        Seq::empty()
    }
}

/// How far a sequence has come: the replies to the steps passed, the failure
/// that stopped it, and how many releases have been made.
pub struct Progress {
    pub replies: Seq<Reply>,
    pub failure: Option<Failure>,
    pub released: nat,
}

/// No step is left to take.
pub open spec fn settled<P: Procedure>(procedure: P, progress: Progress) -> bool {
    progress.failure is Some || progress.replies.len() >= procedure.steps()
}

/// The call to make next, if any is left.
pub open spec fn pending<P: Procedure>(procedure: P, progress: Progress) -> Option<P::Action> {
    if !settled(procedure, progress) {
        Some(procedure.call(progress.replies))
    } else if progress.released < procedure.releases(progress.replies).len() {
        Some(procedure.releases(progress.replies)[progress.released as int])
    } else {
        None
    }
}

/// Where the reply to the pending call leads.
pub open spec fn advanced<P: Procedure>(
    procedure: P,
    progress: Progress,
    reply: Reply,
) -> Progress {
    if !settled(procedure, progress) {
        match procedure.verdict(progress.replies.len(), reply) {
            Some(failure) => Progress { failure: Some(failure), ..progress },
            None => Progress { replies: progress.replies.push(reply), ..progress },
        }
    } else if pending(procedure, progress) is Some {
        Progress { released: progress.released + 1, ..progress }
    } else {
        progress
    }
}

/// What a sequence has come to, once no call is left.
pub open spec fn come_to<P: Procedure>(procedure: P, progress: Progress) -> Option<
    Result<P::Product, Failure>,
> {
    if pending(procedure, progress) is Some {
        None
    } else {
        Some(
            match progress.failure {
                Some(failure) => Err(failure),
                None => Ok(procedure.product(progress.replies)),
            },
        )
    }
}

/// A sequence under way.
pub struct Run<P> {
    pub procedure: P,
    pub replies: Vec<Reply>,
    pub failure: Option<Failure>,
    pub released: usize,
}

impl<P> View for Run<P> {
    type V = Progress;

    open spec fn view(&self) -> Progress {
        Progress {
            replies: self.replies@,
            failure: self.failure,
            released: self.released as nat,
        }
    }
}

pub open spec fn unstarted() -> Progress {
    Progress { replies: Seq::empty(), failure: None, released: 0 }
}

impl<P: Procedure> Run<P> {
    pub open spec fn well_formed(self) -> bool {
        self.replies@.len() <= self.procedure.steps()
    }

    pub fn new(procedure: P) -> (run: Run<P>)
        ensures
            run.well_formed(),
            run.procedure == procedure,
            run@ == unstarted(),
    {
        let run = Run { procedure, replies: Vec::new(), failure: None, released: 0 };
        proof {
            assert(run@.replies =~= unstarted().replies);
        }
        run
    }

    fn is_settled(&self) -> (is: bool)
        requires
            self.well_formed(),
        ensures
            is == settled(self.procedure, self@),
    {
        self.failure.is_some() || self.replies.len() >= self.procedure.step_count()
    }

    /// The call to make next, if any is left.
    pub fn action(&self) -> (action: Option<P::Action>)
        requires
            self.well_formed(),
        ensures
            action == pending(self.procedure, self@),
    {
        if self.is_settled() {
            self.procedure.release_at(&self.replies, self.released)
        } else {
            Some(self.procedure.next_call(&self.replies))
        }
    }

    /// Takes the reply to the call that is pending.
    pub fn advance(&mut self, reply: Reply)
        requires
            old(self).well_formed(),
        ensures
            final(self).well_formed(),
            final(self).procedure == old(self).procedure,
            final(self)@ == advanced(old(self).procedure, old(self)@, reply),
    {
        if self.is_settled() {
            if self.procedure.release_at(&self.replies, self.released).is_some() {
                self.released = self.released + 1;
            }
        } else {
            match self.procedure.judge(self.replies.len(), reply) {
                Some(failure) => {
                    self.failure = Some(failure);
                },
                None => {
                    self.replies.push(reply);
                },
            }
        }
    }

    /// What the sequence has come to, once no call is left.
    pub fn outcome(&self) -> (outcome: Option<Result<P::Product, Failure>>)
        requires
            self.well_formed(),
        ensures
            outcome == come_to(self.procedure, self@),
    {
        if self.action().is_some() {
            return None;
        }
        match self.failure {
            Some(failure) => Some(Err(failure)),
            None => Some(Ok(self.procedure.take_product(&self.replies))),
        }
    }
}

/// The progress of a sequence whose calls got these replies, one after the
/// other.
pub open spec fn ran<P: Procedure>(procedure: P, replies: Seq<Reply>) -> Progress
    decreases replies.len(),
{
    if replies.len() == 0 {
        unstarted()
    } else {
        advanced(procedure, ran(procedure, replies.drop_last()), replies.last())
    }
}

/// The first step from `step` on that is not passed.
pub open spec fn stops_at<P: Procedure>(procedure: P, replies: Seq<Reply>, step: nat) -> nat
    decreases procedure.steps() - step,
{
    if step >= procedure.steps() || step >= replies.len() || procedure.verdict(
        step,
        replies[step as int],
    ) is Some {
        step
    } else {
        stops_at(procedure, replies, step + 1)
    }
}

/// How many steps are passed.
pub open spec fn passed<P: Procedure>(procedure: P, replies: Seq<Reply>) -> nat {
    stops_at(procedure, replies, 0)
}

/// How many calls are made before the releases begin.
pub open spec fn calls_made<P: Procedure>(procedure: P, replies: Seq<Reply>) -> nat {
    if passed(procedure, replies) < procedure.steps() {
        passed(procedure, replies) + 1
    } else {
        procedure.steps()
    }
}

/// What stops the sequence, if a reply does.
pub open spec fn stopped_by<P: Procedure>(procedure: P, replies: Seq<Reply>) -> Option<Failure> {
    let step = passed(procedure, replies);
    if step < procedure.steps() && step < replies.len() {
        procedure.verdict(step, replies[step as int])
    } else {
        None
    }
}

/// The calls that give back what was taken.
pub open spec fn owed<P: Procedure>(procedure: P, replies: Seq<Reply>) -> Seq<P::Action> {
    procedure.releases(replies.take(passed(procedure, replies) as int))
}

proof fn stops_at_facts<P: Procedure>(procedure: P, replies: Seq<Reply>, step: nat)
    requires
        step <= procedure.steps(),
        step <= replies.len(),
    ensures
        step <= stops_at(procedure, replies, step) <= procedure.steps(),
        stops_at(procedure, replies, step) <= replies.len(),
        forall|i: nat|
            step <= i < stops_at(procedure, replies, step) ==> (#[trigger] procedure.verdict(
                i,
                replies[i as int],
            )) is None,
        ({
            let at = stops_at(procedure, replies, step);
            at < procedure.steps() && at < replies.len() ==> procedure.verdict(
                at,
                replies[at as int],
            ) is Some
        }),
    decreases procedure.steps() - step,
{
    if step < procedure.steps() && step < replies.len() && procedure.verdict(
        step,
        replies[step as int],
    ) is None {
        stops_at_facts(procedure, replies, step + 1);
    }
}

/// What passes does not change when more replies follow.
proof fn passed_of_prefix<P: Procedure>(procedure: P, replies: Seq<Reply>, step: nat)
    requires
        replies.len() > 0,
        step <= procedure.steps(),
        step < replies.len(),
    ensures
        ({
            let front = stops_at(procedure, replies.drop_last(), step);
            let all = stops_at(procedure, replies, step);
            &&& front < replies.len() - 1 ==> all == front
            &&& front == replies.len() - 1 && front < procedure.steps() ==> all == (if procedure.verdict(
                front,
                replies.last(),
            ) is Some {
                front
            } else {
                front + 1
            })
            &&& front >= procedure.steps() ==> all == front
        }),
    decreases procedure.steps() - step,
{
    if step < procedure.steps() && step < replies.len() - 1 {
        assert(replies.drop_last()[step as int] == replies[step as int]);
        if procedure.verdict(step, replies[step as int]) is None {
            passed_of_prefix(procedure, replies, step + 1);
        }
    } else if step < procedure.steps() {
        assert(replies[step as int] == replies.last());
        if procedure.verdict(step, replies.last()) is None {
            assert(stops_at(procedure, replies, step + 1) == step + 1);
        }
    }
}

/// Every run is this: steps are passed up to the first reply that fails one,
/// that reply is what stops the run, and every later reply answers a release.
pub proof fn run_is_determined<P: Procedure>(procedure: P, replies: Seq<Reply>)
    ensures
        passed(procedure, replies) <= procedure.steps(),
        passed(procedure, replies) <= replies.len(),
        forall|step: nat|
            step < passed(procedure, replies) ==> (#[trigger] procedure.verdict(
                step,
                replies[step as int],
            )) is None,
        stopped_by(procedure, replies) is None <==> passed(procedure, replies)
            == procedure.steps() || passed(procedure, replies) == replies.len(),
        ran(procedure, replies).replies == replies.take(passed(procedure, replies) as int),
        ran(procedure, replies).failure == stopped_by(procedure, replies),
        ran(procedure, replies).released == (if replies.len() <= calls_made(procedure, replies) {
            0
        } else if replies.len() - calls_made(procedure, replies) <= owed(procedure, replies).len() {
            (replies.len() - calls_made(procedure, replies)) as nat
        } else {
            owed(procedure, replies).len()
        }),
    decreases replies.len(),
{
    stops_at_facts(procedure, replies, 0);
    if replies.len() == 0 {
        assert(replies.take(0) =~= Seq::<Reply>::empty());
    } else {
        let front = replies.drop_last();
        run_is_determined(procedure, front);
        passed_of_prefix(procedure, replies, 0);
        let before = passed(procedure, front);
        let now = passed(procedure, replies);
        assert(front.take(before as int) =~= replies.take(before as int));
        if before < procedure.steps() && before == front.len() {
            if procedure.verdict(before, replies.last()) is None {
                assert(replies.take(now as int) =~= front.take(before as int).push(
                    replies.last(),
                ));
            }
        } else if before < front.len() && before < procedure.steps() {
            assert(front[before as int] == replies[before as int]);
        }
    }
}

/// Steps are taken in order, each decided by the replies to those before it.
pub proof fn steps_are_taken_in_order<P: Procedure>(procedure: P, replies: Seq<Reply>)
    requires
        passed(procedure, replies) == replies.len(),
        replies.len() < procedure.steps(),
    ensures
        pending(procedure, ran(procedure, replies)) == Some(procedure.call(replies)),
{
    run_is_determined(procedure, replies);
    assert(replies.take(replies.len() as int) =~= replies);
}

/// The call of every step that was passed is the one that the replies before
/// it decide.
pub proof fn passed_steps_were_called<P: Procedure>(procedure: P, replies: Seq<Reply>, step: nat)
    requires
        step < passed(procedure, replies),
    ensures
        step < replies.len(),
        pending(procedure, ran(procedure, replies.take(step as int))) == Some(
            procedure.call(replies.take(step as int)),
        ),
{
    let front = replies.take(step as int);
    run_is_determined(procedure, replies);
    run_is_determined(procedure, front);
    let at = passed(procedure, front);
    if at < step {
        assert(procedure.verdict(at, front[at as int]) is Some);
        assert(front[at as int] == replies[at as int]);
        assert(procedure.verdict(at, replies[at as int]) is None);
    }
    assert(front.take(step as int) =~= front);
}

/// Once the steps are over, however they ended, exactly the calls that give
/// back what was taken are made, each once and in order, and then none.
pub proof fn what_is_taken_is_given_back<P: Procedure>(procedure: P, replies: Seq<Reply>)
    requires
        replies.len() >= calls_made(procedure, replies),
    ensures
        ({
            let given = replies.len() - calls_made(procedure, replies);
            pending(procedure, ran(procedure, replies)) == (if given < owed(
                procedure,
                replies,
            ).len() {
                Some(owed(procedure, replies)[given])
            } else {
                None
            })
        }),
{
    run_is_determined(procedure, replies);
    stops_at_facts(procedure, replies, 0);
}

/// A sequence succeeds if and only if every step is passed.
pub proof fn success_takes_every_step<P: Procedure>(procedure: P, replies: Seq<Reply>)
    requires
        pending(procedure, ran(procedure, replies)) is None,
    ensures
        ran(procedure, replies).failure is None <==> {
            &&& replies.len() >= procedure.steps()
            &&& forall|step: nat|
                step < procedure.steps() ==> (#[trigger] procedure.verdict(
                    step,
                    replies[step as int],
                )) is None
        },
        ran(procedure, replies).failure is None ==> ran(procedure, replies).replies
            == replies.take(procedure.steps() as int),
{
    run_is_determined(procedure, replies);
    stops_at_facts(procedure, replies, 0);
}

/// A run begins with nothing done, and each reply takes it from where the
/// replies before have brought it.
pub proof fn run_takes_one_reply_at_a_time<P: Procedure>(
    procedure: P,
    replies: Seq<Reply>,
    reply: Reply,
)
    ensures
        unstarted().replies.len() == 0,
        unstarted().failure is None,
        unstarted().released == 0,
        ran(procedure, Seq::empty()) == unstarted(),
        ran(procedure, replies.push(reply)) == advanced(procedure, ran(procedure, replies), reply),
{
    assert(replies.push(reply).drop_last() =~= replies);
}

/// Where the first `step` replies let a sequence go on, this is how it goes
/// on. While steps are left, the call that those replies decide is made next.
/// A reply that fails a step ends the steps: what the replies before it have
/// taken is given back, call by call, and then the sequence has come to that
/// failure. After the last step the same is given back, and the sequence has
/// come to its product.
pub proof fn sequence_goes_as_its_replies_say<P: Procedure>(
    procedure: P,
    replies: Seq<Reply>,
    step: nat,
)
    requires
        step <= procedure.steps(),
        step <= replies.len(),
        forall|i: nat|
            i < step ==> (#[trigger] procedure.verdict(i, replies[i as int])) is None,
    ensures
        ({
            let now = ran(procedure, replies);
            let taken = procedure.releases(replies.take(step as int));
            &&& step < procedure.steps() && step == replies.len() ==> {
                &&& pending(procedure, now) == Some(procedure.call(replies))
                &&& come_to(procedure, now) is None
            }
            &&& step < procedure.steps() && step < replies.len() && procedure.verdict(
                step,
                replies[step as int],
            ) is Some ==> {
                let given = replies.len() - step - 1;
                let failure = procedure.verdict(step, replies[step as int])->Some_0;
                if given < taken.len() {
                    &&& pending(procedure, now) == Some(taken[given])
                    &&& come_to(procedure, now) is None
                } else {
                    &&& pending(procedure, now) is None
                    &&& come_to(procedure, now) == Some(Err::<P::Product, Failure>(failure))
                }
            }
            &&& step == procedure.steps() ==> {
                let given = replies.len() - step;
                if given < taken.len() {
                    &&& pending(procedure, now) == Some(taken[given])
                    &&& come_to(procedure, now) is None
                } else {
                    &&& pending(procedure, now) is None
                    &&& come_to(procedure, now) == Some(
                        Ok::<P::Product, Failure>(procedure.product(replies.take(step as int))),
                    )
                }
            }
        }),
{
    run_is_determined(procedure, replies);
    stops_at_facts(procedure, replies, 0);
    let at = passed(procedure, replies);
    if at < step {
        assert(procedure.verdict(at, replies[at as int]) is Some);
        assert(procedure.verdict(at, replies[at as int]) is None);
    }
    if at > step {
        assert(procedure.verdict(step, replies[step as int]) is None);
    }
    if step == replies.len() {
        assert(replies.take(step as int) =~= replies);
    }
}

} // verus!
