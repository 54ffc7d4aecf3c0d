//! How often and how fast a question to the journey planner is repeated.

use vstd::arithmetic::power2::pow2;
use vstd::prelude::*;

verus! {

/// What came of sending a question.
#[derive(Debug, Clone, Copy, PartialEq, Eq, Structural)]
pub enum Reply {
    /// An answer with a status of success.
    Success,
    /// An answer with another status.
    Refused {
        /// The status code.
        status: u16,
    },
    /// No answer.
    Unreachable,
}

/// What to do next.
#[derive(Debug, Clone, Copy, PartialEq, Eq, Structural)]
pub enum Verdict {
    /// Hand out the answer.
    Accept,
    /// Send the question again after a number of milliseconds.
    Wait {
        /// Milliseconds to wait.
        millis: u64,
    },
    /// Report the failure.
    GiveUp,
}

/// The number of times a question can be repeated.
pub const MAX_RETRIES: u64 = 4;

/// The milliseconds before the first repetition.
pub const FIRST_DELAY: u64 = 200;

/// The status code for too many requests.
pub const TOO_MANY_REQUESTS: u16 = 429;

/// The course of one question.
#[derive(Debug)]
pub struct Retry {
    attempts: u64,
    delay_ms: u64,
}

/// The milliseconds before the repetition after a number of them: each wait is twice as
/// long as the one before.
pub open spec fn wait_after(retries: nat) -> int {
    FIRST_DELAY * pow2(retries)
}

/// The verdict on a reply after a number of repetitions. Only an overloaded or
/// unreachable service is asked again.
pub open spec fn verdict(retries: nat, reply: Reply) -> Verdict {
    match reply {
        Reply::Success => Verdict::Accept,
        Reply::Refused { status } => if status == TOO_MANY_REQUESTS && retries < MAX_RETRIES {
            Verdict::Wait { millis: wait_after(retries) as u64 }
        } else {
            Verdict::GiveUp
        },
        Reply::Unreachable => if retries < MAX_RETRIES {
            Verdict::Wait { millis: wait_after(retries) as u64 }
        } else {
            Verdict::GiveUp
        },
    }
}

proof fn lemma_waits()
    ensures
        pow2(0) == 1,
        pow2(1) == 2,
        pow2(2) == 4,
        pow2(3) == 8,
        pow2(4) == 16,
{
    vstd::arithmetic::power2::lemma2_to64();
}

impl Retry {
    #[verifier::type_invariant]
    spec fn well_formed(self) -> bool {
        &&& self.attempts <= MAX_RETRIES
        &&& self.delay_ms == wait_after(self.attempts as nat)
    }

    /// The number of repetitions so far.
    pub closed spec fn retries(self) -> nat {
        self.attempts as nat
    }

    /// A question that was not repeated yet.
    pub fn new() -> (r: Retry)
        ensures
            r.retries() == 0,
    {
        proof {
            lemma_waits();
        }
        Retry { attempts: 0, delay_ms: FIRST_DELAY }
    }

    /// What to do about a reply, and the course of the question after that.
    pub fn decide(self, reply: Reply) -> (r: (Verdict, Retry))
        ensures
            r.0 == verdict(self.retries(), reply),
            r.1.retries() == if r.0 is Wait {
                self.retries() + 1
            } else {
                self.retries()
            },
            r.1.retries() <= MAX_RETRIES,
    {
        proof {
            use_type_invariant(&self);
            lemma_waits();
        }
        let again = match reply {
            Reply::Success => return (Verdict::Accept, self),
            Reply::Refused { status } => status == TOO_MANY_REQUESTS,
            Reply::Unreachable => true,
        };
        if again && self.attempts < MAX_RETRIES {
            let next = Retry { attempts: self.attempts + 1, delay_ms: self.delay_ms * 2 };
            (Verdict::Wait { millis: self.delay_ms }, next)
        } else {
            (Verdict::GiveUp, self)
        }
    }
}

/// The message for a refusal, given its status in words.
pub open spec fn refusal(status: Seq<char>) -> Seq<char> {
    "OJP API returned status "@ + status
}

/// The message for a refusal, given its status in words.
pub fn refusal_message(status: &str) -> (r: String)
    ensures
        r@ == refusal(status@),
{
    let mut message = "OJP API returned status ".to_owned();
    message.append(status);
    message
}

/// A question is sent at most five times: after four repetitions no reply leads to
/// another.
pub proof fn law_repetitions_are_bounded(retries: nat, reply: Reply)
    requires
        retries >= MAX_RETRIES,
    ensures
        !(verdict(retries, reply) is Wait),
{
}

/// The waits are 200, 400, 800 and 1600 milliseconds.
pub proof fn law_waits_double(retries: nat)
    requires
        retries < MAX_RETRIES,
    ensures
        verdict(retries, Reply::Unreachable) == (Verdict::Wait {
            millis: if retries == 0 {
                200
            } else if retries == 1 {
                400
            } else if retries == 2 {
                800
            } else {
                1600
            },
        }),
        wait_after(retries + 1) == 2 * wait_after(retries),
{
    lemma_waits();
}

/// A question is repeated only after no answer or after too many requests, and then only
/// while there were fewer than four repetitions.
pub proof fn law_replies_decide(retries: nat, status: u16)
    ensures
        verdict(retries, Reply::Success) == Verdict::Accept,
        status != 429 ==> verdict(retries, Reply::Refused { status }) == Verdict::GiveUp,
        verdict(retries, Reply::Refused { status: 429 }) == verdict(retries, Reply::Unreachable),
        verdict(retries, Reply::Unreachable) is Wait <==> retries < 4,
        verdict(retries, Reply::Unreachable) is GiveUp <==> retries >= 4,
{
}

/// The message for a refusal ends with the status.
pub proof fn law_refusal_tells_the_status(status: Seq<char>)
    ensures
        refusal(status).skip(24) == status,
        refusal(status).take(24) == "OJP API returned status "@,
{
    reveal_strlit("OJP API returned status ");
    assert(refusal(status).skip(24) =~= status);
    assert(refusal(status).take(24) =~= "OJP API returned status "@);
}

} // verus!
