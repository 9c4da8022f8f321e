//! Fan-out delivery of one notification to every recipient, retried in full
//! rounds until each recipient holds a delivered copy.
use vstd::prelude::*;

verus! {

/// Seconds to wait after a round in which some delivery failed.
pub const RETRY_BACKOFF_SECS: u64 = 5;

/// What the messaging channel returns for a sent message, kept to edit it later.
#[derive(Clone, Copy, Debug, PartialEq, Eq, Structural)]
pub struct MessageHandle {
    pub chat_id: i64,
    pub message_id: i64,
}

/// Result of sending to one recipient.
#[derive(Clone, Copy, Debug, PartialEq, Eq, Structural)]
pub enum Outcome {
    Delivered(MessageHandle),
    Failed,
}

/// One notification as sent to one recipient.
#[derive(Debug)]
pub struct AlertMessage {
    pub recipient_id: i64,
    /// Present only when delivery succeeded.
    pub handle: Option<MessageHandle>,
    pub body: String,
}

impl Clone for AlertMessage {
    fn clone(&self) -> (r: Self)
        ensures
            r == *self,
    {
        AlertMessage { recipient_id: self.recipient_id, handle: self.handle, body: self.body.clone() }
    }
}

/// Every recipient's outcome in the round is a delivery.
pub open spec fn all_delivered(outcomes: Seq<Outcome>) -> bool {
    forall|i: int| 0 <= i < outcomes.len() ==> (#[trigger] outcomes[i]) is Delivered
}

/// `alerts` records, in recipient order, a delivered copy of `body` for each
/// recipient, with the handle that its outcome returned.
pub open spec fn alerts_of_round(
    alerts: Seq<AlertMessage>,
    recipients: Seq<i64>,
    body: Seq<char>,
    outcomes: Seq<Outcome>,
) -> bool {
    &&& alerts.len() == recipients.len()
    &&& alerts.len() == outcomes.len()
    &&& forall|i: int|
        0 <= i < alerts.len() ==> {
            &&& (#[trigger] alerts[i]).recipient_id == recipients[i]
            &&& outcomes[i] is Delivered
            &&& alerts[i].handle == Some(outcomes[i]->Delivered_0)
            &&& alerts[i].body@ == body
        }
}

/// How a round of sends ends.
#[derive(Debug)]
pub enum RoundVerdict {
    /// Every recipient got the message; these are the sent copies.
    Complete(Vec<AlertMessage>),
    /// Some send failed: wait this many seconds, then send to every recipient again.
    RetryAfter(u64),
}

/// One notification body on its way to a fixed list of recipients.
///
/// Each round sends the body to every recipient, including those that
/// received it in an earlier round: a duplicate is acceptable, a silent
/// non-delivery is not.
pub struct Broadcast {
    recipients: Vec<i64>,
    body: String,
}

impl Broadcast {
    pub closed spec fn spec_recipients(&self) -> Seq<i64> {
        self.recipients@
    }

    pub closed spec fn spec_body(&self) -> Seq<char> {
        self.body@
    }

    pub fn new(recipients: &Vec<i64>, body: String) -> (r: Broadcast)
        ensures
            r.spec_recipients() == recipients@,
            r.spec_body() == body@,
    {
        Broadcast { recipients: recipients.clone(), body }
    }

    /// The recipients of every round, the first and each retry alike.
    pub fn recipients(&self) -> (r: &Vec<i64>)
        ensures
            r@ == self.spec_recipients(),
    {
        &self.recipients
    }

    /// The text sent in every round.
    pub fn body(&self) -> (r: &String)
        ensures
            r@ == self.spec_body(),
    {
        &self.body
    }

    /// Decides how a round ends, given each recipient's outcome in order.
    ///
    /// The broadcast is complete exactly when every outcome is a delivery;
    /// otherwise a full new round follows after the fixed backoff.
    pub fn conclude_round(&self, outcomes: &Vec<Outcome>) -> (r: RoundVerdict)
        requires
            outcomes.len() == self.spec_recipients().len(),
        ensures
            r is Complete <==> all_delivered(outcomes@),
            r is Complete ==> alerts_of_round(
                r->Complete_0@,
                self.spec_recipients(),
                self.spec_body(),
                outcomes@,
            ),
            r is RetryAfter ==> r->RetryAfter_0 == RETRY_BACKOFF_SECS,
    {
        let mut alerts: Vec<AlertMessage> = Vec::new();
        let mut i: usize = 0;
        while i < outcomes.len()
            invariant
                i <= outcomes.len(),
                outcomes.len() == self.recipients.len(),
                alerts_of_round(
                    alerts@,
                    self.recipients@.subrange(0, i as int),
                    self.body@,
                    outcomes@.subrange(0, i as int),
                ),
            decreases outcomes.len() - i,
        {
            match outcomes[i] {
                Outcome::Delivered(handle) => {
                    alerts.push(
                        AlertMessage {
                            recipient_id: self.recipients[i],
                            handle: Some(handle),
                            body: self.body.clone(),
                        },
                    );
                },
                Outcome::Failed => {
                    assert(!all_delivered(outcomes@));
                    return RoundVerdict::RetryAfter(RETRY_BACKOFF_SECS);
                },
            }
            i += 1;
            assert(alerts_of_round(
                alerts@,
                self.recipients@.subrange(0, i as int),
                self.body@,
                outcomes@.subrange(0, i as int),
            ));
        }
        assert(self.recipients@.subrange(0, i as int) =~= self.recipients@);
        assert(outcomes@.subrange(0, i as int) =~= outcomes@);
        assert forall|k: int| 0 <= k < outcomes.len() implies (#[trigger] outcomes@[k]) is Delivered by {
            assert(alerts@[k].handle is Some);
        }
        RoundVerdict::Complete(alerts)
    }
}

} // verus!
