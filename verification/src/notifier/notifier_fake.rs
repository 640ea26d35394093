//! A push channel that keeps what it is asked to deliver, for inspection.

use vstd::prelude::*;
use vstd::string::StringExecFns;
use crate::domain::errors::{ErrorKind, LogicError};
use crate::domain::message::{wire_text, Message};
use crate::notifier::notifier_trait::{Delivery, INotifier};
use crate::text::same_text;

verus! {

/// One line of the log: a payload and the connection it was for.
pub struct LogLine {
    connection_id: String,
    payload: String,
    delivery: Ghost<Delivery>,
}

impl LogLine {
    pub closed spec fn id_view(&self) -> Seq<char> {
        self.connection_id@
    }

    pub closed spec fn payload_view(&self) -> Seq<char> {
        self.payload@
    }

    /// The push that this line records.
    pub closed spec fn delivery(&self) -> Delivery {
        self.delivery@
    }

    /// The line holds the wire form of the push that it records.
    pub open spec fn faithful(&self) -> bool {
        &&& self.id_view() == self.delivery().id
        &&& wire_text(self.delivery().message) == Some(self.payload_view())
    }
}

/// The payloads that `lines` holds for the connection `id`, oldest first.
pub open spec fn payloads_for(lines: Seq<LogLine>, id: Seq<char>) -> Seq<Seq<char>>
    decreases lines.len(),
{
    if lines.len() == 0 {
        Seq::empty()
    } else if lines.last().id_view() == id {
        payloads_for(lines.drop_last(), id).push(lines.last().payload_view())
    } else {
        payloads_for(lines.drop_last(), id)
    }
}

/// The pushes that `lines` records, oldest first.
pub open spec fn deliveries_of(lines: Seq<LogLine>) -> Seq<Delivery> {
    Seq::new(lines.len(), |i: int| lines[i].delivery())
}

/// A channel that accepts every message that has a wire form, and logs the
/// wire form under the connection id.
pub struct NotifierFake {
    log: Vec<LogLine>,
}

impl NotifierFake {
    #[verifier::type_invariant]
    closed spec fn wf(&self) -> bool {
        forall|i: int| 0 <= i < self.log.len() ==> (#[trigger] self.log[i]).faithful()
    }

    /// The log, oldest line first.
    pub closed spec fn lines(&self) -> Seq<LogLine> {
        self.log@
    }

    /// A channel with an empty log.
    pub fn new() -> (notifier: NotifierFake)
        ensures
            notifier.sent() == Seq::<Delivery>::empty(),
            notifier.lines() == Seq::<LogLine>::empty(),
    {
        let notifier = NotifierFake { log: Vec::new() };
        assert(notifier.sent() =~= Seq::<Delivery>::empty());
        notifier
    }

    /// The payloads logged for `connection_id`, oldest first; empty where
    /// nothing was pushed to it. Each line of the log holds the wire form
    /// of the push that it records, and the log records the accepted
    /// pushes one for one.
    pub fn get_log(&self, connection_id: &str) -> (payloads: Vec<String>)
        ensures
            self.sent() == deliveries_of(self.lines()),
            forall|i: int| 0 <= i < self.lines().len() ==> (#[trigger] self.lines()[i]).faithful(),
            payloads.len() == payloads_for(self.lines(), connection_id@).len(),
            forall|i: int|
                0 <= i < payloads.len() ==> (#[trigger] payloads[i])@ == payloads_for(
                    self.lines(),
                    connection_id@,
                )[i],
    {
        proof {
            use_type_invariant(self);
        }
        let mut payloads: Vec<String> = Vec::new();
        let mut i: usize = 0;
        while i < self.log.len()
            invariant
                i <= self.log.len(),
                payloads.len() == payloads_for(self.log@.take(i as int), connection_id@).len(),
                forall|j: int|
                    0 <= j < payloads.len() ==> (#[trigger] payloads[j])@ == payloads_for(
                        self.log@.take(i as int),
                        connection_id@,
                    )[j],
            decreases self.log.len() - i,
        {
            proof {
                let next = self.log@.take(i as int + 1);
                assert(next.drop_last() == self.log@.take(i as int));
                assert(next.last() == self.log@[i as int]);
            }
            if same_text(self.log[i].connection_id.as_str(), connection_id) {
                payloads.push(self.log[i].payload.clone());
            }
            i += 1;
        }
        proof {
            assert(self.log@.take(i as int) == self.log@);
        }
        payloads
    }

    /// The number of lines in the log.
    pub fn len(&self) -> (n: usize)
        ensures
            n == self.lines().len(),
            n == self.sent().len(),
    {
        self.log.len()
    }
}

impl INotifier for NotifierFake {
    closed spec fn sent(&self) -> Seq<Delivery> {
        deliveries_of(self.log@)
    }

    /// Logs the wire form of `message` under `id`. Fails with
    /// `DeliveryFailure`, and logs nothing, exactly when the message has no
    /// wire form.
    fn notify(&mut self, id: &str, message: &Message) -> (res: Result<(), LogicError>)
        ensures
            res is Ok <==> wire_text(message@) is Some,
            res is Err ==> final(self).lines() == old(self).lines(),
            res is Ok ==> final(self).lines().len() == old(self).lines().len() + 1
                && final(self).lines().drop_last() == old(self).lines()
                && final(self).lines().last().id_view() == id@
                && Some(final(self).lines().last().payload_view()) == wire_text(message@),
    {
        proof {
            use_type_invariant(&*self);
        }
        let message_json = match message.to_json() {
            Ok(json) => json,
            Err(e) => {
                return Err(e);
            },
        };
        let ghost delivery = Delivery { id: id@, message: message@ };
        let line = LogLine {
            connection_id: String::from_str(id),
            payload: message_json,
            delivery: Ghost(delivery),
        };
        let mut log: Vec<LogLine> = Vec::new();
        std::mem::swap(&mut self.log, &mut log);
        log.push(line);
        self.log = log;
        proof {
            assert(self.lines().drop_last() == old(self).lines());
            assert(self.sent() =~= old(self).sent().push(delivery));
        }
        Ok(())
    }
}

} // verus!
