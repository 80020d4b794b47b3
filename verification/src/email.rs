//! The outbound-mail ledger: what the service asked to have sent. The
//! delivery itself (a network call to the mail provider) belongs to the
//! program around the library, which drains this ledger.

use vstd::prelude::*;
use vstd::string::*;
use crate::errors::ApiError;

verus! {

/// The ledger line for one message: the address and the body, framed.
pub open spec fn sent_entry(addr: Seq<char>, msg: Seq<char>) -> Seq<char> {
    "<"@ + addr + ">::["@ + msg + "]"@
}

/// Records outbound messages in order; the surrounding program delivers
/// them.
pub struct EmailClient {
    pub sent_messages: Vec<String>,
    pub app_url: String,
}

impl EmailClient {
    pub fn new() -> (r: EmailClient)
        ensures
            r.sent_messages@.len() == 0,
            r.app_url@.len() == 0,
    {
        EmailClient { sent_messages: Vec::new(), app_url: String::new() }
    }

    /// Appends one message to the ledger.
    pub fn send_message(&mut self, address: &str, message: &str) -> (r: Result<(), ApiError>)
        ensures
            r is Ok,
            final(self).sent_messages@.len() == old(self).sent_messages@.len() + 1,
            final(self).sent_messages@ == old(self).sent_messages@.push(
                final(self).sent_messages@.last(),
            ),
            final(self).sent_messages@.last()@ == sent_entry(address@, message@),
            final(self).app_url == old(self).app_url,
    {
        let mut entry = "<".to_owned();
        entry.append(address);
        entry.append(">::[");
        entry.append(message);
        entry.append("]");
        self.sent_messages.push(entry);
        Ok(())
    }

    /// The ledger so far.
    pub fn messages(&self) -> (r: &Vec<String>)
        ensures
            r == &self.sent_messages,
    {
        &self.sent_messages
    }
}

} // verus!
