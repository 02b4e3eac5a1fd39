use vstd::prelude::*;

use crate::config::Config;

verus! {

/// Builds outbound text messages for the SMS collaborator; delivery
/// itself is the embedding layer's concern and never retried here.
pub struct SmsService {
    pub config: Config,
}

impl SmsService {
    /// Binds the sender to its configuration.
    pub fn new(config: Config) -> (r: SmsService)
        ensures
            r.config == config,
    {
        SmsService { config }
    }

    /// The verification text for a one-time code.
    pub fn otp_message(&self, code: &str) -> (r: String)
        ensures
            r@ == "Your verification code is: "@ + code@
                + ". This code expires in 10 minutes."@,
    {
        let mut s = String::from_str("Your verification code is: ");
        s.append(code);
        s.append(". This code expires in 10 minutes.");
        s
    }
}

} // verus!
