use crate::domain::SubscriberEmail;
use vstd::prelude::*;

verus! {

/// The query string of a send through Elastic Email, field by field.
pub struct ElasticEmailParameters<'a> {
    pub apikey: &'a str,
    pub subject: &'a str,
    pub from: &'a str,
    pub to: &'a str,
    pub body_html: &'a str,
    pub body_text: &'a str,
}

impl<'a> ElasticEmailParameters<'a> {
    /// The parameters that send `subject` with both bodies from `sender` to
    /// `recipient`, authorised by `apikey`.
    pub fn new(
        apikey: &'a str,
        sender: &'a SubscriberEmail,
        recipient: &'a SubscriberEmail,
        subject: &'a str,
        body_html: &'a str,
        body_text: &'a str,
    ) -> (r: ElasticEmailParameters<'a>)
        ensures
            r.apikey@ == apikey@,
            r.from@ == sender.view(),
            r.to@ == recipient.view(),
            r.subject@ == subject@,
            r.body_html@ == body_html@,
            r.body_text@ == body_text@,
    {
        ElasticEmailParameters {
            apikey,
            subject,
            from: sender.as_str(),
            to: recipient.as_str(),
            body_html,
            body_text,
        }
    }
}

/// The path of Elastic Email's send endpoint.
pub const ELASTIC_SEND_PATH: &'static str = "/email/send";

/// The path of Postmark's send endpoint.
pub const POSTMARK_SEND_PATH: &'static str = "/email";

/// The address of Elastic Email's send endpoint under `base_url`.
pub fn elastic_mail_url(base_url: &str) -> (r: String)
    ensures
        r@ == base_url@ + ELASTIC_SEND_PATH@,
{
    base_url.to_owned().concat(ELASTIC_SEND_PATH)
}

/// The address of Postmark's send endpoint under `base_url`.
pub fn postmark_url(base_url: &str) -> (r: String)
    ensures
        r@ == base_url@ + POSTMARK_SEND_PATH@,
{
    base_url.to_owned().concat(POSTMARK_SEND_PATH)
}

} // verus!
