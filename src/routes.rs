use crate::domain::{invalid_email_message, is_valid_email, SubscriberEmail};
use vstd::prelude::*;

verus! {

/// The form that publishes a newsletter issue.
pub struct BodyData {
    pub title: String,
    pub html_content: String,
    pub text_content: String,
}

/// `r` is what parsing `s` as an address gives.
pub open spec fn parsed_as(s: Seq<char>, r: Result<SubscriberEmail, String>) -> bool {
    match r {
        Ok(e) => is_valid_email(s) && e.view() == s,
        Err(m) => !is_valid_email(s) && m@ == invalid_email_message(s),
    }
}

/// Parses each stored address of the confirmed subscribers, in order. An
/// address that does not parse gives an error in its place and the rest go on.
pub fn confirmed_subscribers(emails: Vec<String>) -> (r: Vec<Result<SubscriberEmail, String>>)
    ensures
        r@.len() == emails@.len(),
        forall|i: int| 0 <= i < emails@.len() ==> parsed_as(emails@[i]@, #[trigger] r@[i]),
{
    let mut out: Vec<Result<SubscriberEmail, String>> = Vec::new();
    let mut rest = emails;
    let ghost all = rest@;
    let n = rest.len();
    let mut i: usize = 0;
    // Take the addresses from the back, then restore their order.
    while i < n
        invariant
            i <= n,
            n == all.len(),
            rest@ == all.take(n - i),
            out@.len() == i,
            forall|j: int| 0 <= j < i ==> parsed_as(all[n - 1 - j]@, #[trigger] out@[j]),
        decreases n - i,
    {
        let s = rest.pop().unwrap();
        assert(s == all[n - 1 - i]);
        out.push(SubscriberEmail::parse(s));
        i = i + 1;
        assert(rest@ =~= all.take(n - i));
    }
    let mut r: Vec<Result<SubscriberEmail, String>> = Vec::new();
    let mut k: usize = 0;
    while k < n
        invariant
            k <= n,
            n == all.len(),
            out@.len() == n - k,
            r@.len() == k,
            forall|j: int| 0 <= j < n - k ==> parsed_as(all[n - 1 - j]@, #[trigger] out@[j]),
            forall|j: int| 0 <= j < k ==> parsed_as(all[j]@, #[trigger] r@[j]),
        decreases n - k,
    {
        let x = out.pop().unwrap();
        assert(parsed_as(all[k as int]@, x));
        r.push(x);
        k = k + 1;
    }
    r
}

/// What a request to change the password comes to.
#[derive(PartialEq, Eq, Structural, Clone, Copy, Debug)]
pub enum PasswordChangeCheck {
    /// The current password given was wrong.
    WrongCurrentPassword,
    /// The new password is 12 bytes long or shorter.
    TooShort,
    /// The new password and its confirmation differ.
    Mismatch,
    /// The new password may be stored.
    Accepted,
}

/// New passwords of at most this many bytes are refused.
pub const MIN_PASSWORD_BYTES: usize = 12;

/// The rules for a new password, checked in this order: the current password
/// must be right, the new one (of `new_len` bytes) longer than twelve bytes,
/// and its confirmation equal to it.
pub open spec fn password_change_check(
    current_ok: bool,
    new_len: int,
    new_chars: Seq<char>,
    check_chars: Seq<char>,
) -> PasswordChangeCheck {
    if !current_ok {
        PasswordChangeCheck::WrongCurrentPassword
    } else if new_len <= MIN_PASSWORD_BYTES {
        PasswordChangeCheck::TooShort
    } else if new_chars != check_chars {
        PasswordChangeCheck::Mismatch
    } else {
        PasswordChangeCheck::Accepted
    }
}

/// Checks a request to change the password, given whether the current
/// password was verified.
pub fn check_password_change(current_ok: bool, new_password: &str, new_password_check: &str) -> (r:
    PasswordChangeCheck)
    ensures
        r == password_change_check(
            current_ok,
            new_password.len() as int,
            new_password@,
            new_password_check@,
        ),
{
    if !current_ok {
        return PasswordChangeCheck::WrongCurrentPassword;
    }
    if new_password.len() <= MIN_PASSWORD_BYTES {
        return PasswordChangeCheck::TooShort;
    }
    let new_owned = new_password.to_owned();
    let check_owned = new_password_check.to_owned();
    if new_owned != check_owned {
        PasswordChangeCheck::Mismatch
    } else {
        PasswordChangeCheck::Accepted
    }
}

impl PasswordChangeCheck {
    /// The flash message shown for this result.
    pub fn message(&self) -> (r: &'static str)
        ensures
            r@ == match *self {
                PasswordChangeCheck::WrongCurrentPassword => WRONG_PASSWORD_MESSAGE@,
                PasswordChangeCheck::TooShort => TOO_SHORT_MESSAGE@,
                PasswordChangeCheck::Mismatch => MISMATCH_MESSAGE@,
                PasswordChangeCheck::Accepted => CHANGED_MESSAGE@,
            },
    {
        match self {
            PasswordChangeCheck::WrongCurrentPassword => WRONG_PASSWORD_MESSAGE,
            PasswordChangeCheck::TooShort => TOO_SHORT_MESSAGE,
            PasswordChangeCheck::Mismatch => MISMATCH_MESSAGE,
            PasswordChangeCheck::Accepted => CHANGED_MESSAGE,
        }
    }
}

/// Shown when the current password given is wrong.
pub const WRONG_PASSWORD_MESSAGE: &'static str = "Wrong current password!";

/// Shown when the new password is too short.
pub const TOO_SHORT_MESSAGE: &'static str = "Password must be longer than 12 symbols";

/// Shown when the new password and its confirmation differ.
pub const MISMATCH_MESSAGE: &'static str =
    "You entered two different new passwords - the field values must match.";

/// Shown once the password has been changed.
pub const CHANGED_MESSAGE: &'static str = "Your password has been changed.";

/// The flash message shown once an issue is published.
pub const PUBLISHED_MESSAGE: &'static str = "The newsletter issue has been published!";

/// What opens a flash message paragraph.
pub const FLASH_OPEN: &'static str = "<p><i>";

/// What closes a flash message paragraph.
pub const FLASH_CLOSE: &'static str = "</i></p>\n";

/// Each message as its own paragraph, in order.
pub open spec fn flash_lines(ms: Seq<String>) -> Seq<char>
    decreases ms.len(),
{
    if ms.len() == 0 {
        Seq::empty()
    } else {
        flash_lines(ms.drop_last()) + FLASH_OPEN@ + ms.last()@ + FLASH_CLOSE@
    }
}

/// The flash messages as HTML paragraphs.
pub fn flash_messages_html(messages: &Vec<String>) -> (r: String)
    ensures
        r@ == flash_lines(messages@),
{
    let mut out = String::new();
    let n = messages.len();
    let mut i: usize = 0;
    while i < n
        invariant
            i <= n,
            n == messages@.len(),
            out@ == flash_lines(messages@.take(i as int)),
        decreases n - i,
    {
        assert(messages@.take(i + 1).drop_last() =~= messages@.take(i as int));
        out.append(FLASH_OPEN);
        out.append(messages[i].as_str());
        out.append(FLASH_CLOSE);
        i = i + 1;
    }
    assert(messages@.take(n as int) =~= messages@);
    out
}

/// The publishing page up to its flash messages.
pub const NEWSLETTER_FORM_HEAD: &'static str = "
        <!DOCTYPE html/>
        <head>
            <meta http-equiv=\"content-type\" content=\"text/html; charset=utf-8\">
            <title>Send newsletters</title>
        </head>
        <body>
            ";

/// The publishing page after its flash messages: the form.
pub const NEWSLETTER_FORM_TAIL: &'static str = "
            <form action=\"/admin/newsletters\" method=\"post\">
                <label>Title
                    <input
                        type=\"text\"
                        placeholder=\"Enter title of letter\"
                        name=\"title\"
                    >
                </label>
                <br>
                <label>Text body
                    <input
                        type=\"text\"
                        placeholder=\"Enter text of your letter\"
                        name=\"text_content\"
                    >
                </label>
                <br>
                <label>HTML body
                    <input
                        type=\"text\"
                        placeholder=\"Enter html text of your letter\"
                        name=\"html_content\"
                    >
                </label>
                <button type=\"submit\">Send to all subscribers</button>
            </form>
        </body>
        ";

/// The page with the form that publishes an issue, headed by the flash messages.
pub fn newsletters_form_page(messages: &Vec<String>) -> (r: String)
    ensures
        r@ == NEWSLETTER_FORM_HEAD@ + flash_lines(messages@) + NEWSLETTER_FORM_TAIL@,
{
    let lines = flash_messages_html(messages);
    let mut page = String::from_str(NEWSLETTER_FORM_HEAD);
    page.append(lines.as_str());
    page.append(NEWSLETTER_FORM_TAIL);
    page
}

/// The dashboard up to the user name.
pub const DASHBOARD_HEAD: &'static str = "<!DOCTYPE html
            <html lang=\"en\"
            <head>
                <meta http_equiv=\"content-type\" content=\"text/html\"; craset=utf-8\">
                <title>Admin dashboard</title>
            </head>
            <body>
                <p>Welcome ";

/// The dashboard after the user name.
pub const DASHBOARD_TAIL: &'static str = "!</p>
            </body>
            </html>
            ";

/// The admin dashboard, greeting `username`.
pub fn dashboard_page(username: &str) -> (r: String)
    ensures
        r@ == DASHBOARD_HEAD@ + username@ + DASHBOARD_TAIL@,
{
    let mut page = String::from_str(DASHBOARD_HEAD);
    page.append(username);
    page.append(DASHBOARD_TAIL);
    page
}

} // verus!
