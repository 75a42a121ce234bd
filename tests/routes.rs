use zero2prod::email_client::{elastic_mail_url, postmark_url, ElasticEmailParameters};
use zero2prod::domain::SubscriberEmail;
use zero2prod::routes::{
    check_password_change, confirmed_subscribers, dashboard_page, flash_messages_html,
    newsletters_form_page, BodyData, PasswordChangeCheck,
};

#[test]
fn password_change_rules_in_order() {
    assert_eq!(check_password_change(false, "short", "other"), PasswordChangeCheck::WrongCurrentPassword);
    assert_eq!(check_password_change(true, "twelve_bytes", "twelve_bytes"), PasswordChangeCheck::TooShort);
    assert_eq!(check_password_change(true, "thirteen_byte", "thirteen_bytX"), PasswordChangeCheck::Mismatch);
    assert_eq!(check_password_change(true, "thirteen_byte", "thirteen_byte"), PasswordChangeCheck::Accepted);
    // Twelve bytes but only six characters: still too short.
    assert_eq!(check_password_change(true, "éééééé", "éééééé"), PasswordChangeCheck::TooShort);
    assert_eq!(PasswordChangeCheck::TooShort.message(), "Password must be longer than 12 symbols");
    assert_eq!(PasswordChangeCheck::Accepted.message(), "Your password has been changed.");
    assert_eq!(PasswordChangeCheck::WrongCurrentPassword.message(), "Wrong current password!");
    assert_eq!(
        PasswordChangeCheck::Mismatch.message(),
        "You entered two different new passwords - the field values must match."
    );
}

#[test]
fn confirmed_subscribers_keep_order_and_skip_nothing() {
    let r = confirmed_subscribers(vec![
        "ursula_le_guin@gmail.com".to_string(),
        "definitely-not-an-email".to_string(),
        "a@b.co".to_string(),
    ]);
    assert_eq!(r.len(), 3);
    assert_eq!(r[0].as_ref().unwrap().as_str(), "ursula_le_guin@gmail.com");
    assert_eq!(r[1].as_ref().err().unwrap(), "definitely-not-an-email is not a valid subscriber email.");
    assert_eq!(r[2].as_ref().unwrap().as_str(), "a@b.co");
    assert!(confirmed_subscribers(Vec::new()).is_empty());
}

#[test]
fn flash_messages_become_paragraphs() {
    let msgs = vec!["The newsletter issue has been published!".to_string(), "x".to_string()];
    assert_eq!(
        flash_messages_html(&msgs),
        "<p><i>The newsletter issue has been published!</i></p>\n<p><i>x</i></p>\n"
    );
    assert_eq!(flash_messages_html(&Vec::new()), "");
    let page = newsletters_form_page(&msgs);
    assert!(page.contains("<p><i>The newsletter issue has been published!</i></p>"));
    assert!(page.contains("<form action=\"/admin/newsletters\" method=\"post\">"));
}

#[test]
fn dashboard_greets_the_user() {
    let page = dashboard_page("ursula");
    assert!(page.contains("<p>Welcome ursula!</p>"));
    assert!(page.contains("<title>Admin dashboard</title>"));
}

#[test]
fn send_endpoints() {
    assert_eq!(elastic_mail_url("http://localhost:1234"), "http://localhost:1234/email/send");
    assert_eq!(postmark_url("https://api.postmarkapp.com"), "https://api.postmarkapp.com/email");
}

#[test]
fn elastic_parameters_carry_each_field() {
    let sender = SubscriberEmail::parse("sender@example.com".to_string()).unwrap();
    let recipient = SubscriberEmail::parse("ursula_le_guin@gmail.com".to_string()).unwrap();
    let p = ElasticEmailParameters::new("key", &sender, &recipient, "subject", "<p>html</p>", "text");
    assert_eq!(p.apikey, "key");
    assert_eq!(p.from, "sender@example.com");
    assert_eq!(p.to, "ursula_le_guin@gmail.com");
    assert_eq!(p.subject, "subject");
    assert_eq!(p.body_html, "<p>html</p>");
    assert_eq!(p.body_text, "text");
}

#[test]
fn body_data_holds_the_issue() {
    let b = BodyData {
        title: "Newsletter title".to_string(),
        html_content: "<p>Newsletter body as HTML</p>".to_string(),
        text_content: "Newsletter body as plain text".to_string(),
    };
    assert_eq!(b.title, "Newsletter title");
    assert_eq!(b.html_content, "<p>Newsletter body as HTML</p>");
    assert_eq!(b.text_content, "Newsletter body as plain text");
}
