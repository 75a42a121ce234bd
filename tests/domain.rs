use zero2prod::domain::SubscriberEmail;

#[test]
fn valid_addresses_parse() {
    for s in ["ursula_le_guin@gmail.com", "a@b.co", "first.last+tag@mail.example.org", "ünï@côdé.fr"] {
        let e = SubscriberEmail::parse(s.to_string()).unwrap();
        assert_eq!(e.as_str(), s);
    }
}

#[test]
fn invalid_addresses_are_rejected() {
    for s in [
        "",
        "definitely-not-an-email",
        "bad-address",
        "@domain.com",
        "ursuladomain.com",
        "ursula@",
        "ursula@domain",
        "ursula@.domain.com",
        "ursula@domain.com.",
        "ursula@@domain.com",
        "urs@ula@domain.com",
        "ursula le guin@domain.com",
        "ursula@domain.com\n",
        "ursula@do\tmain.com",
    ] {
        assert!(SubscriberEmail::parse(s.to_string()).is_err(), "accepted {:?}", s);
    }
}

#[test]
fn rejection_names_the_address() {
    let err = SubscriberEmail::parse("bad-address".to_string()).err().unwrap();
    assert_eq!(err, "bad-address is not a valid subscriber email.");
}
