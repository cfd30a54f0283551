use it_company::person::{
    parse_email, Affiliation, BuildPersonError, ChfAmount, EmailAddr, PersonBuilder,
    PreferredLanguage,
};

fn get_manuel() -> PersonBuilder {
    PersonBuilder::new()
        .with_first_name("Manuel")
        .with_last_name("Gorbatchov")
        .with_affiliation(Affiliation::Intern)
}

#[test]
fn test_simple_successful_person_build() {
    let person = get_manuel()
        .with_email_address("manuel@udssr.com")
        .unwrap()
        .build()
        .unwrap();

    assert_eq!(person.first, "Manuel");
}

#[test]
fn test_missing_email() {
    matches!(get_manuel().build(), Err(BuildPersonError::EmailUnset));
}

#[test]
fn test_invalid_email_is_rejected() {
    // The whitespace splits the local part, so parsing must fail.
    let r = get_manuel().with_email_address("teufel test@example.com");
    assert!(r.is_err());
}

#[test]
fn test_build_reports_first_missing_field() {
    let r = PersonBuilder::new().build();
    assert!(matches!(r, Err(BuildPersonError::FirstnameUnset)));

    let r = PersonBuilder::new().with_first_name("A").build();
    assert!(matches!(r, Err(BuildPersonError::LastnameUnset)));

    let r = PersonBuilder::new().with_first_name("A").with_last_name("B").build();
    assert!(matches!(r, Err(BuildPersonError::EmailUnset)));

    let r = PersonBuilder::new()
        .with_first_name("A")
        .with_last_name("B")
        .with_email_address("a@b.com")
        .unwrap()
        .build();
    assert!(matches!(r, Err(BuildPersonError::AffiliationUnset)));
}

#[test]
fn test_build_keeps_all_fields() {
    let p = PersonBuilder::new()
        .with_first_name("Ada")
        .with_last_name("Lovelace")
        .with_email_address("ada@numbers.org")
        .unwrap()
        .with_preferred_language(PreferredLanguage::English)
        .with_affiliation(Affiliation::Employee { annual_income: ChfAmount::new(9000) })
        .build()
        .unwrap();
    assert_eq!(p.first, "Ada");
    assert_eq!(p.last, "Lovelace");
    assert_eq!(p.email.as_str(), "ada@numbers.org");
    assert_eq!(p.pref_lang, Some(PreferredLanguage::English));
    assert!(matches!(p.affiliation, Affiliation::Employee { annual_income } if annual_income.chf == 9000));
}

#[test]
fn test_email_accepts_common_addresses() {
    for good in [
        "john@doe.com",
        "a@b.co",
        "first.last+tag%x_y-z@sub.domain-x.org",
        "UPPER@CASE.COM",
        "digits123@456.ch",
        "a@..com",
    ] {
        assert!(EmailAddr::new(good).is_some(), "{good} should be accepted");
    }
}

#[test]
fn test_email_rejects_malformed_addresses() {
    for bad in [
        "",
        "plain",
        "@doe.com",
        "john@",
        "john@doe",
        "john@doe.c",
        "john@.com",
        "john doe@x.com",
        "john@do main.com",
        "john@@doe.com",
        "a@b@c.com",
        "john@doe.com.",
        "john@doe.c0m",
    ] {
        assert!(EmailAddr::new(bad).is_none(), "{bad} should be rejected");
    }
}

#[test]
fn test_parse_email_round_trip() {
    let e = parse_email("dings@bla.com").unwrap();
    assert_eq!(e.as_str(), "dings@bla.com");
    assert!(parse_email("dings at bla.com").is_err());
}

#[test]
fn test_email_equality_is_by_string() {
    let a = EmailAddr::new("same@addr.net").unwrap();
    let b = parse_email("same@addr.net").unwrap();
    let c = EmailAddr::new("other@addr.net").unwrap();
    assert!(a == b);
    assert!(a != c);
}
