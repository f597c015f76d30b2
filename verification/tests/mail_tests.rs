use shopify_inventory_manager::services::email_service::{
    switched_on, Delivery, EmailService, Encryption, MailAddress, MailMechanism, MailSettings,
    MailTransport,
};

fn text(value: &str) -> Option<String> {
    Some(value.to_string())
}

fn service(server: &str, user: &str, admin: &str) -> EmailService {
    EmailService::new(MailSettings {
        server: text(server),
        user: text(user),
        pass: text(" pw "),
        port: text("2525"),
        notification: text(admin),
    })
}

#[test]
fn settings_have_defaults() {
    let bare = EmailService::new(MailSettings {
        server: None,
        user: None,
        pass: None,
        port: None,
        notification: None,
    });
    assert_eq!(
        bare.mailer_config,
        ("smtp.gmail.com".to_string(), "".to_string(), "".to_string(), 587)
    );
    let full = service(" mail.example ", " me@example.com ", " admin@example.com\n");
    assert_eq!(full.sender_email, "me@example.com");
    assert_eq!(full.admin_email, "admin@example.com");
    assert_eq!(
        full.mailer_config,
        ("mail.example".to_string(), "me@example.com".to_string(), "pw".to_string(), 2525)
    );
    let odd = EmailService::new(MailSettings {
        server: None,
        user: None,
        pass: None,
        port: text("65536"),
        notification: None,
    });
    assert_eq!(odd.mailer_config.3, 587);
}

#[test]
fn switches_are_the_word_true() {
    assert!(switched_on(Some(" TRUE ")));
    assert!(!switched_on(Some("yes")));
    assert!(!switched_on(Some("")));
    assert!(!switched_on(None));
}

#[test]
fn relays_get_no_credentials() {
    let office = service("smtp.office365.com", "me@example.com", "admin@example.com");
    assert!(office.is_office365());
    assert_eq!(office.ip_relay_mode(None, Some("true")), None);
    let open = office.ip_relay_mode(Some("True"), None);
    assert_eq!(open, Some(false));
    assert!(matches!(
        office.get_transport(open, None),
        MailTransport::OpenRelay { server, port: 2525 } if server == "smtp.office365.com"
    ));
    assert_eq!(office.get_transport(open, None).encryption(), Encryption::Off);
    let encrypted = office.ip_relay_mode(Some("true"), Some("true"));
    assert!(matches!(
        office.get_transport(encrypted, None),
        MailTransport::EncryptedRelay { port: 2525, .. }
    ));
    assert_eq!(office.get_transport(encrypted, None).encryption(), Encryption::WhereOffered);
}

#[test]
fn credentials_go_to_servers_that_ask() {
    let office = service("x.outlook.com", "me@example.com", "admin@example.com");
    assert!(matches!(
        office.get_transport(None, None),
        MailTransport::Office365 { hello, user, pass, mechanisms, .. }
            if hello == "localhost" && user == "me@example.com" && pass == "pw"
                && mechanisms == vec![MailMechanism::Login, MailMechanism::Plain]
    ));
    assert_eq!(office.get_transport(None, None).encryption(), Encryption::Required);
    assert!(matches!(
        office.get_transport(None, Some("host")),
        MailTransport::Office365 { hello, .. } if hello == "host"
    ));
    let other = service("mail.example", "me@example.com", "admin@example.com");
    assert!(!other.is_office365());
    assert!(matches!(
        other.get_transport(None, None),
        MailTransport::Authenticated { server, port: 2525, .. } if server == "mail.example"
    ));
    assert_eq!(other.get_transport(None, None).encryption(), Encryption::Required);
}

#[test]
fn letters_are_addressed() {
    let mail = service("mail.example", "Shop <me@example.com>", "admin@example.com");
    let alert = mail.send_error_alert("it broke");
    match &alert {
        Delivery::Send(letter) => {
            assert_eq!(letter.from.name.as_deref(), Some("Shop"));
            assert_eq!(letter.from.address, "me@example.com");
            assert_eq!(letter.to.name, None);
            assert_eq!(letter.to.address, "admin@example.com");
            assert_eq!(letter.subject, "Shopify Sync ERROR Alert");
            assert_eq!(letter.body, "it broke");
        }
        other => panic!("{:?}", other),
    }
    assert_eq!(mail.refusal(&alert), None);
    assert!(matches!(
        mail.send_report("Daily", "all well"),
        Delivery::Send(letter) if letter.subject == "Daily" && letter.body == "all well"
    ));
}

#[test]
fn faulty_addresses_are_refused() {
    let unset = service("mail.example", "", "admin@example.com");
    let nothing = unset.send_report("s", "b");
    assert!(matches!(nothing, Delivery::NotConfigured));
    assert_eq!(
        unset.refusal(&nothing).as_deref(),
        Some("Email service not fully configured. Skipping send.")
    );
    let odd = service("mail.example", "nobody", "admin@example.com");
    let refused = odd.send_report("s", "b");
    assert_eq!(
        odd.refusal(&refused).as_deref(),
        Some("Invalid SMTP_USER email format: 'nobody' - Error: Invalid input")
    );
    let lost = service("mail.example", "me@example.com", "a@b@c");
    let refused = lost.send_report("s", "b");
    assert_eq!(
        lost.refusal(&refused).as_deref(),
        Some("Invalid NOTIFICATION_EMAIL format: 'a@b@c' - Error: Invalid input")
    );
}

#[test]
fn letters_are_composed_of_given_addresses() {
    let mail = service("mail.example", "x", "y");
    let address = |a: &str| MailAddress { name: None, address: a.to_string() };
    assert!(matches!(
        mail.compose(Ok(address("f")), Ok(address("t")), "s", "b"),
        Delivery::Send(letter) if letter.from.address == "f" && letter.to.address == "t"
    ));
    assert!(matches!(
        mail.compose(Err("bad".to_string()), Err("worse".to_string()), "s", "b"),
        Delivery::InvalidSender(m) if m == "bad"
    ));
    assert!(matches!(
        mail.compose(Ok(address("f")), Err("worse".to_string()), "s", "b"),
        Delivery::InvalidRecipient(m) if m == "worse"
    ));
}
