//! Deciding what mail is sent, to whom, and by which way.
use vstd::prelude::*;
use vstd::string::*;

use crate::numbers::{decimal, is_digit, lemma_decimal, natural, parse_natural};
use crate::text::{
    ascii_small, contains, holds_text, is_plain, is_word, law_trim_takes_off_white_space, lower,
    optional, optional_str, trim, trimmed,
};

verus! {

/// A mail address, with the name that may stand before it.
#[derive(Debug)]
pub struct MailAddress {
    pub name: Option<String>,
    pub address: String,
}

/// The model of a mail address.
pub struct MailAddressView {
    pub name: Option<Seq<char>>,
    pub address: Seq<char>,
}

impl View for MailAddress {
    type V = MailAddressView;

    open spec fn view(&self) -> MailAddressView {
        MailAddressView { name: optional(self.name), address: self.address@ }
    }
}

/// The model of what reading a mail address gives.
pub open spec fn address_result(result: Result<MailAddress, String>) -> Result<
    MailAddressView,
    Seq<char>,
> {
    match result {
        Ok(address) => Ok(address@),
        Err(message) => Err(message@),
    }
}

/// What reading a text as a mail address gives: the address, or what is wrong.
pub uninterp spec fn mail_address(text: Seq<char>) -> Result<MailAddressView, Seq<char>>;

/// Reads a text as a `lettre::message::Mailbox`, by its `FromStr`. The name and
/// the address of the mailbox, or the message of the error, are named
/// `mail_address`.
#[verifier::external_body]
pub(crate) fn parse_address(text: &str) -> (result: Result<MailAddress, String>)
    ensures
        address_result(result) == mail_address(text@),
{
    match text.parse::<lettre::message::Mailbox>() {
        Ok(mailbox) => Ok(MailAddress { name: mailbox.name, address: mailbox.email.to_string() }),
        Err(error) => Err(error.to_string()),
    }
}

/// What the user has set about mail.
#[derive(Debug)]
pub struct MailSettings {
    pub server: Option<String>,
    pub user: Option<String>,
    pub pass: Option<String>,
    pub port: Option<String>,
    pub notification: Option<String>,
}

/// A setting without the white space around it, or what stands for one that is
/// not there.
pub open spec fn setting_or(setting: Option<Seq<char>>, default: Seq<char>) -> Seq<char> {
    match setting {
        Some(text) => trimmed(text),
        None => trimmed(default),
    }
}

fn setting_text(setting: &Option<String>, default: &str) -> (text: String)
    ensures
        text@ == setting_or(optional(*setting), default@),
{
    match setting {
        Some(value) => trim(value.as_str()).to_owned(),
        None => trim(default).to_owned(),
    }
}

/// The port that a setting asks for; 587 where it asks for none.
pub open spec fn port_of(setting: Option<Seq<char>>) -> nat {
    match natural(setting_or(setting, "587"@), 65535) {
        Some(port) => port,
        None => 587,
    }
}

/// The setting is the word "true", in capitals or not.
pub open spec fn is_switched_on(setting: Option<Seq<char>>) -> bool {
    lower(setting_or(setting, ""@)) == "true"@
}

/// Whether the setting is the word "true", in capitals or not.
pub fn switched_on(setting: Option<&str>) -> (on: bool)
    ensures
        on == is_switched_on(optional_str(setting)),
        is_plain(setting_or(optional_str(setting), ""@)) ==> on == (setting_or(
            optional_str(setting),
            ""@,
        ).map_values(|c: char| ascii_small(c)) == "true"@),
{
    let text = match setting {
        Some(value) => trim(value),
        None => trim(""),
    };
    is_word(text, "true")
}

/// A way of giving credentials to a server.
#[derive(Debug, Clone, Copy, PartialEq, Eq, Structural)]
pub enum MailMechanism {
    Login,
    Plain,
}

/// Whether a connection is encrypted.
#[derive(Debug, Clone, Copy, PartialEq, Eq, Structural)]
pub enum Encryption {
    /// It is not.
    Off,
    /// It is where the server offers it.
    WhereOffered,
    /// It is, or there is no connection.
    Required,
}

/// The way by which mail is sent.
#[derive(Debug)]
pub enum MailTransport {
    /// Without credentials, and not encrypted.
    OpenRelay { server: String, port: u16 },
    /// Encrypted where the server offers it, and without credentials.
    EncryptedRelay { server: String, port: u16 },
    /// Encrypted, with credentials given by one of some mechanisms, and a name by
    /// which the client greets the server.
    Office365 {
        server: String,
        port: u16,
        user: String,
        pass: String,
        mechanisms: Vec<MailMechanism>,
        hello: String,
    },
    /// Encrypted, with credentials given by the mechanisms that the client tries
    /// where none are set.
    Authenticated { server: String, port: u16, user: String, pass: String },
}

/// The model of the way by which mail is sent.
pub enum MailTransportView {
    OpenRelay { server: Seq<char>, port: u16 },
    EncryptedRelay { server: Seq<char>, port: u16 },
    Office365 {
        server: Seq<char>,
        port: u16,
        user: Seq<char>,
        pass: Seq<char>,
        mechanisms: Seq<MailMechanism>,
        hello: Seq<char>,
    },
    Authenticated { server: Seq<char>, port: u16, user: Seq<char>, pass: Seq<char> },
}

impl View for MailTransport {
    type V = MailTransportView;

    open spec fn view(&self) -> MailTransportView {
        match self {
            MailTransport::OpenRelay { server, port } => MailTransportView::OpenRelay {
                server: server@,
                port: *port,
            },
            MailTransport::EncryptedRelay { server, port } => MailTransportView::EncryptedRelay {
                server: server@,
                port: *port,
            },
            MailTransport::Office365 { server, port, user, pass, mechanisms, hello } =>
            MailTransportView::Office365 {
                server: server@,
                port: *port,
                user: user@,
                pass: pass@,
                mechanisms: mechanisms@,
                hello: hello@,
            },
            MailTransport::Authenticated { server, port, user, pass } =>
            MailTransportView::Authenticated {
                server: server@,
                port: *port,
                user: user@,
                pass: pass@,
            },
        }
    }
}

impl MailTransportView {
    /// Whether the connection is encrypted.
    pub open spec fn encrypted(self) -> Encryption {
        match self {
            MailTransportView::OpenRelay { .. } => Encryption::Off,
            MailTransportView::EncryptedRelay { .. } => Encryption::WhereOffered,
            MailTransportView::Office365 { .. } => Encryption::Required,
            MailTransportView::Authenticated { .. } => Encryption::Required,
        }
    }

    /// The user and the password that are given to the server.
    pub open spec fn given(self) -> Option<(Seq<char>, Seq<char>)> {
        match self {
            MailTransportView::Office365 { user, pass, .. } => Some((user, pass)),
            MailTransportView::Authenticated { user, pass, .. } => Some((user, pass)),
            _ => None,
        }
    }
}

impl MailTransport {
    /// Whether the connection is encrypted.
    pub fn encryption(&self) -> (encryption: Encryption)
        ensures
            encryption == self@.encrypted(),
    {
        match self {
            MailTransport::OpenRelay { .. } => Encryption::Off,
            MailTransport::EncryptedRelay { .. } => Encryption::WhereOffered,
            MailTransport::Office365 { .. } => Encryption::Required,
            MailTransport::Authenticated { .. } => Encryption::Required,
        }
    }
}

/// A letter that is to be sent.
#[derive(Debug)]
pub struct Letter {
    pub from: MailAddress,
    pub to: MailAddress,
    pub subject: String,
    pub body: String,
}

/// What is done about a letter.
#[derive(Debug)]
pub enum Delivery {
    /// A sender or a recipient is not set.
    NotConfigured,
    /// The sender is no mail address; what is wrong with it.
    InvalidSender(String),
    /// The recipient is no mail address; what is wrong with it.
    InvalidRecipient(String),
    /// The letter is sent.
    Send(Letter),
}

/// The model of what is done about a letter.
pub enum DeliveryView {
    NotConfigured,
    InvalidSender(Seq<char>),
    InvalidRecipient(Seq<char>),
    Send { from: MailAddressView, to: MailAddressView, subject: Seq<char>, body: Seq<char> },
}

impl View for Delivery {
    type V = DeliveryView;

    open spec fn view(&self) -> DeliveryView {
        match self {
            Delivery::NotConfigured => DeliveryView::NotConfigured,
            Delivery::InvalidSender(m) => DeliveryView::InvalidSender(m@),
            Delivery::InvalidRecipient(m) => DeliveryView::InvalidRecipient(m@),
            Delivery::Send(letter) => DeliveryView::Send {
                from: letter.from@,
                to: letter.to@,
                subject: letter.subject@,
                body: letter.body@,
            },
        }
    }
}

/// The sending of mail to the administrator.
#[derive(Debug)]
pub struct EmailService {
    pub sender_email: String,
    pub admin_email: String,
    /// The server, the user, the password and the port.
    pub mailer_config: (String, String, String, u16),
}

/// The model of the sending of mail.
pub struct EmailServiceView {
    pub sender: Seq<char>,
    pub admin: Seq<char>,
    pub server: Seq<char>,
    pub user: Seq<char>,
    pub pass: Seq<char>,
    pub port: u16,
}

impl View for EmailService {
    type V = EmailServiceView;

    open spec fn view(&self) -> EmailServiceView {
        EmailServiceView {
            sender: self.sender_email@,
            admin: self.admin_email@,
            server: self.mailer_config.0@,
            user: self.mailer_config.1@,
            pass: self.mailer_config.2@,
            port: self.mailer_config.3,
        }
    }
}

impl EmailServiceView {
    /// The server is one of Microsoft's.
    pub open spec fn uses_office365(self) -> bool {
        holds_text(self.server, "office365.com"@) || holds_text(self.server, "outlook.com"@)
            || holds_text(self.server, "microsoft.com"@)
    }

    /// The way by which mail is sent: `relay` says whether the server takes mail
    /// without credentials, and if so, whether encrypted.
    pub open spec fn transport(
        self,
        relay: Option<bool>,
        hello: Option<Seq<char>>,
    ) -> MailTransportView {
        match relay {
            Some(true) => MailTransportView::EncryptedRelay {
                server: self.server,
                port: self.port,
            },
            Some(false) => MailTransportView::OpenRelay { server: self.server, port: self.port },
            None => if self.uses_office365() {
                MailTransportView::Office365 {
                    server: self.server,
                    port: self.port,
                    user: self.user,
                    pass: self.pass,
                    mechanisms: seq![MailMechanism::Login, MailMechanism::Plain],
                    hello: match hello {
                        Some(name) => name,
                        None => "localhost"@,
                    },
                }
            } else {
                MailTransportView::Authenticated {
                    server: self.server,
                    port: self.port,
                    user: self.user,
                    pass: self.pass,
                }
            },
        }
    }

    /// What is done about a letter, where the sender and the recipient, read as
    /// mail addresses, are `from` and `to`.
    pub open spec fn delivery(
        self,
        from: Result<MailAddressView, Seq<char>>,
        to: Result<MailAddressView, Seq<char>>,
        subject: Seq<char>,
        body: Seq<char>,
    ) -> DeliveryView {
        if self.sender.len() == 0 || self.admin.len() == 0 {
            DeliveryView::NotConfigured
        } else {
            match (from, to) {
                (Err(m), _) => DeliveryView::InvalidSender(m),
                (Ok(_), Err(m)) => DeliveryView::InvalidRecipient(m),
                (Ok(from), Ok(to)) => DeliveryView::Send { from, to, subject, body },
            }
        }
    }

    /// What is done about a letter.
    pub open spec fn sends(self, subject: Seq<char>, body: Seq<char>) -> DeliveryView {
        self.delivery(mail_address(self.sender), mail_address(self.admin), subject, body)
    }
}

/// Whether the server takes mail without credentials, and if so, whether
/// encrypted.
pub open spec fn relay_mode(relay: Option<Seq<char>>, relay_tls: Option<Seq<char>>) -> Option<
    bool,
> {
    if is_switched_on(relay) {
        Some(is_switched_on(relay_tls))
    } else {
        None
    }
}

/// The sending of mail as the user has set it.
pub open spec fn mail_service(settings: MailSettings) -> EmailServiceView {
    EmailServiceView {
        sender: setting_or(optional(settings.user), ""@),
        admin: setting_or(optional(settings.notification), ""@),
        server: setting_or(optional(settings.server), "smtp.gmail.com"@),
        user: setting_or(optional(settings.user), ""@),
        pass: setting_or(optional(settings.pass), ""@),
        port: port_of(optional(settings.port)) as u16,
    }
}

impl EmailService {
    /// The sending of mail as the user has set it.
    pub fn new(settings: MailSettings) -> (service: Self)
        ensures
            service@ == mail_service(settings),
    {
        let server = setting_text(&settings.server, "smtp.gmail.com");
        let user = setting_text(&settings.user, "");
        let pass = setting_text(&settings.pass, "");
        let port_text = setting_text(&settings.port, "587");
        let port: u16 = match parse_natural(port_text.as_str(), 65535) {
            Some(n) => n as u16,
            None => 587,
        };
        let admin_email = setting_text(&settings.notification, "");
        EmailService {
            sender_email: user.clone(),
            admin_email,
            mailer_config: (server, user, pass, port),
        }
    }

    /// Whether the server is one of Microsoft's.
    pub fn is_office365(&self) -> (yes: bool)
        ensures
            yes == self@.uses_office365(),
    {
        let server = self.mailer_config.0.as_str();
        contains(server, "office365.com") || contains(server, "outlook.com") || contains(
            server,
            "microsoft.com",
        )
    }

    /// Whether the server takes mail without credentials, and if so, whether
    /// encrypted, as the user has set it.
    pub fn ip_relay_mode(&self, relay: Option<&str>, relay_tls: Option<&str>) -> (mode: Option<
        bool,
    >)
        ensures
            mode == relay_mode(optional_str(relay), optional_str(relay_tls)),
    {
        if switched_on(relay) {
            Some(switched_on(relay_tls))
        } else {
            None
        }
    }

    /// The way by which mail is sent. `hello` is the name by which the client is
    /// to greet the server.
    pub fn get_transport(&self, relay: Option<bool>, hello: Option<&str>) -> (transport:
        MailTransport)
        ensures
            transport@ == self@.transport(relay, optional_str(hello)),
    {
        let server = self.mailer_config.0.clone();
        let port = self.mailer_config.3;
        match relay {
            Some(true) => MailTransport::EncryptedRelay { server, port },
            Some(false) => MailTransport::OpenRelay { server, port },
            None => {
                let user = self.mailer_config.1.clone();
                let pass = self.mailer_config.2.clone();
                if self.is_office365() {
                    let name = match hello {
                        Some(name) => name.to_owned(),
                        None => "localhost".to_owned(),
                    };
                    let mechanisms: Vec<MailMechanism> = vec![
                        MailMechanism::Login,
                        MailMechanism::Plain,
                    ];
                    assert(mechanisms@ =~= seq![MailMechanism::Login, MailMechanism::Plain]);
                    MailTransport::Office365 { server, port, user, pass, mechanisms, hello: name }
                } else {
                    MailTransport::Authenticated { server, port, user, pass }
                }
            },
        }
    }

    /// What is done about a letter, where the sender and the recipient, read as
    /// mail addresses, are `from` and `to`.
    pub fn compose(
        &self,
        from: Result<MailAddress, String>,
        to: Result<MailAddress, String>,
        subject: &str,
        body: &str,
    ) -> (delivery: Delivery)
        ensures
            delivery@ == self@.delivery(
                address_result(from),
                address_result(to),
                subject@,
                body@,
            ),
    {
        if self.sender_email.as_str().is_empty() || self.admin_email.as_str().is_empty() {
            return Delivery::NotConfigured;
        }
        match from {
            Err(m) => Delivery::InvalidSender(m),
            Ok(from) => match to {
                Err(m) => Delivery::InvalidRecipient(m),
                Ok(to) => Delivery::Send(
                    Letter { from, to, subject: subject.to_owned(), body: body.to_owned() },
                ),
            },
        }
    }

    /// What is done about a letter.
    pub fn execute_send(&self, subject: &str, body: &str) -> (delivery: Delivery)
        ensures
            delivery@ == self@.sends(subject@, body@),
    {
        let from = parse_address(self.sender_email.as_str());
        let to = parse_address(self.admin_email.as_str());
        self.compose(from, to, subject, body)
    }

    /// What is done about the letter that reports an error.
    pub fn send_error_alert(&self, error_message: &str) -> (delivery: Delivery)
        ensures
            delivery@ == self@.sends("Shopify Sync ERROR Alert"@, error_message@),
    {
        self.execute_send("Shopify Sync ERROR Alert", error_message)
    }

    /// What is done about the letter that holds a report.
    pub fn send_report(&self, subject: &str, body: &str) -> (delivery: Delivery)
        ensures
            delivery@ == self@.sends(subject@, body@),
    {
        self.execute_send(subject, body)
    }

    /// What is noted where a letter is not sent.
    pub open spec fn note(self, delivery: DeliveryView) -> Option<Seq<char>> {
        match delivery {
            DeliveryView::NotConfigured => Some(
                "Email service not fully configured. Skipping send."@,
            ),
            DeliveryView::InvalidSender(m) => Some(
                "Invalid SMTP_USER email format: '"@ + self@.sender + "' - Error: "@ + m,
            ),
            DeliveryView::InvalidRecipient(m) => Some(
                "Invalid NOTIFICATION_EMAIL format: '"@ + self@.admin + "' - Error: "@ + m,
            ),
            DeliveryView::Send { .. } => None,
        }
    }

    /// What is noted where a letter is not sent.
    pub fn refusal(&self, delivery: &Delivery) -> (text: Option<String>)
        ensures
            optional(text) == self.note(delivery@),
    {
        match delivery {
            Delivery::NotConfigured => Some(
                "Email service not fully configured. Skipping send.".to_owned(),
            ),
            Delivery::InvalidSender(m) => {
                let mut text = "Invalid SMTP_USER email format: '".to_owned();
                text.append(self.sender_email.as_str());
                text.append("' - Error: ");
                text.append(m.as_str());
                Some(text)
            },
            Delivery::InvalidRecipient(m) => {
                let mut text = "Invalid NOTIFICATION_EMAIL format: '".to_owned();
                text.append(self.admin_email.as_str());
                text.append("' - Error: ");
                text.append(m.as_str());
                Some(text)
            },
            Delivery::Send(_) => None,
        }
    }
}

/// Where the server takes mail without credentials, none are given to it,
/// whatever server it is; else the user's are.
pub proof fn law_relay_gets_no_credentials(
    service: EmailServiceView,
    relay: Option<bool>,
    hello: Option<Seq<char>>,
)
    ensures
        service.transport(relay, hello).given() == if relay is Some {
            None
        } else {
            Some((service.user, service.pass))
        },
{
}

/// Credentials are given over an encrypted connection alone, and a connection
/// is without encryption only where the user has asked for an open relay.
pub proof fn law_credentials_are_encrypted(
    service: EmailServiceView,
    relay: Option<bool>,
    hello: Option<Seq<char>>,
)
    ensures
        service.transport(relay, hello).given() is Some ==> service.transport(
            relay,
            hello,
        ).encrypted() == Encryption::Required,
        service.transport(relay, hello).encrypted() == Encryption::Off <==> relay == Some(false),
{
}

/// A letter is sent exactly where both a sender and a recipient are set and are
/// mail addresses; then it goes from the one to the other, as it is.
pub proof fn law_letters_are_sent(
    service: EmailServiceView,
    from: Result<MailAddressView, Seq<char>>,
    to: Result<MailAddressView, Seq<char>>,
    subject: Seq<char>,
    body: Seq<char>,
)
    ensures
        ({
            let delivery = service.delivery(from, to, subject, body);
            let configured = service.sender.len() > 0 && service.admin.len() > 0;
            &&& delivery is Send <==> configured && from is Ok && to is Ok
            &&& delivery is NotConfigured <==> !configured
            &&& delivery matches DeliveryView::Send { from: f, to: t, subject: s, body: b } ==> f
                == from->Ok_0 && t == to->Ok_0 && s == subject && b == body
            &&& configured && from is Err ==> delivery == DeliveryView::InvalidSender(from->Err_0)
            &&& configured && from is Ok && to is Err ==> delivery
                == DeliveryView::InvalidRecipient(to->Err_0)
        }),
        service.sends(subject, body) == service.delivery(
            mail_address(service.sender),
            mail_address(service.admin),
            subject,
            body,
        ),
{
}

/// Mail goes through the server and the port that are set; a server of Microsoft's
/// is greeted with the given name, or with "localhost", and may choose between two
/// mechanisms.
pub proof fn law_mail_goes_through_the_set_server(
    service: EmailServiceView,
    relay: Option<bool>,
    hello: Option<Seq<char>>,
)
    ensures
        ({
            let microsoft = holds_text(service.server, "office365.com"@) || holds_text(
                service.server,
                "outlook.com"@,
            ) || holds_text(service.server, "microsoft.com"@);
            match service.transport(relay, hello) {
                MailTransportView::OpenRelay { server, port } => relay == Some(false) && server
                    == service.server && port == service.port,
                MailTransportView::EncryptedRelay { server, port } => relay == Some(true)
                    && server == service.server && port == service.port,
                MailTransportView::Office365 { server, port, user, pass, mechanisms, hello: name }
                => {
                    &&& relay is None && microsoft
                    &&& server == service.server && port == service.port
                    &&& user == service.user && pass == service.pass
                    &&& mechanisms.len() == 2 && mechanisms[0] == MailMechanism::Login
                        && mechanisms[1] == MailMechanism::Plain
                    &&& hello is Some ==> name == hello->0
                    &&& hello is None ==> name == "localhost"@
                },
                MailTransportView::Authenticated { server, port, user, pass } => relay is None
                    && !microsoft && server == service.server && port == service.port && user
                    == service.user && pass == service.pass,
            }
        }),
{
}

/// The port is the one that the setting writes, white space around it or not; a
/// setting that is none, or is not there, asks for the port 587.
pub proof fn law_port_is_the_set_one(port: u16, text: Seq<char>)
    ensures
        trimmed(text) == decimal(port as nat) ==> port_of(Some(text)) == port,
        natural(trimmed(text), 65535) is Some ==> port_of(Some(text)) == natural(
            trimmed(text),
            65535,
        )->0,
        natural(trimmed(text), 65535) is None ==> port_of(Some(text)) == 587,
        port_of(None) == 587,
{
    lemma_decimal(port as nat);
    assert(is_digit(decimal(port as nat)[0]));
    reveal_strlit("587");
    lemma_decimal(587);
    assert(decimal(5) =~= seq!['5']);
    assert(decimal(58) =~= seq!['5', '8']);
    assert(decimal(587) =~= seq!['5', '8', '7']);
    assert("587"@ =~= decimal(587));
    law_trim_takes_off_white_space(Seq::empty(), "587"@, Seq::empty());
    assert(Seq::<char>::empty() + "587"@ + Seq::<char>::empty() =~= "587"@);
}

/// The server takes mail without credentials exactly where the one setting is the
/// word "true", case and white space around it aside; then the other setting says in
/// the same way whether the connection is encrypted.
pub proof fn law_relay_is_switched_on(relay: Seq<char>, relay_tls: Seq<char>)
    ensures
        ({
            let mode = relay_mode(Some(relay), Some(relay_tls));
            &&& mode is Some <==> lower(trimmed(relay)) == "true"@
            &&& mode == Some(true) <==> lower(trimmed(relay)) == "true"@ && lower(
                trimmed(relay_tls),
            ) == "true"@
        }),
{
}

/// A setting counts without the white space around it.
pub proof fn law_settings_are_trimmed(text: Seq<char>, default: Seq<char>)
    ensures
        setting_or(Some(text), default) == trimmed(text),
        setting_or(None, default) == trimmed(default),
{
}

/// Where a letter is not sent, the reason is noted with the address that is to
/// blame.
pub proof fn law_unsent_letters_are_noted(service: EmailService, words: Seq<char>)
    ensures
        service.note(DeliveryView::NotConfigured) == Some(
            "Email service not fully configured. Skipping send."@,
        ),
        service.note(DeliveryView::InvalidSender(words)) == Some(
            "Invalid SMTP_USER email format: '"@ + service.sender_email@ + "' - Error: "@ + words,
        ),
        service.note(DeliveryView::InvalidRecipient(words)) == Some(
            "Invalid NOTIFICATION_EMAIL format: '"@ + service.admin_email@ + "' - Error: "@
                + words,
        ),
{
}

/// Mail is sent in the name of the set user to the set recipient, through the set
/// server with the user's credentials; without a server it is Google's, and without
/// a user or a recipient mail is not configured.
pub proof fn law_mail_is_sent_as_set(settings: MailSettings)
    ensures
        ({
            let service = mail_service(settings);
            &&& settings.user matches Some(user) ==> service.sender == trimmed(user@)
                && service.user == trimmed(user@)
            &&& settings.notification matches Some(to) ==> service.admin == trimmed(to@)
            &&& settings.server matches Some(server) ==> service.server == trimmed(server@)
            &&& settings.pass matches Some(pass) ==> service.pass == trimmed(pass@)
            &&& settings.server is None ==> service.server == "smtp.gmail.com"@
            &&& settings.user is None ==> service.sender.len() == 0
            &&& settings.notification is None ==> service.admin.len() == 0
            &&& service.port == port_of(optional(settings.port)) as u16
        }),
{
    reveal_strlit("smtp.gmail.com");
    reveal_strlit("");
    let nothing = Seq::<char>::empty();
    law_trim_takes_off_white_space(nothing, "smtp.gmail.com"@, nothing);
    assert(nothing + "smtp.gmail.com"@ + nothing =~= "smtp.gmail.com"@);
    assert(trimmed(""@).len() == 0);
}

} // verus!
