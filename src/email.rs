use vstd::prelude::*;

use crate::app_config::AppConfig;

verus! {

/// The SMTP account that sends reports.
#[derive(Debug, Clone, PartialEq, Eq)]
pub struct EmailClient {
    pub username: String,
    pub password: String,
    pub smtp_host: String,
    pub smtp_port: u16,
}

impl EmailClient {
    pub fn new(username: &str, password: &str, smtp_host: &str, smtp_port: u16) -> (r: EmailClient)
        ensures
            r.username@ == username@,
            r.password@ == password@,
            r.smtp_host@ == smtp_host@,
            r.smtp_port == smtp_port,
    {
        EmailClient {
            username: String::from_str(username),
            password: String::from_str(password),
            smtp_host: String::from_str(smtp_host),
            smtp_port,
        }
    }
}

/// An HTML message to the given blind-copy recipients.
#[derive(Debug, Clone, PartialEq, Eq)]
pub struct EmailMessage {
    pub to_addresses: Vec<String>,
    pub content: String,
    pub subject: String,
}

impl EmailMessage {
    pub fn new(to_address: Vec<String>, subject: &str, content: &str) -> (r: EmailMessage)
        ensures
            r.to_addresses == to_address,
            r.subject@ == subject@,
            r.content@ == content@,
    {
        EmailMessage {
            to_addresses: to_address,
            content: String::from_str(content),
            subject: String::from_str(subject),
        }
    }
}

pub open spec fn error_subject(hostname: Seq<char>) -> Seq<char> {
    "[FAILURE] xdxd-snapshot-rotator | An error occurred on `"@ + hostname + "`."@
}

pub open spec fn success_subject(vm_name: Seq<char>, hostname: Seq<char>) -> Seq<char> {
    "[SUCCESS] xdxd-snapshot-rotator | Snapshot was created for vm `"@ + vm_name + "` on host `"@
        + hostname + "`."@
}

/// The subject of the report of a failure on a host.
pub fn error_report_subject(hostname: &str) -> (r: String)
    ensures
        r@ == error_subject(hostname@),
{
    let mut s = String::from_str("[FAILURE] xdxd-snapshot-rotator | An error occurred on `");
    s.append(hostname);
    s.append("`.");
    s
}

/// The subject of the report of a snapshot made of a machine on a host.
pub fn success_report_subject(vm_name: &str, hostname: &str) -> (r: String)
    ensures
        r@ == success_subject(vm_name@, hostname@),
{
    let mut s = String::from_str("[SUCCESS] xdxd-snapshot-rotator | Snapshot was created for vm `");
    s.append(vm_name);
    s.append("` on host `");
    s.append(hostname);
    s.append("`.");
    s
}

/// The account and message that mail a report with the configured settings
/// to every configured recipient.
pub fn send_mail(config: &AppConfig, subject: &str, content: &str) -> (r: (EmailClient, EmailMessage))
    ensures
        r.0.username@ == config.email_config.smtp_username@,
        r.0.password@ == config.email_config.smtp_password@,
        r.0.smtp_host@ == config.email_config.smtp_host@,
        r.0.smtp_port == config.email_config.smtp_port,
        r.1.to_addresses@ == config.email_config.notification_emails@,
        r.1.subject@ == subject@,
        r.1.content@ == content@,
{
    let e = &config.email_config;
    let client = EmailClient::new(e.smtp_username.as_str(), e.smtp_password.as_str(), e.smtp_host.as_str(), e.smtp_port);
    let mut to: Vec<String> = Vec::new();
    let mut i: usize = 0;
    while i < e.notification_emails.len()
        invariant
            i <= e.notification_emails.len(),
            to@ == e.notification_emails@.take(i as int),
        decreases e.notification_emails.len() - i,
    {
        to.push(e.notification_emails[i].clone());
        i = i + 1;
        assert(to@ =~= e.notification_emails@.take(i as int));
    }
    assert(e.notification_emails@.take(i as int) =~= e.notification_emails@);
    (client, EmailMessage::new(to, subject, content))
}

} // verus!
