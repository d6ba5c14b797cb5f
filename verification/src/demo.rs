//! The sample messages of the demonstration.
use vstd::prelude::*;

use crate::email::{mails, Email, EmailBuilder, EmailBuilderV, EmailV};
use crate::text::texts;
use crate::threading::{build_thread_ids, with_thread_ids};
use crate::timestamp::{now, Timestamp, LAST_SECOND};

verus! {

broadcast use vstd::seq_lib::group_seq_properties;

impl Timestamp {
    /// The instant some hours before.
    pub open spec fn earlier(self, hours: int) -> Timestamp {
        Timestamp { secs: (self.secs - 3600 * hours) as i64, nanos: self.nanos }
    }
}

/// The instant some hours before.
fn before(t: Timestamp, hours: u8) -> (r: Timestamp)
    requires
        t.secs >= 0,
    ensures
        r == t.earlier(hours as int),
{
    Timestamp { secs: t.secs - 3600 * (hours as i64), nanos: t.nanos }
}

/// A message of the demonstration that starts a thread in the inbox.
pub open spec fn demo_mail(
    id: Seq<char>,
    from: Seq<char>,
    subject: Seq<char>,
    snippet: Seq<char>,
    date: Timestamp,
    message_id: Seq<char>,
) -> EmailBuilderV {
    EmailBuilderV {
        id,
        from,
        subject,
        snippet,
        date: Some(date),
        message_id: Some(message_id),
        in_reply_to: None,
        references: Seq::empty(),
        source_folder: "INBOX"@,
    }
}
/// The messages of the demonstration, before they are put into threads.
pub open spec fn demo_builders(now: Timestamp) -> Seq<EmailBuilderV> {
    seq![
        demo_mail(
            "demo_1"@,
            "GitHub <notifications@github.com>"@,
            "[rust-lang/rust] Fix ICE in pattern matching (PR #12345)"@,
            "@bors merged this pull request. The changes look good and all CI checks passed..."@,
            now.earlier(2),
            "<gh-pr-12345@github.com>"@,
        ),
        demo_mail(
            "demo_2"@,
            "GitHub <notifications@github.com>"@,
            "[tokio-rs/tokio] New issue: Memory leak in async runtime"@,
            "A new issue has been opened by @contributor. Steps to reproduce: 1. Create a new runtime..."@,
            now.earlier(5),
            "<gh-issue-456@github.com>"@,
        ),
        demo_mail(
            "demo_3"@,
            "GitHub <notifications@github.com>"@,
            "Your mass migration jobs are now available"@,
            "We're excited to announce that mass migration jobs are now available for your organization..."@,
            now.earlier(24),
            "<gh-announce-789@github.com>"@,
        ),
        demo_mail(
            "demo_4"@,
            "Linear <notify@linear.app>"@,
            "ENG-1234: Implement user authentication"@,
            "Status changed to In Review. Alice assigned this issue to you for final review..."@,
            now.earlier(1),
            "<linear-1234@linear.app>"@,
        ),
        demo_mail(
            "demo_5"@,
            "Linear <notify@linear.app>"@,
            "Weekly project digest - Sprint 42"@,
            "12 issues completed, 3 in progress, 5 remaining. Team velocity is up 15% from last week..."@,
            now.earlier(48),
            "<linear-digest@linear.app>"@,
        ),
        EmailBuilderV {
            in_reply_to: Some("<demo-sent-1@example.com>"@),
            references: seq!["<alice-orig@example.com>"@, "<demo-sent-1@example.com>"@],
            ..demo_mail(
                "demo_6"@,
                "Alice Chen <alice@example.com>"@,
                "Re: Coffee tomorrow?"@,
                "That works! How about the new place on Market St? I heard they have great espresso..."@,
                now.earlier(3),
                "<alice-reply-2@example.com>"@,
            )
        },
        demo_mail(
            "demo_7"@,
            "Alice Chen <alice@example.com>"@,
            "Coffee tomorrow?"@,
            "Hey! It's been a while. Want to grab coffee tomorrow afternoon? I'm free after 2pm..."@,
            now.earlier(26),
            "<alice-orig@example.com>"@,
        ),
        EmailBuilderV {
            in_reply_to: Some("<alice-orig@example.com>"@),
            references: seq!["<alice-orig@example.com>"@],
            source_folder: "[Gmail]/Sent Mail"@,
            ..demo_mail(
                "demo_sent_1"@,
                "Demo User <demo@example.com>"@,
                "Re: Coffee tomorrow?"@,
                "Sure! 3pm works for me. Any preference on location?"@,
                now.earlier(24),
                "<demo-sent-1@example.com>"@,
            )
        },
        demo_mail(
            "demo_8"@,
            "Stripe <receipts@stripe.com>"@,
            "Your receipt from Acme Corp"@,
            "Amount: $49.00. Thank you for your payment. Your subscription has been renewed..."@,
            now.earlier(48),
            "<stripe-receipt-1@stripe.com>"@,
        ),
        demo_mail(
            "demo_9"@,
            "Stripe <receipts@stripe.com>"@,
            "Your receipt from Cloud Services Inc"@,
            "Amount: $12.00. Payment successful. Your monthly invoice is attached..."@,
            now.earlier(168),
            "<stripe-receipt-2@stripe.com>"@,
        ),
        demo_mail(
            "demo_10"@,
            "Figma <no-reply@figma.com>"@,
            "Bob commented on 'Homepage Redesign'"@,
            "Bob: 'Love the new hero section! Can we try a darker shade for the CTA button?'..."@,
            now.earlier(4),
            "<figma-comment@figma.com>"@,
        ),
        demo_mail(
            "demo_11"@,
            "This Week in Rust <noreply@this-week-in-rust.org>"@,
            "This Week in Rust 542"@,
            "Hello and welcome to another issue of This Week in Rust! Updates from the community..."@,
            now.earlier(44),
            "<twir-542@this-week-in-rust.org>"@,
        ),
        demo_mail(
            "demo_12"@,
            "Amazon Web Services <no-reply@aws.amazon.com>"@,
            "AWS Billing Alert: Your costs exceeded the threshold"@,
            "Your AWS account has exceeded the billing threshold of $100.00. Current charges: $127.43..."@,
            now.earlier(18),
            "<aws-billing@aws.amazon.com>"@,
        ),
        demo_mail(
            "demo_13"@,
            "Slack <feedback@slack.com>"@,
            "Your daily digest from Acme Workspace"@,
            "You have 23 unread messages in 5 channels. #engineering: 12 new, #random: 5 new..."@,
            now.earlier(8),
            "<slack-digest@slack.com>"@,
        ),
        EmailBuilderV {
            in_reply_to: Some("<charlie-q4@company.com>"@),
            references: seq!["<demo-q4-orig@example.com>"@, "<charlie-q4@company.com>"@],
            ..demo_mail(
                "demo_14"@,
                "Bob Smith <bob@company.com>"@,
                "Re: Q4 Planning"@,
                "I agree with Charlie's points. We should focus on the API improvements first..."@,
                now.earlier(6),
                "<bob-q4-reply@company.com>"@,
            )
        },
        EmailBuilderV {
            in_reply_to: Some("<demo-q4-orig@example.com>"@),
            references: seq!["<demo-q4-orig@example.com>"@],
            ..demo_mail(
                "demo_15"@,
                "Charlie Davis <charlie@company.com>"@,
                "Re: Q4 Planning"@,
                "Great overview! I think we should prioritize items 2 and 3 for the first milestone..."@,
                now.earlier(21),
                "<charlie-q4@company.com>"@,
            )
        },
        EmailBuilderV {
            source_folder: "[Gmail]/Sent Mail"@,
            ..demo_mail(
                "demo_sent_2"@,
                "Demo User <demo@example.com>"@,
                "Q4 Planning"@,
                "Hi team, I wanted to share my thoughts on Q4 priorities..."@,
                now.earlier(24),
                "<demo-q4-orig@example.com>"@,
            )
        },
    ]
}

/// The messages of the demonstration.
pub open spec fn demo_emails(now: Timestamp) -> Seq<EmailV> {
    with_thread_ids(demo_builders(now).map_values(|b: EmailBuilderV| b.built_at(now)))
}

fn demo_builder(
    id: &str,
    from: &str,
    subject: &str,
    snippet: &str,
    date: Timestamp,
    message_id: &str,
) -> (r: EmailBuilder)
    ensures
        r@ == demo_mail(id@, from@, subject@, snippet@, date, message_id@),
{
    EmailBuilder::new().id(id).from(from).subject(subject).snippet(snippet).date(date).message_id(
        message_id,
    ).source_folder("INBOX")
}

fn one_text(a: &str) -> (r: Vec<String>)
    ensures
        texts(r@) == seq![a@],
{
    let mut r: Vec<String> = Vec::new();
    r.push(a.to_owned());
    assert(texts(r@) =~= seq![a@]);
    r
}

fn two_texts(a: &str, b: &str) -> (r: Vec<String>)
    ensures
        texts(r@) == seq![a@, b@],
{
    let mut r: Vec<String> = Vec::new();
    r.push(a.to_owned());
    r.push(b.to_owned());
    assert(texts(r@) =~= seq![a@, b@]);
    r
}

/// The messages of the demonstration, as seen at some time.
pub fn create_demo_emails_at(now: Timestamp) -> (r: Vec<Email>)
    requires
        now.secs >= 0,
    ensures
        mails(r@) == demo_emails(now),
{
    let mut all: Vec<EmailBuilder> = Vec::new();
    all.push(
        demo_builder(
            "demo_1",
            "GitHub <notifications@github.com>",
            "[rust-lang/rust] Fix ICE in pattern matching (PR #12345)",
            "@bors merged this pull request. The changes look good and all CI checks passed...",
            before(now, 2),
            "<gh-pr-12345@github.com>",
        ),
    );
    all.push(
        demo_builder(
            "demo_2",
            "GitHub <notifications@github.com>",
            "[tokio-rs/tokio] New issue: Memory leak in async runtime",
            "A new issue has been opened by @contributor. Steps to reproduce: 1. Create a new runtime...",
            before(now, 5),
            "<gh-issue-456@github.com>",
        ),
    );
    all.push(
        demo_builder(
            "demo_3",
            "GitHub <notifications@github.com>",
            "Your mass migration jobs are now available",
            "We're excited to announce that mass migration jobs are now available for your organization...",
            before(now, 24),
            "<gh-announce-789@github.com>",
        ),
    );
    all.push(
        demo_builder(
            "demo_4",
            "Linear <notify@linear.app>",
            "ENG-1234: Implement user authentication",
            "Status changed to In Review. Alice assigned this issue to you for final review...",
            before(now, 1),
            "<linear-1234@linear.app>",
        ),
    );
    all.push(
        demo_builder(
            "demo_5",
            "Linear <notify@linear.app>",
            "Weekly project digest - Sprint 42",
            "12 issues completed, 3 in progress, 5 remaining. Team velocity is up 15% from last week...",
            before(now, 48),
            "<linear-digest@linear.app>",
        ),
    );
    all.push(
        demo_builder(
            "demo_6",
            "Alice Chen <alice@example.com>",
            "Re: Coffee tomorrow?",
            "That works! How about the new place on Market St? I heard they have great espresso...",
            before(now, 3),
            "<alice-reply-2@example.com>",
        ).in_reply_to("<demo-sent-1@example.com>").references(two_texts("<alice-orig@example.com>", "<demo-sent-1@example.com>")),
    );
    all.push(
        demo_builder(
            "demo_7",
            "Alice Chen <alice@example.com>",
            "Coffee tomorrow?",
            "Hey! It's been a while. Want to grab coffee tomorrow afternoon? I'm free after 2pm...",
            before(now, 26),
            "<alice-orig@example.com>",
        ),
    );
    all.push(
        demo_builder(
            "demo_sent_1",
            "Demo User <demo@example.com>",
            "Re: Coffee tomorrow?",
            "Sure! 3pm works for me. Any preference on location?",
            before(now, 24),
            "<demo-sent-1@example.com>",
        ).in_reply_to("<alice-orig@example.com>").references(one_text("<alice-orig@example.com>")).source_folder("[Gmail]/Sent Mail"),
    );
    all.push(
        demo_builder(
            "demo_8",
            "Stripe <receipts@stripe.com>",
            "Your receipt from Acme Corp",
            "Amount: $49.00. Thank you for your payment. Your subscription has been renewed...",
            before(now, 48),
            "<stripe-receipt-1@stripe.com>",
        ),
    );
    all.push(
        demo_builder(
            "demo_9",
            "Stripe <receipts@stripe.com>",
            "Your receipt from Cloud Services Inc",
            "Amount: $12.00. Payment successful. Your monthly invoice is attached...",
            before(now, 168),
            "<stripe-receipt-2@stripe.com>",
        ),
    );
    all.push(
        demo_builder(
            "demo_10",
            "Figma <no-reply@figma.com>",
            "Bob commented on 'Homepage Redesign'",
            "Bob: 'Love the new hero section! Can we try a darker shade for the CTA button?'...",
            before(now, 4),
            "<figma-comment@figma.com>",
        ),
    );
    all.push(
        demo_builder(
            "demo_11",
            "This Week in Rust <noreply@this-week-in-rust.org>",
            "This Week in Rust 542",
            "Hello and welcome to another issue of This Week in Rust! Updates from the community...",
            before(now, 44),
            "<twir-542@this-week-in-rust.org>",
        ),
    );
    all.push(
        demo_builder(
            "demo_12",
            "Amazon Web Services <no-reply@aws.amazon.com>",
            "AWS Billing Alert: Your costs exceeded the threshold",
            "Your AWS account has exceeded the billing threshold of $100.00. Current charges: $127.43...",
            before(now, 18),
            "<aws-billing@aws.amazon.com>",
        ),
    );
    all.push(
        demo_builder(
            "demo_13",
            "Slack <feedback@slack.com>",
            "Your daily digest from Acme Workspace",
            "You have 23 unread messages in 5 channels. #engineering: 12 new, #random: 5 new...",
            before(now, 8),
            "<slack-digest@slack.com>",
        ),
    );
    all.push(
        demo_builder(
            "demo_14",
            "Bob Smith <bob@company.com>",
            "Re: Q4 Planning",
            "I agree with Charlie's points. We should focus on the API improvements first...",
            before(now, 6),
            "<bob-q4-reply@company.com>",
        ).in_reply_to("<charlie-q4@company.com>").references(two_texts("<demo-q4-orig@example.com>", "<charlie-q4@company.com>")),
    );
    all.push(
        demo_builder(
            "demo_15",
            "Charlie Davis <charlie@company.com>",
            "Re: Q4 Planning",
            "Great overview! I think we should prioritize items 2 and 3 for the first milestone...",
            before(now, 21),
            "<charlie-q4@company.com>",
        ).in_reply_to("<demo-q4-orig@example.com>").references(one_text("<demo-q4-orig@example.com>")),
    );
    all.push(
        demo_builder(
            "demo_sent_2",
            "Demo User <demo@example.com>",
            "Q4 Planning",
            "Hi team, I wanted to share my thoughts on Q4 priorities...",
            before(now, 24),
            "<demo-q4-orig@example.com>",
        ).source_folder("[Gmail]/Sent Mail"),
    );
    let ghost wanted = demo_builders(now);
    assert(all@.map_values(|b: EmailBuilder| b@) =~= wanted);
    let mut emails: Vec<Email> = Vec::new();
    for builder in it: all
        invariant
            it.seq().map_values(|b: EmailBuilder| b@) == wanted,
            emails@.len() == it.index(),
            forall|k: int|
                0 <= k < it.index() ==> (#[trigger] emails@[k])@ == wanted[k].built_at(now),
    {
        assert(wanted[it.index() as int] == builder@);
        emails.push(builder.build_at(now));
    }
    assert(mails(emails@) =~= wanted.map_values(|b: EmailBuilderV| b.built_at(now)));
    build_thread_ids(&mut emails);
    emails
}

/// The messages of the demonstration, as seen now.
pub fn create_demo_emails() -> (r: Vec<Email>)
    ensures
        exists|now: Timestamp|
            0 <= now.secs <= LAST_SECOND && mails(r@) == #[trigger] demo_emails(now),
{
    create_demo_emails_at(now())
}

} // verus!
