//! Reply composition: the texts the bot sends, and the counter of replies
//! that the periodic announcement reads and resets.

use vstd::prelude::*;
use vstd::string::StringExecFns;

use crate::sanitize::{firsts, sanitize_spec, seconds, Parser};
use crate::strutil::{dec_str, join_with, u64_to_string};

verus! {

/// How long the announcement task sleeps between broadcasts, in seconds.
pub const ANNOUNCEMENT_INTERVAL_SECS: u64 = 259200;

/// The proof-of-work difficulty of announcements; they are rare, so they
/// are always stamped harder than user replies.
pub const ANNOUNCEMENT_POW_DIFFICULTY: u8 = 24;

/// How long a direct-message reply waits before it is sent, in seconds.
pub const DM_REPLY_DELAY_SECS: u64 = 2;

/// The text of a reply: the cleaned URLs and the removed fragments, each
/// under its own heading.
pub open spec fn format_reply_spec(urls: Seq<char>, diff: Seq<char>) -> Seq<char> {
    "🤖 Tracking strings detected and removed!\n\n🔗 Clean URL(s):\n"@ + urls
        + "\n\n❌ Removed parts:\n"@ + diff
}

/// The reply sent to a direct message that held nothing to clean.
pub open spec fn nothing_to_clean_spec() -> Seq<char> {
    "🤖 No tracking strings detected."@
}

/// The sanitization result of a text, joined for a reply: the cleaned URLs
/// separated by blank lines and the removed fragments separated by line
/// breaks; `None` when no link qualified.
pub open spec fn joined_pairs(text: Seq<char>) -> Option<(Seq<char>, Seq<char>)> {
    let pairs = sanitize_spec(text);
    if pairs.len() == 0 {
        None
    } else {
        Some((join_with(firsts(pairs), "\n\n"@), join_with(seconds(pairs), "\n"@)))
    }
}

/// The text of the reply to a direct message: the usual reply when a link
/// was cleaned, a fixed notice otherwise — a direct message always gets
/// exactly one response.
pub open spec fn dm_reply_spec(content: Seq<char>) -> Seq<char> {
    match joined_pairs(content) {
        Some(p) => format_reply_spec(p.0, p.1),
        None => nothing_to_clean_spec(),
    }
}

/// The text of the periodic announcement: the reply count of the interval
/// and a mention of the configured identity.
pub open spec fn announcement_spec(count: nat, mention: Seq<char>) -> Seq<char> {
    "This bot has replied to "@ + dec_str(count)
        + " events with tracking tokens in the last 3 days.\nZap this bot to incentivize development.\n@"@
        + mention
}

/// Formats one reply body from the joined cleaned URLs and the joined
/// removed fragments.
pub fn format_reply_text(cleaned_url: String, diff: String) -> (r: String)
    ensures
        r@ == format_reply_spec(cleaned_url@, diff@),
{
    let mut r = "🤖 Tracking strings detected and removed!\n\n🔗 Clean URL(s):\n".to_owned();
    r.append(cleaned_url.as_str());
    r.append("\n\n❌ Removed parts:\n");
    r.append(diff.as_str());
    proof {
        assert(r@ =~= format_reply_spec(cleaned_url@, diff@));
    }
    r
}

/// Sanitizes a text and joins the results: the cleaned URLs separated by
/// blank lines and the removed fragments separated by line breaks; `None`
/// when no link qualified.
pub fn sanitize_and_join_urls(note: &str) -> (r: Option<(String, String)>)
    ensures
        r.deep_view() == joined_pairs(note@),
{
    let parser = Parser::new();
    let pairs = parser.sanitize(note);
    if pairs.len() == 0 {
        return None;
    }
    let ghost pairs_v = sanitize_spec(note@);
    let mut urls: Vec<String> = Vec::new();
    let mut removeds: Vec<String> = Vec::new();
    let mut i: usize = 0;
    while i < pairs.len()
        invariant
            0 <= i <= pairs@.len(),
            pairs.deep_view() == pairs_v,
            urls@.len() == i,
            removeds@.len() == i,
            forall|k: int| 0 <= k < i ==> urls@[k]@ == pairs_v[k].0,
            forall|k: int| 0 <= k < i ==> removeds@[k]@ == pairs_v[k].1,
        decreases pairs@.len() - i,
    {
        urls.push(pairs[i].0.clone());
        removeds.push(pairs[i].1.clone());
        proof {
            assert(pairs.deep_view()[i as int] == pairs@[i as int].deep_view());
            assert(urls@[i as int]@ == pairs_v[i as int].0);
            assert(removeds@[i as int]@ == pairs_v[i as int].1);
        }
        i += 1;
    }
    proof {
        assert forall|k: int| 0 <= k < urls@.len() implies urls.deep_view()[k] == firsts(
            pairs_v,
        )[k] by {
            assert(urls.deep_view()[k] == urls@[k]@);
        }
        assert(urls.deep_view() =~= firsts(pairs_v));
        assert forall|k: int| 0 <= k < removeds@.len() implies removeds.deep_view()[k] == seconds(
            pairs_v,
        )[k] by {
            assert(removeds.deep_view()[k] == removeds@[k]@);
        }
        assert(removeds.deep_view() =~= seconds(pairs_v));
    }
    let joined_urls = crate::strutil::join_parts(&urls, "\n\n");
    let joined_removed = crate::strutil::join_parts(&removeds, "\n");
    Some((joined_urls, joined_removed))
}

/// Composes the reply to a direct message: the usual reply when a link was
/// cleaned, the fixed notice otherwise.
pub fn compose_dm_reply(content: &str) -> (r: String)
    ensures
        r@ == dm_reply_spec(content@),
{
    match sanitize_and_join_urls(content) {
        Some(p) => format_reply_text(p.0, p.1),
        None => "🤖 No tracking strings detected.".to_owned(),
    }
}

/// Composes the periodic announcement for a reply count and the identity
/// to mention.
pub fn compose_announcement(count: u64, mention: &str) -> (r: String)
    ensures
        r@ == announcement_spec(count as nat, mention@),
{
    let mut r = "This bot has replied to ".to_owned();
    let n = u64_to_string(count);
    r.append(n.as_str());
    r.append(
        " events with tracking tokens in the last 3 days.\nZap this bot to incentivize development.\n@",
    );
    r.append(mention);
    proof {
        assert(r@ =~= announcement_spec(count as nat, mention@));
    }
    r
}

/// The count of replies sent since the last announcement. The consumer
/// increments it once per reply; the announcement task reads and resets it
/// in one step.
pub struct ReplyCounter {
    count: u64,
}

impl View for ReplyCounter {
    type V = u64;

    closed spec fn view(&self) -> u64 {
        self.count
    }
}

impl ReplyCounter {
    /// A counter at zero.
    pub fn new() -> (r: ReplyCounter)
        ensures
            r@ == 0,
    {
        ReplyCounter { count: 0 }
    }

    /// The current count.
    pub fn get(&self) -> (n: u64)
        ensures
            n == self@,
    {
        self.count
    }

    /// Counts one more reply; no increment is lost.
    pub fn increment(&mut self)
        requires
            old(self)@ < u64::MAX,
        ensures
            final(self)@ == old(self)@ + 1,
    {
        self.count = self.count + 1;
    }

    /// Reads the count and resets it to zero, as one step.
    pub fn take_and_reset(&mut self) -> (n: u64)
        ensures
            n == old(self)@,
            final(self)@ == 0,
    {
        let n = self.count;
        self.count = 0;
        n
    }
}

} // verus!
