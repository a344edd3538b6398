//! The static site-rule table: for each recognized site, the hosts it is
//! served from and the query keys that only serve tracking.

use vstd::prelude::*;

verus! {

/// One recognized site: exact hosts, an optional accepted host suffix
/// (for sites that hand every user a subdomain), and the query keys
/// regarded as tracking parameters.
pub struct SiteRule {
    pub hosts: Vec<String>,
    pub host_suffix: Option<String>,
    pub tracking_params: Vec<String>,
}

/// The mathematical content of a `SiteRule`.
pub struct SiteRuleV {
    pub hosts: Seq<Seq<char>>,
    pub host_suffix: Option<Seq<char>>,
    pub tracking_params: Seq<Seq<char>>,
}

impl View for SiteRule {
    type V = SiteRuleV;

    open spec fn view(&self) -> SiteRuleV {
        SiteRuleV {
            hosts: self.hosts.deep_view(),
            host_suffix: self.host_suffix.deep_view(),
            tracking_params: self.tracking_params.deep_view(),
        }
    }
}

/// The views of a sequence of rules.
pub open spec fn rules_view(rs: Seq<SiteRule>) -> Seq<SiteRuleV> {
    rs.map_values(|r: SiteRule| r@)
}

/// The video-platform rule.
pub open spec fn youtube_rule() -> SiteRuleV {
    SiteRuleV {
        hosts: seq![
            "www.youtube.com"@,
            "youtube.com"@,
            "youtu.be"@,
            "yt.be"@,
            "m.youtube.com"@,
            "music.youtube.com"@,
        ],
        host_suffix: None,
        tracking_params: seq![
            "utm_source"@,
            "utm_medium"@,
            "utm_campaign"@,
            "utm_term"@,
            "utm_content"@,
            "feature"@,
            "gclid"@,
            "fbclid"@,
            "si"@,
            "pp"@,
        ],
    }
}

/// The microblogging-platform rule.
pub open spec fn twitter_rule() -> SiteRuleV {
    SiteRuleV {
        hosts: seq!["www.twitter.com"@, "twitter.com"@, "t.co"@, "x.com"@, "www.x.com"@],
        host_suffix: None,
        tracking_params: seq![
            "utm_source"@,
            "utm_medium"@,
            "utm_campaign"@,
            "utm_term"@,
            "utm_content"@,
            "s"@,
            "t"@,
            "src"@,
            "ref_src"@,
            "ref_url"@,
            "twclid"@,
        ],
    }
}

/// The photo-sharing-platform rule.
pub open spec fn instagram_rule() -> SiteRuleV {
    SiteRuleV {
        hosts: seq!["www.instagram.com"@, "instagram.com"@],
        host_suffix: None,
        tracking_params: seq![
            "utm_source"@,
            "utm_medium"@,
            "utm_campaign"@,
            "utm_term"@,
            "utm_content"@,
            "igshid"@,
            "fbclid"@,
            "_ga"@,
            "_gid"@,
        ],
    }
}

/// The audio-streaming-platform rule.
pub open spec fn spotify_rule() -> SiteRuleV {
    SiteRuleV {
        hosts: seq![
            "open.spotify.com"@,
            "play.spotify.com"@,
            "spotify.com"@,
            "www.spotify.com"@,
            "artist.spotify.com"@,
            "embed.spotify.com"@,
        ],
        host_suffix: None,
        tracking_params: seq![
            "si"@,
            "utm_source"@,
            "utm_medium"@,
            "utm_campaign"@,
            "utm_term"@,
            "utm_content"@,
            "feature"@,
            "nd"@,
            "context"@,
            "context_id"@,
            "sp_cid"@,
            "sp_ac"@,
            "sp_gaid"@,
            "sp_aid"@,
            "go"@,
            "fbclid"@,
            "product"@,
            "referral"@,
        ],
    }
}

/// The newsletter-platform rule: besides its two main hosts it accepts any
/// host ending in its root domain.
pub open spec fn substack_rule() -> SiteRuleV {
    SiteRuleV {
        hosts: seq!["www.substack.com"@, "substack.com"@],
        host_suffix: Some(".substack.com"@),
        tracking_params: seq![
            "utm_source"@,
            "utm_medium"@,
            "utm_campaign"@,
            "utm_term"@,
            "utm_content"@,
            "source"@,
            "r"@,
            "s"@,
        ],
    }
}

/// The whole rule table, in the order rules are tried.
pub open spec fn spec_rules() -> Seq<SiteRuleV> {
    seq![youtube_rule(), twitter_rule(), instagram_rule(), spotify_rule(), substack_rule()]
}

fn make_youtube_rule() -> (r: SiteRule)
    ensures
        r@ == youtube_rule(),
{
    let mut hosts: Vec<String> = Vec::new();
    hosts.push("www.youtube.com".to_owned());
    hosts.push("youtube.com".to_owned());
    hosts.push("youtu.be".to_owned());
    hosts.push("yt.be".to_owned());
    hosts.push("m.youtube.com".to_owned());
    hosts.push("music.youtube.com".to_owned());
    let mut params: Vec<String> = Vec::new();
    params.push("utm_source".to_owned());
    params.push("utm_medium".to_owned());
    params.push("utm_campaign".to_owned());
    params.push("utm_term".to_owned());
    params.push("utm_content".to_owned());
    params.push("feature".to_owned());
    params.push("gclid".to_owned());
    params.push("fbclid".to_owned());
    params.push("si".to_owned());
    params.push("pp".to_owned());
    let r = SiteRule { hosts, host_suffix: None, tracking_params: params };
    proof {
        assert(r@.hosts =~= youtube_rule().hosts);
        assert(r@.tracking_params =~= youtube_rule().tracking_params);
    }
    r
}

fn make_twitter_rule() -> (r: SiteRule)
    ensures
        r@ == twitter_rule(),
{
    let mut hosts: Vec<String> = Vec::new();
    hosts.push("www.twitter.com".to_owned());
    hosts.push("twitter.com".to_owned());
    hosts.push("t.co".to_owned());
    hosts.push("x.com".to_owned());
    hosts.push("www.x.com".to_owned());
    let mut params: Vec<String> = Vec::new();
    params.push("utm_source".to_owned());
    params.push("utm_medium".to_owned());
    params.push("utm_campaign".to_owned());
    params.push("utm_term".to_owned());
    params.push("utm_content".to_owned());
    params.push("s".to_owned());
    params.push("t".to_owned());
    params.push("src".to_owned());
    params.push("ref_src".to_owned());
    params.push("ref_url".to_owned());
    params.push("twclid".to_owned());
    let r = SiteRule { hosts, host_suffix: None, tracking_params: params };
    proof {
        assert(r@.hosts =~= twitter_rule().hosts);
        assert(r@.tracking_params =~= twitter_rule().tracking_params);
    }
    r
}

fn make_instagram_rule() -> (r: SiteRule)
    ensures
        r@ == instagram_rule(),
{
    let mut hosts: Vec<String> = Vec::new();
    hosts.push("www.instagram.com".to_owned());
    hosts.push("instagram.com".to_owned());
    let mut params: Vec<String> = Vec::new();
    params.push("utm_source".to_owned());
    params.push("utm_medium".to_owned());
    params.push("utm_campaign".to_owned());
    params.push("utm_term".to_owned());
    params.push("utm_content".to_owned());
    params.push("igshid".to_owned());
    params.push("fbclid".to_owned());
    params.push("_ga".to_owned());
    params.push("_gid".to_owned());
    let r = SiteRule { hosts, host_suffix: None, tracking_params: params };
    proof {
        assert(r@.hosts =~= instagram_rule().hosts);
        assert(r@.tracking_params =~= instagram_rule().tracking_params);
    }
    r
}

fn make_spotify_rule() -> (r: SiteRule)
    ensures
        r@ == spotify_rule(),
{
    let mut hosts: Vec<String> = Vec::new();
    hosts.push("open.spotify.com".to_owned());
    hosts.push("play.spotify.com".to_owned());
    hosts.push("spotify.com".to_owned());
    hosts.push("www.spotify.com".to_owned());
    hosts.push("artist.spotify.com".to_owned());
    hosts.push("embed.spotify.com".to_owned());
    let mut params: Vec<String> = Vec::new();
    params.push("si".to_owned());
    params.push("utm_source".to_owned());
    params.push("utm_medium".to_owned());
    params.push("utm_campaign".to_owned());
    params.push("utm_term".to_owned());
    params.push("utm_content".to_owned());
    params.push("feature".to_owned());
    params.push("nd".to_owned());
    params.push("context".to_owned());
    params.push("context_id".to_owned());
    params.push("sp_cid".to_owned());
    params.push("sp_ac".to_owned());
    params.push("sp_gaid".to_owned());
    params.push("sp_aid".to_owned());
    params.push("go".to_owned());
    params.push("fbclid".to_owned());
    params.push("product".to_owned());
    params.push("referral".to_owned());
    let r = SiteRule { hosts, host_suffix: None, tracking_params: params };
    proof {
        assert(r@.hosts =~= spotify_rule().hosts);
        assert(r@.tracking_params =~= spotify_rule().tracking_params);
    }
    r
}

fn make_substack_rule() -> (r: SiteRule)
    ensures
        r@ == substack_rule(),
{
    let mut hosts: Vec<String> = Vec::new();
    hosts.push("www.substack.com".to_owned());
    hosts.push("substack.com".to_owned());
    let mut params: Vec<String> = Vec::new();
    params.push("utm_source".to_owned());
    params.push("utm_medium".to_owned());
    params.push("utm_campaign".to_owned());
    params.push("utm_term".to_owned());
    params.push("utm_content".to_owned());
    params.push("source".to_owned());
    params.push("r".to_owned());
    params.push("s".to_owned());
    let r = SiteRule {
        hosts,
        host_suffix: Some(".substack.com".to_owned()),
        tracking_params: params,
    };
    proof {
        assert(r@.hosts =~= substack_rule().hosts);
        assert(r@.tracking_params =~= substack_rule().tracking_params);
    }
    r
}

/// Builds the rule table.
pub fn make_rules() -> (r: Vec<SiteRule>)
    ensures
        rules_view(r@) == spec_rules(),
{
    let mut r: Vec<SiteRule> = Vec::new();
    r.push(make_youtube_rule());
    r.push(make_twitter_rule());
    r.push(make_instagram_rule());
    r.push(make_spotify_rule());
    r.push(make_substack_rule());
    proof {
        assert(rules_view(r@) =~= spec_rules());
    }
    r
}

} // verus!
