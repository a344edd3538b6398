//! The URL sanitization engine: finds links in free text, matches each
//! against the site-rule table, and strips the tracking parameters while
//! keeping every other query parameter in its original order.
//!
//! Link extraction and URL parsing are done by outside crates; everything
//! they return is modelled by the names `links_in` and `url_parts_of`, and
//! all decisions taken on those values are verified.

use vstd::prelude::*;
use vstd::string::StringExecFns;

use crate::rules::{
    make_rules, rules_view, spec_rules, youtube_rule, twitter_rule, instagram_rule, spotify_rule,
    substack_rule, SiteRule, SiteRuleV,
};
use crate::strutil::{
    ends_with_str, eq_str, find_char, find_char_in, has_suffix, join_parts, join_with, key_of,
    lemma_filter_elems, lemma_filter_none, lemma_filter_push, lemma_find_char,
    lemma_split_of_join, lemma_split_on_props, split_on, split_str,
};

verus! {

/// The parts of a parsed URL that the engine reads: the serialization up to
/// (but not including) any `?` or `#`, the host, the raw query, and the
/// fragment.
pub struct UrlParts {
    pub prefix: String,
    pub host: String,
    pub query: Option<String>,
    pub fragment: Option<String>,
}

/// The mathematical content of `UrlParts`.
pub struct UrlPartsV {
    pub prefix: Seq<char>,
    pub host: Seq<char>,
    pub query: Option<Seq<char>>,
    pub fragment: Option<Seq<char>>,
}

impl View for UrlParts {
    type V = UrlPartsV;

    open spec fn view(&self) -> UrlPartsV {
        UrlPartsV {
            prefix: self.prefix@,
            host: self.host@,
            query: self.query.deep_view(),
            fragment: self.fragment.deep_view(),
        }
    }
}

/// The URL substrings that link extraction finds in `text`, in order of
/// appearance.
pub uninterp spec fn links_in(text: Seq<char>) -> Seq<Seq<char>>;

/// The parts a link splits into when it parses as a URL; `None` when it is
/// malformed.
pub uninterp spec fn url_parts_of(link: Seq<char>) -> Option<UrlPartsV>;

/// Relies on linkify's `LinkFinder`, restricted to the URL kind: it scans
/// the text for URLs and yields them in order of appearance, and its result
/// depends on the text alone.
#[verifier::external_body]
fn find_links(text: &str) -> (r: Vec<String>)
    ensures
        r.deep_view() == links_in(text@),
{
    let mut finder = linkify::LinkFinder::new();
    finder.kinds(&[linkify::LinkKind::Url]);
    finder.links(text).map(|l| l.as_str().to_owned()).collect()
}

/// Relies on url's `Url::parse` and its accessors `host_str`, `query`,
/// `fragment`, `set_query`, `set_fragment` and the serialization: a link
/// that parses splits into the serialization before the query, the host
/// (empty when the URL has none), the raw query and the fragment; a
/// malformed link gives `None`. The result depends on the link text alone.
#[verifier::external_body]
fn parse_link(link: &str) -> (r: Option<UrlParts>)
    ensures
        (r is Some) == (url_parts_of(link@) is Some),
        r matches Some(p) ==> Some(p@) == url_parts_of(link@),
{
    match url::Url::parse(link) {
        Ok(mut u) => {
            let host = u.host_str().unwrap_or("").to_owned();
            let query = u.query().map(|q| q.to_owned());
            let fragment = u.fragment().map(|f| f.to_owned());
            u.set_query(None);
            u.set_fragment(None);
            Some(UrlParts { prefix: u.to_string(), host, query, fragment })
        },
        Err(_) => None,
    }
}

/// Whether `comp` (one `key=value` component of a query) is a tracking
/// parameter under `rule`.
pub open spec fn is_tracked(rule: SiteRuleV, comp: Seq<char>) -> bool {
    rule.tracking_params.contains(key_of(comp))
}

/// The query components that survive cleaning under `rule`.
pub open spec fn kept_of(rule: SiteRuleV, comps: Seq<Seq<char>>) -> Seq<Seq<char>> {
    comps.filter(|c: Seq<char>| !is_tracked(rule, c))
}

/// The query components that cleaning under `rule` removes.
pub open spec fn removed_of(rule: SiteRuleV, comps: Seq<Seq<char>>) -> Seq<Seq<char>> {
    comps.filter(|c: Seq<char>| is_tracked(rule, c))
}

/// Whether `rule` recognizes `host`: either an exact listed host, or, when
/// the rule has a host suffix, any host ending in it.
pub open spec fn rule_matches_host(rule: SiteRuleV, host: Seq<char>) -> bool {
    rule.hosts.contains(host) || match rule.host_suffix {
        Some(sfx) => has_suffix(host, sfx),
        None => false,
    }
}

/// The cleaned URL: the prefix, then the kept components joined with `&`
/// behind a `?` (omitted entirely when nothing is kept), then the fragment
/// behind a `#` if there was one.
pub open spec fn rebuilt_url(
    prefix: Seq<char>,
    kept: Seq<Seq<char>>,
    fragment: Option<Seq<char>>,
) -> Seq<char> {
    prefix + (if kept.len() == 0 {
        Seq::<char>::empty()
    } else {
        seq!['?'] + join_with(kept, seq!['&'])
    }) + (match fragment {
        Some(f) => seq!['#'] + f,
        None => Seq::<char>::empty(),
    })
}

/// What cleaning one parsed URL against one rule yields: `None` when the
/// host is not recognized or no tracking parameter is present, otherwise
/// the cleaned URL paired with the removed components joined with `&`.
pub open spec fn clean_against(rule: SiteRuleV, u: UrlPartsV) -> Option<(Seq<char>, Seq<char>)> {
    if !rule_matches_host(rule, u.host) {
        None
    } else {
        match u.query {
            None => None,
            Some(q) => {
                let comps = split_on(q, '&');
                if removed_of(rule, comps).len() == 0 {
                    None
                } else {
                    Some(
                        (
                            rebuilt_url(u.prefix, kept_of(rule, comps), u.fragment),
                            join_with(removed_of(rule, comps), seq!['&']),
                        ),
                    )
                }
            },
        }
    }
}

/// The first rule in table order that cleans `u`, if any; rule host sets
/// are disjoint in practice, so at most one rule applies anyway.
pub open spec fn first_clean(rules: Seq<SiteRuleV>, u: UrlPartsV) -> Option<(Seq<char>, Seq<char>)>
    decreases rules.len(),
{
    if rules.len() == 0 {
        None
    } else {
        match clean_against(rules[0], u) {
            Some(p) => Some(p),
            None => first_clean(rules.drop_first(), u),
        }
    }
}

/// The pairs one link contributes: none when it is malformed or no rule
/// cleans it, one otherwise.
pub open spec fn link_pairs(rules: Seq<SiteRuleV>, link: Seq<char>) -> Seq<(Seq<char>, Seq<char>)> {
    match url_parts_of(link) {
        None => Seq::empty(),
        Some(u) => match first_clean(rules, u) {
            Some(p) => seq![p],
            None => Seq::empty(),
        },
    }
}

/// The pairs a sequence of links contributes, in link order.
pub open spec fn links_pairs(rules: Seq<SiteRuleV>, links: Seq<Seq<char>>) -> Seq<
    (Seq<char>, Seq<char>),
>
    decreases links.len(),
{
    if links.len() == 0 {
        Seq::empty()
    } else {
        link_pairs(rules, links[0]) + links_pairs(rules, links.drop_first())
    }
}

/// What sanitizing a text yields: one `(cleaned URL, removed fragment)`
/// pair per link that a rule cleans, in order of appearance in the text.
pub open spec fn sanitize_spec(text: Seq<char>) -> Seq<(Seq<char>, Seq<char>)> {
    links_pairs(spec_rules(), links_in(text))
}

/// The cleaned URLs of a pair sequence, in order.
pub open spec fn firsts(pairs: Seq<(Seq<char>, Seq<char>)>) -> Seq<Seq<char>> {
    Seq::new(pairs.len(), |i: int| pairs[i].0)
}

/// The removed fragments of a pair sequence, in order.
pub open spec fn seconds(pairs: Seq<(Seq<char>, Seq<char>)>) -> Seq<Seq<char>> {
    Seq::new(pairs.len(), |i: int| pairs[i].1)
}

/// The cleaned URLs of `sanitize_spec(text)` joined with blank lines;
/// `None` when no link qualified.
pub open spec fn cleaned_joined(text: Seq<char>) -> Option<Seq<char>> {
    let pairs = sanitize_spec(text);
    if pairs.len() == 0 {
        None
    } else {
        Some(join_with(firsts(pairs), "\n\n"@))
    }
}

/// What cleaning one link against one rule alone yields, keeping only the
/// cleaned URL.
pub open spec fn site_clean(rule: SiteRuleV, link: Seq<char>) -> Option<Seq<char>> {
    match url_parts_of(link) {
        None => None,
        Some(u) => match clean_against(rule, u) {
            Some(p) => Some(p.0),
            None => None,
        },
    }
}

fn host_in_list(hosts: &Vec<String>, host: &String) -> (r: bool)
    ensures
        r == hosts.deep_view().contains(host@),
{
    let mut i: usize = 0;
    while i < hosts.len()
        invariant
            0 <= i <= hosts@.len(),
            forall|j: int| 0 <= j < i ==> hosts.deep_view()[j] != host@,
        decreases hosts@.len() - i,
    {
        if eq_str(hosts[i].as_str(), host.as_str()) {
            proof {
                assert(hosts.deep_view()[i as int] == host@);
            }
            return true;
        }
        i += 1;
    }
    proof {
        if hosts.deep_view().contains(host@) {
            let j = choose|j: int|
                0 <= j < hosts.deep_view().len() && hosts.deep_view()[j] == host@;
            assert(hosts.deep_view()[j] != host@);
        }
    }
    false
}

fn matches_host(rule: &SiteRule, host: &String) -> (r: bool)
    ensures
        r == rule_matches_host(rule@, host@),
{
    if host_in_list(&rule.hosts, host) {
        return true;
    }
    match &rule.host_suffix {
        Some(sfx) => ends_with_str(host.as_str(), sfx.as_str()),
        None => false,
    }
}

/// The key of one query component: everything before the first `=`, or the
/// whole component when it has none.
fn comp_key<'a>(comp: &'a str) -> (r: &'a str)
    ensures
        r@ == key_of(comp@),
{
    match find_char_in(comp, '=') {
        Some(i) => {
            proof {
                lemma_find_char(comp@, '=');
            }
            comp.substring_char(0, i)
        },
        None => comp,
    }
}

fn is_tracked_exec(rule: &SiteRule, comp: &str) -> (r: bool)
    ensures
        r == is_tracked(rule@, comp@),
{
    let key = comp_key(comp);
    let params = &rule.tracking_params;
    let mut i: usize = 0;
    while i < params.len()
        invariant
            0 <= i <= params@.len(),
            params.deep_view() == rule@.tracking_params,
            key@ == key_of(comp@),
            forall|j: int| 0 <= j < i ==> params.deep_view()[j] != key@,
        decreases params@.len() - i,
    {
        if eq_str(params[i].as_str(), key) {
            proof {
                assert(params@[i as int]@ == key_of(comp@));
                assert(params.deep_view()[i as int] == params@[i as int].deep_view());
                assert(rule@.tracking_params.contains(key_of(comp@)));
            }
            return true;
        }
        i += 1;
    }
    proof {
        if rule@.tracking_params.contains(key_of(comp@)) {
            let j = choose|j: int|
                0 <= j < params.deep_view().len() && params.deep_view()[j] == key@;
            assert(params.deep_view()[j] != key@);
        }
    }
    false
}

/// Cleans one parsed URL against one rule.
fn clean_with_rule(rule: &SiteRule, u: &UrlParts) -> (r: Option<(String, String)>)
    ensures
        r.deep_view() == clean_against(rule@, u@),
{
    if !matches_host(rule, &u.host) {
        return None;
    }
    let q: &String = match &u.query {
        Some(q) => q,
        None => {
            return None;
        },
    };
    let comps = split_str(q.as_str(), '&');
    let ghost comps_v = split_on(q@, '&');
    let mut kept: Vec<String> = Vec::new();
    let mut removed: Vec<String> = Vec::new();
    let mut i: usize = 0;
    while i < comps.len()
        invariant
            0 <= i <= comps@.len(),
            comps.deep_view() == comps_v,
            kept.deep_view() == kept_of(rule@, comps_v.take(i as int)),
            removed.deep_view() == removed_of(rule@, comps_v.take(i as int)),
        decreases comps@.len() - i,
    {
        let ghost prefix = comps_v.take(i as int);
        proof {
            assert(comps_v.take(i as int + 1) =~= prefix.push(comps_v[i as int]));
            lemma_filter_push(prefix, |c: Seq<char>| !is_tracked(rule@, c), comps_v[i as int]);
            lemma_filter_push(prefix, |c: Seq<char>| is_tracked(rule@, c), comps_v[i as int]);
            assert(comps@[i as int]@ == comps_v[i as int]);
        }
        if is_tracked_exec(rule, comps[i].as_str()) {
            removed.push(comps[i].clone());
            proof {
                assert(removed.deep_view() =~= removed_of(rule@, comps_v.take(i as int + 1)));
            }
        } else {
            kept.push(comps[i].clone());
            proof {
                assert(kept.deep_view() =~= kept_of(rule@, comps_v.take(i as int + 1)));
            }
        }
        i += 1;
    }
    proof {
        assert(comps_v.take(comps_v.len() as int) =~= comps_v);
    }
    if removed.len() == 0 {
        proof {
            assert(removed_of(rule@, comps_v).len() == 0);
        }
        return None;
    }
    let removed_join = join_parts(&removed, "&");
    let mut cleaned = u.prefix.clone();
    if kept.len() > 0 {
        cleaned.append("?");
        let kq = join_parts(&kept, "&");
        cleaned.append(kq.as_str());
    }
    match &u.fragment {
        Some(f) => {
            cleaned.append("#");
            cleaned.append(f.as_str());
        },
        None => {},
    }
    proof {
        reveal_strlit("?");
        reveal_strlit("#");
        reveal_strlit("&");
        assert("&"@ =~= seq!['&']);
        assert("?"@ =~= seq!['?']);
        assert("#"@ =~= seq!['#']);
        assert(cleaned@ =~= rebuilt_url(u@.prefix, kept_of(rule@, comps_v), u@.fragment));
        assert(removed_join@ =~= join_with(removed_of(rule@, comps_v), seq!['&']));
    }
    Some((cleaned, removed_join))
}

/// The sanitization engine and the rule table it runs on.
pub struct Parser {
    rules: Vec<SiteRule>,
}

impl Parser {
    /// The parser holds exactly the rule table.
    pub closed spec fn wf(&self) -> bool {
        rules_view(self.rules@) == spec_rules()
    }

    /// Builds a parser over the rule table.
    pub fn new() -> (r: Parser)
        ensures
            r.wf(),
    {
        Parser { rules: make_rules() }
    }

    /// Cleans one link: parses it and applies the first rule that matches.
    fn clean_link(&self, link: &str) -> (r: Option<(String, String)>)
        requires
            self.wf(),
        ensures
            r.deep_view() == match url_parts_of(link@) {
                None => None::<(Seq<char>, Seq<char>)>,
                Some(u) => first_clean(spec_rules(), u),
            },
    {
        let parts = match parse_link(link) {
            Some(p) => p,
            None => {
                return None;
            },
        };
        let ghost u = parts@;
        let n = self.rules.len();
        proof {
            assert(rules_view(self.rules@).len() == spec_rules().len());
        }
        let mut i: usize = 0;
        while i < n
            invariant
                self.wf(),
                n == self.rules@.len(),
                n == spec_rules().len(),
                0 <= i <= n,
                parts@ == u,
                url_parts_of(link@) == Some(u),
                forall|j: int| 0 <= j < i ==> clean_against(spec_rules()[j], u) is None,
            decreases n - i,
        {
            proof {
                assert(self.rules@[i as int]@ == rules_view(self.rules@)[i as int]);
            }
            match clean_with_rule(&self.rules[i], &parts) {
                Some(p) => {
                    proof {
                        lemma_first_clean_at(spec_rules(), u, i as int);
                    }
                    return Some(p);
                },
                None => {},
            }
            i += 1;
        }
        proof {
            lemma_first_clean_none(spec_rules(), u);
        }
        None
    }

    /// Sanitizes a text: one `(cleaned URL, removed fragment)` pair per
    /// link that a rule cleans, in order of appearance.
    pub fn sanitize(&self, text: &str) -> (r: Vec<(String, String)>)
        requires
            self.wf(),
        ensures
            r.deep_view() == sanitize_spec(text@),
    {
        let links = find_links(text);
        let ghost links_v = links_in(text@);
        let mut r: Vec<(String, String)> = Vec::new();
        let mut i: usize = 0;
        while i < links.len()
            invariant
                self.wf(),
                0 <= i <= links@.len(),
                links.deep_view() == links_v,
                r.deep_view() == links_pairs(spec_rules(), links_v.take(i as int)),
            decreases links@.len() - i,
        {
            proof {
                assert(links@[i as int]@ == links_v[i as int]);
                assert(links_v.take(i as int + 1) =~= links_v.take(i as int).push(
                    links_v[i as int],
                ));
                lemma_links_pairs_push(spec_rules(), links_v.take(i as int), links_v[i as int]);
            }
            match self.clean_link(links[i].as_str()) {
                Some(p) => {
                    r.push(p);
                    proof {
                        assert(r.deep_view() =~= links_pairs(spec_rules(), links_v.take(
                            i as int + 1,
                        )));
                    }
                },
                None => {
                    proof {
                        assert(r.deep_view() =~= links_pairs(spec_rules(), links_v.take(
                            i as int + 1,
                        )));
                    }
                },
            }
            i += 1;
        }
        proof {
            assert(links_v.take(links_v.len() as int) =~= links_v);
        }
        r
    }

    /// Sanitizes a text and joins the cleaned URLs with blank lines;
    /// `None` when no link qualified.
    pub fn parse_event_content(&self, event_content: &str) -> (r: Option<String>)
        requires
            self.wf(),
        ensures
            r.deep_view() == cleaned_joined(event_content@),
    {
        let pairs = self.sanitize(event_content);
        if pairs.len() == 0 {
            return None;
        }
        let ghost pairs_v = sanitize_spec(event_content@);
        let mut urls: Vec<String> = Vec::new();
        let mut i: usize = 0;
        while i < pairs.len()
            invariant
                0 <= i <= pairs@.len(),
                pairs.deep_view() == pairs_v,
                urls@.len() == i,
                forall|k: int| 0 <= k < i ==> urls@[k]@ == pairs_v[k].0,
            decreases pairs@.len() - i,
        {
            urls.push(pairs[i].0.clone());
            proof {
                assert(pairs.deep_view()[i as int] == pairs@[i as int].deep_view());
                assert(urls@[i as int]@ == pairs_v[i as int].0);
            }
            i += 1;
        }
        proof {
            assert forall|k: int| 0 <= k < urls@.len() implies urls.deep_view()[k] == firsts(
                pairs_v,
            )[k] by {
                assert(urls.deep_view()[k] == urls@[k]@);
            }
            assert(urls.deep_view() =~= firsts(pairs_v));
        }
        Some(join_parts(&urls, "\n\n"))
    }

    fn clean_link_with(&self, idx: usize, url: &str) -> (r: Option<String>)
        requires
            self.wf(),
            idx < spec_rules().len(),
        ensures
            r.deep_view() == site_clean(spec_rules()[idx as int], url@),
    {
        proof {
            assert(rules_view(self.rules@).len() == spec_rules().len());
            assert(self.rules@[idx as int]@ == rules_view(self.rules@)[idx as int]);
        }
        let parts = match parse_link(url) {
            Some(p) => p,
            None => {
                return None;
            },
        };
        match clean_with_rule(&self.rules[idx], &parts) {
            Some(p) => Some(p.0),
            None => None,
        }
    }

    /// Cleans a single URL against the video-platform rule alone.
    pub fn parse_youtube_url(&self, url: &str) -> (r: Option<String>)
        requires
            self.wf(),
        ensures
            r.deep_view() == site_clean(youtube_rule(), url@),
    {
        self.clean_link_with(0, url)
    }

    /// Cleans a single URL against the microblogging-platform rule alone.
    pub fn parse_twitter_url(&self, url: &str) -> (r: Option<String>)
        requires
            self.wf(),
        ensures
            r.deep_view() == site_clean(twitter_rule(), url@),
    {
        self.clean_link_with(1, url)
    }

    /// Cleans a single URL against the photo-sharing-platform rule alone.
    pub fn parse_instagram_url(&self, url: &str) -> (r: Option<String>)
        requires
            self.wf(),
        ensures
            r.deep_view() == site_clean(instagram_rule(), url@),
    {
        self.clean_link_with(2, url)
    }

    /// Cleans a single URL against the audio-streaming-platform rule alone.
    pub fn parse_spotify_url(&self, url: &str) -> (r: Option<String>)
        requires
            self.wf(),
        ensures
            r.deep_view() == site_clean(spotify_rule(), url@),
    {
        self.clean_link_with(3, url)
    }

    /// Cleans a single URL against the newsletter-platform rule alone.
    pub fn parse_substack_url(&self, url: &str) -> (r: Option<String>)
        requires
            self.wf(),
        ensures
            r.deep_view() == site_clean(substack_rule(), url@),
    {
        self.clean_link_with(4, url)
    }
}

/// When the first `i` rules decline and rule `i` cleans `u`, rule `i`'s
/// result is the table's result.
proof fn lemma_first_clean_at(rules: Seq<SiteRuleV>, u: UrlPartsV, i: int)
    requires
        0 <= i < rules.len(),
        forall|j: int| 0 <= j < i ==> clean_against(rules[j], u) is None,
        clean_against(rules[i], u) is Some,
    ensures
        first_clean(rules, u) == clean_against(rules[i], u),
    decreases i,
{
    if i > 0 {
        assert forall|j: int| 0 <= j < i - 1 implies clean_against(
            rules.drop_first()[j],
            u,
        ) is None by {
            assert(rules.drop_first()[j] == rules[j + 1]);
        }
        assert(rules.drop_first()[i - 1] == rules[i]);
        lemma_first_clean_at(rules.drop_first(), u, i - 1);
    }
}

/// When every rule declines, the table declines.
proof fn lemma_first_clean_none(rules: Seq<SiteRuleV>, u: UrlPartsV)
    requires
        forall|j: int| 0 <= j < rules.len() ==> clean_against(rules[j], u) is None,
    ensures
        first_clean(rules, u) is None,
    decreases rules.len(),
{
    if rules.len() > 0 {
        assert forall|j: int| 0 <= j < rules.drop_first().len() implies clean_against(
            rules.drop_first()[j],
            u,
        ) is None by {
            assert(rules.drop_first()[j] == rules[j + 1]);
        }
        lemma_first_clean_none(rules.drop_first(), u);
    }
}

/// Law: sanitization is deterministic. The result of `sanitize` is pinned
/// to `sanitize_spec`, a function of the text alone, so two results for
/// the same text are equal.
pub proof fn lemma_sanitize_deterministic(
    text: Seq<char>,
    r1: Seq<(Seq<char>, Seq<char>)>,
    r2: Seq<(Seq<char>, Seq<char>)>,
)
    requires
        r1 == sanitize_spec(text),
        r2 == sanitize_spec(text),
    ensures
        r1 == r2,
{
}

/// Law: a URL whose query holds no tracking parameter of the rule yields
/// no pair under that rule, even when the host matches.
pub proof fn lemma_no_tracking_no_pair(rule: SiteRuleV, u: UrlPartsV)
    requires
        u.query matches Some(q) ==> forall|k: int|
            0 <= k < split_on(q, '&').len() ==> !is_tracked(rule, #[trigger] split_on(q, '&')[k]),
    ensures
        clean_against(rule, u) is None,
{
    match u.query {
        None => {},
        Some(q) => {
            lemma_filter_none(split_on(q, '&'), |c: Seq<char>| is_tracked(rule, c));
        },
    }
}

/// Law: a URL whose query holds no tracking parameter of any rule in the
/// table is never reported, whatever its host.
pub proof fn lemma_no_tracking_no_report(rules: Seq<SiteRuleV>, u: UrlPartsV)
    requires
        u.query matches Some(q) ==> forall|ri: int, k: int|
            0 <= ri < rules.len() && 0 <= k < split_on(q, '&').len() ==> !is_tracked(
                #[trigger] rules[ri],
                #[trigger] split_on(q, '&')[k],
            ),
    ensures
        first_clean(rules, u) is None,
{
    assert forall|ri: int| 0 <= ri < rules.len() implies clean_against(rules[ri], u) is None by {
        lemma_no_tracking_no_pair(rules[ri], u);
    }
    lemma_first_clean_none(rules, u);
}

/// Law: a URL whose host no rule recognizes is never reported, regardless
/// of its query content.
pub proof fn lemma_unrecognized_host_no_report(rules: Seq<SiteRuleV>, u: UrlPartsV)
    requires
        forall|ri: int| 0 <= ri < rules.len() ==> !rule_matches_host(#[trigger] rules[ri], u.host),
    ensures
        first_clean(rules, u) is None,
{
    assert forall|ri: int| 0 <= ri < rules.len() implies clean_against(rules[ri], u) is None by {
        assert(!rule_matches_host(rules[ri], u.host));
    }
    lemma_first_clean_none(rules, u);
}

/// Law: cleaning is idempotent at the engine level. When a rule cleans a
/// URL, a URL carrying the kept components as its query (as the cleaned
/// URL does) has nothing further to remove under that rule.
pub proof fn lemma_clean_idempotent(rule: SiteRuleV, u: UrlPartsV)
    requires
        clean_against(rule, u) is Some,
    ensures
        ({
            let comps = split_on(u.query->0, '&');
            let kept = kept_of(rule, comps);
            let requery = if kept.len() == 0 {
                None
            } else {
                Some(join_with(kept, seq!['&']))
            };
            clean_against(
                rule,
                UrlPartsV { prefix: u.prefix, host: u.host, query: requery, fragment: u.fragment },
            ) is None
        }),
{
    let q = u.query->0;
    let comps = split_on(q, '&');
    let kept = kept_of(rule, comps);
    if kept.len() > 0 {
        lemma_split_on_props(q, '&');
        lemma_filter_elems(comps, |c: Seq<char>| !is_tracked(rule, c));
        assert forall|k: int| 0 <= k < kept.len() implies !(#[trigger] kept[k]).contains('&') by {
            assert(comps.contains(kept[k]));
            let j = choose|j: int| 0 <= j < comps.len() && comps[j] == kept[k];
            assert(!comps[j].contains('&'));
        }
        lemma_split_of_join(kept, '&');
        assert forall|k: int| 0 <= k < kept.len() implies !is_tracked(rule, #[trigger] kept[k]) by {
            comps.lemma_filter_pred(|c: Seq<char>| !is_tracked(rule, c), k);
        }
        lemma_filter_none(kept, |c: Seq<char>| is_tracked(rule, c));
    }
}

/// The rules' host sets are pairwise disjoint: a host one rule recognizes,
/// no other rule does.
#[verifier::rlimit(100)]
pub proof fn lemma_rule_hosts_disjoint(h: Seq<char>, i: int, j: int)
    requires
        0 <= i < spec_rules().len(),
        0 <= j < spec_rules().len(),
        i != j,
        rule_matches_host(spec_rules()[i], h),
    ensures
        !rule_matches_host(spec_rules()[j], h),
{
    reveal_strlit("www.youtube.com");
    reveal_strlit("youtube.com");
    reveal_strlit("youtu.be");
    reveal_strlit("yt.be");
    reveal_strlit("m.youtube.com");
    reveal_strlit("music.youtube.com");
    reveal_strlit("www.twitter.com");
    reveal_strlit("twitter.com");
    reveal_strlit("t.co");
    reveal_strlit("x.com");
    reveal_strlit("www.x.com");
    reveal_strlit("www.instagram.com");
    reveal_strlit("instagram.com");
    reveal_strlit("open.spotify.com");
    reveal_strlit("play.spotify.com");
    reveal_strlit("spotify.com");
    reveal_strlit("www.spotify.com");
    reveal_strlit("artist.spotify.com");
    reveal_strlit("embed.spotify.com");
    reveal_strlit("www.substack.com");
    reveal_strlit("substack.com");
    reveal_strlit(".substack.com");
    // Distinct same-length hosts of different rules, told apart by one
    // character; hosts of different lengths need no witness.
    assert("www.youtube.com"@[4] == 'y' && "www.twitter.com"@[4] == 't' && "www.spotify.com"@[4]
        == 's');
    assert("youtube.com"@[0] == 'y' && "twitter.com"@[0] == 't' && "spotify.com"@[0] == 's');
    assert("yt.be"@[0] == 'y' && "x.com"@[0] == 'x');
    assert("m.youtube.com"@[0] == 'm' && "instagram.com"@[0] == 'i');
    assert("music.youtube.com"@[0] == 'm' && "www.instagram.com"@[0] == 'w'
        && "embed.spotify.com"@[0] == 'e');
    assert("open.spotify.com"@[0] == 'o' && "play.spotify.com"@[0] == 'p'
        && "www.substack.com"@[0] == 'w');
    // No host of another rule ends in the newsletter-platform suffix: the
    // character 13 places from the end is never a dot.
    let sfx = ".substack.com"@;
    assert(sfx[0] == '.');
    assert(!has_suffix("www.youtube.com"@, sfx)) by {
        assert("www.youtube.com"@.subrange(2, 15)[0] == 'w');
    }
    assert(!has_suffix("m.youtube.com"@, sfx)) by {
        assert("m.youtube.com"@.subrange(0, 13)[0] == 'm');
    }
    assert(!has_suffix("music.youtube.com"@, sfx)) by {
        assert("music.youtube.com"@.subrange(4, 17)[0] == 'c');
    }
    assert(!has_suffix("www.twitter.com"@, sfx)) by {
        assert("www.twitter.com"@.subrange(2, 15)[0] == 'w');
    }
    assert(!has_suffix("www.instagram.com"@, sfx)) by {
        assert("www.instagram.com"@.subrange(4, 17)[0] == 'i');
    }
    assert(!has_suffix("instagram.com"@, sfx)) by {
        assert("instagram.com"@.subrange(0, 13)[0] == 'i');
    }
    assert(!has_suffix("open.spotify.com"@, sfx)) by {
        assert("open.spotify.com"@.subrange(3, 16)[0] == 'n');
    }
    assert(!has_suffix("play.spotify.com"@, sfx)) by {
        assert("play.spotify.com"@.subrange(3, 16)[0] == 'y');
    }
    assert(!has_suffix("www.spotify.com"@, sfx)) by {
        assert("www.spotify.com"@.subrange(2, 15)[0] == 'w');
    }
    assert(!has_suffix("artist.spotify.com"@, sfx)) by {
        assert("artist.spotify.com"@.subrange(5, 18)[0] == 't');
    }
    assert(!has_suffix("embed.spotify.com"@, sfx)) by {
        assert("embed.spotify.com"@.subrange(4, 17)[0] == 'd');
    }
    let ri = spec_rules()[i];
    let rj = spec_rules()[j];
    if ri.hosts.contains(h) {
        let k = choose|k: int| 0 <= k < ri.hosts.len() && ri.hosts[k] == h;
        assert(ri.hosts[k] == h);
    }
    if rj.hosts.contains(h) {
        let l = choose|l: int| 0 <= l < rj.hosts.len() && rj.hosts[l] == h;
        assert(rj.hosts[l] == h);
    }
}

/// Law: cleaning is idempotent across the whole table. When rule `i` is
/// the one that cleans `u`, a URL carrying the kept components as its
/// query (as the cleaned URL does) is reported by no rule at all: the
/// other rules do not recognize its host, and rule `i` finds nothing left
/// to remove.
pub proof fn lemma_sanitize_idempotent(u: UrlPartsV, i: int)
    requires
        0 <= i < spec_rules().len(),
        clean_against(spec_rules()[i], u) is Some,
    ensures
        ({
            let comps = split_on(u.query->0, '&');
            let kept = kept_of(spec_rules()[i], comps);
            let requery = if kept.len() == 0 {
                None
            } else {
                Some(join_with(kept, seq!['&']))
            };
            first_clean(
                spec_rules(),
                UrlPartsV { prefix: u.prefix, host: u.host, query: requery, fragment: u.fragment },
            ) is None
        }),
{
    let comps = split_on(u.query->0, '&');
    let kept = kept_of(spec_rules()[i], comps);
    let requery = if kept.len() == 0 {
        None
    } else {
        Some(join_with(kept, seq!['&']))
    };
    let u2 = UrlPartsV { prefix: u.prefix, host: u.host, query: requery, fragment: u.fragment };
    assert forall|j: int| 0 <= j < spec_rules().len() implies clean_against(
        spec_rules()[j],
        u2,
    ) is None by {
        if j == i {
            lemma_clean_idempotent(spec_rules()[i], u);
        } else {
            lemma_rule_hosts_disjoint(u.host, i, j);
        }
    }
    lemma_first_clean_none(spec_rules(), u2);
}

/// One more link appends exactly its own pairs.
proof fn lemma_links_pairs_push(rules: Seq<SiteRuleV>, links: Seq<Seq<char>>, l: Seq<char>)
    ensures
        links_pairs(rules, links.push(l)) == links_pairs(rules, links) + link_pairs(rules, l),
    decreases links.len(),
{
    let whole = links.push(l);
    if links.len() == 0 {
        assert(whole[0] == l);
        assert(whole.drop_first() =~= Seq::<Seq<char>>::empty());
        assert(links_pairs(rules, whole) == link_pairs(rules, l) + links_pairs(
            rules,
            whole.drop_first(),
        ));
        assert(links_pairs(rules, whole.drop_first()).len() == 0);
        assert(links_pairs(rules, links).len() == 0);
        assert(links_pairs(rules, whole) =~= links_pairs(rules, links) + link_pairs(rules, l));
    } else {
        assert(whole[0] == links[0]);
        assert(whole.drop_first() =~= links.drop_first().push(l));
        lemma_links_pairs_push(rules, links.drop_first(), l);
        assert(links_pairs(rules, whole) == link_pairs(rules, links[0]) + (links_pairs(
            rules,
            links.drop_first(),
        ) + link_pairs(rules, l)));
        assert(link_pairs(rules, links[0]) + (links_pairs(rules, links.drop_first()) + link_pairs(
            rules,
            l,
        )) =~= (link_pairs(rules, links[0]) + links_pairs(rules, links.drop_first())) + link_pairs(
            rules,
            l,
        ));
    }
}

} // verus!
