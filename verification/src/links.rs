//! The decisions of `issue unlink`, `issue remote-link` and `issue assign`:
//! which link type a name designates, which links between two issues go,
//! what URL and title a remote link gets, and whether an assignment
//! changes anything.
use vstd::prelude::*;

use crate::error::JrError;
use crate::partial_match;
use crate::partial_match::MatchResult;
use crate::text;
use crate::types::jira::IssueLink;
use crate::types::jira::User;

verus! {

/// What a `--type` name designates among the link types.
pub enum LinkTypePick {
    /// This link type.
    Resolved(String),
    /// Several types contain the name: the user picks one of these.
    Choose(Vec<String>),
    /// Several types contain the name and no one can be asked: this message.
    Ambiguous(String),
    /// No type contains the name: this message.
    Unknown(String),
}

pub enum LinkTypePickView {
    Resolved(Seq<char>),
    Choose(Seq<Seq<char>>),
    Ambiguous(Seq<char>),
    Unknown(Seq<char>),
}

impl View for LinkTypePick {
    type V = LinkTypePickView;

    open spec fn view(&self) -> LinkTypePickView {
        match self {
            LinkTypePick::Resolved(s) => LinkTypePickView::Resolved(s@),
            LinkTypePick::Choose(v) => LinkTypePickView::Choose(text::views(v@)),
            LinkTypePick::Ambiguous(m) => LinkTypePickView::Ambiguous(m@),
            LinkTypePick::Unknown(m) => LinkTypePickView::Unknown(m@),
        }
    }
}

/// The link type `name` designates: an exact match (up to case; the first
/// when several types share the name), else the types containing it — to
/// choose from, or refused when no one can be asked — else none.
pub open spec fn link_type_pick(name: Seq<char>, types: Seq<Seq<char>>, no_input: bool) -> LinkTypePickView {
    match partial_match::match_outcome(name, types) {
        partial_match::MatchView::Exact(n) => LinkTypePickView::Resolved(n),
        partial_match::MatchView::ExactMultiple(ns) => LinkTypePickView::Resolved(ns[0]),
        partial_match::MatchView::Ambiguous(ms) => if no_input {
            LinkTypePickView::Ambiguous(
                "Ambiguous link type \""@ + name + "\". Matches: "@ + text::join_seq(ms, ", "@),
            )
        } else {
            LinkTypePickView::Choose(ms)
        },
        partial_match::MatchView::NoMatch(_) => LinkTypePickView::Unknown(
            "Unknown link type \""@ + name
                + "\". Run \"jr issue link-types\" to see available types."@,
        ),
    }
}

/// Decide which link type `wanted_type` designates.
pub fn resolve_link_type(wanted_type: &str, type_names: &[String], no_input: bool) -> (r: LinkTypePick)
    ensures
        r@ == link_type_pick(wanted_type@, text::views(type_names@), no_input),
{
    proof {
        partial_match::lemma_keep_members(
            text::views(type_names@),
            partial_match::same_lowercase(wanted_type@),
        );
    }
    match partial_match::partial_match(wanted_type, type_names) {
        MatchResult::Exact(n) => LinkTypePick::Resolved(n),
        MatchResult::ExactMultiple(ns) => {
            assert(text::views(ns@)[0] == ns@[0]@);
            LinkTypePick::Resolved(ns[0].clone())
        },
        MatchResult::Ambiguous(ms) => {
            if no_input {
                let mut m = String::from_str("Ambiguous link type \"");
                m.append(wanted_type);
                m.append("\". Matches: ");
                let joined = text::join(&ms, ", ");
                m.append(joined.as_str());
                LinkTypePick::Ambiguous(m)
            } else {
                LinkTypePick::Choose(ms)
            }
        },
        MatchResult::NoMatch(_) => {
            let mut m = String::from_str("Unknown link type \"");
            m.append(wanted_type);
            m.append("\". Run \"jr issue link-types\" to see available types.");
            LinkTypePick::Unknown(m)
        },
    }
}

/// A link joins the issue to `other` (compared up to ASCII case), and is of
/// the wanted type (up to ASCII case) when one is wanted.
pub open spec fn link_matches(link: IssueLink, other: Seq<char>, wanted: Option<Seq<char>>) -> bool {
    let to_other = match link.outward_issue {
        Some(i) => text::eq_ignore_ascii_case(i.key@, other),
        None => false,
    } || match link.inward_issue {
        Some(i) => text::eq_ignore_ascii_case(i.key@, other),
        None => false,
    };
    let of_type = match wanted {
        Some(t) => text::eq_ignore_ascii_case(link.link_type.name@, t),
        None => true,
    };
    to_other && of_type
}

/// The ids of the links that match, in order.
pub open spec fn matching_link_ids(
    links: Seq<IssueLink>,
    other: Seq<char>,
    wanted: Option<Seq<char>>,
) -> Seq<Seq<char>>
    decreases links.len(),
{
    if links.len() == 0 {
        Seq::empty()
    } else if link_matches(links.last(), other, wanted) {
        matching_link_ids(links.drop_last(), other, wanted).push(links.last().id@)
    } else {
        matching_link_ids(links.drop_last(), other, wanted)
    }
}

fn opt_key_eq(o: &Option<crate::types::jira::LinkedIssue>, other: &str) -> (b: bool)
    ensures
        b == match *o {
            Some(i) => text::eq_ignore_ascii_case(i.key@, other@),
            None => false,
        },
{
    match o {
        Some(i) => text::str_eq_ignore_ascii_case(i.key.as_str(), other),
        None => false,
    }
}

/// The ids of the links of an issue to remove: those joining it to
/// `other_key`, of the given type when one is given.
pub fn links_to_remove(links: &[IssueLink], other_key: &str, link_type: Option<&str>) -> (r: Vec<
    String,
>)
    ensures
        text::views(r@) == matching_link_ids(
            links@,
            other_key@,
            match link_type {
                Some(t) => Some(t@),
                None => None,
            },
        ),
{
    let ghost wanted = match link_type {
        Some(t) => Some(t@),
        None => None,
    };
    let mut ids: Vec<String> = Vec::new();
    let mut i: usize = 0;
    while i < links.len()
        invariant
            i <= links@.len(),
            wanted == match link_type {
                Some(t) => Some(t@),
                None => None::<Seq<char>>,
            },
            text::views(ids@) == matching_link_ids(links@.take(i as int), other_key@, wanted),
        decreases links@.len() - i,
    {
        assert(links@.take(i + 1).drop_last() =~= links@.take(i as int));
        assert(links@.take(i + 1).last() == links@[i as int]);
        let link = &links[i];
        let to_other = opt_key_eq(&link.outward_issue, other_key) || opt_key_eq(
            &link.inward_issue,
            other_key,
        );
        let of_type = match link_type {
            Some(t) => text::str_eq_ignore_ascii_case(link.link_type.name.as_str(), t),
            None => true,
        };
        if to_other && of_type {
            let ghost before = text::views(ids@);
            ids.push(link.id.clone());
            assert(text::views(ids@) =~= before.push(links@[i as int].id@));
        }
        i = i + 1;
    }
    assert(links@.take(links@.len() as int) =~= links@);
    ids
}

/// Whether assigning the issue to `account_id` would change nothing: it is
/// already assigned to that account.
pub fn is_already_assigned(current: &Option<User>, account_id: &str) -> (b: bool)
    ensures
        b == match *current {
            Some(u) => u.account_id@ == account_id@,
            None => false,
        },
{
    match current {
        Some(u) => text::str_eq(u.account_id.as_str(), account_id),
        None => false,
    }
}


// ───────────────────────────── remote links ─────────────────────────────

/// What `url::Url::parse` makes of a string: the URL's serialization (its
/// normalized text) and its scheme, or the message of the parse error.
pub uninterp spec fn url_parse_of(s: Seq<char>) -> Result<(Seq<char>, Seq<char>), Seq<char>>;

/// A parse outcome seen as character sequences.
pub open spec fn parse_view(r: Result<(String, String), String>) -> Result<
    (Seq<char>, Seq<char>),
    Seq<char>,
> {
    match r {
        Ok((u, s)) => Ok((u@, s@)),
        Err(e) => Err(e@),
    }
}

/// Parse an absolute URL.
///
/// Trusted: calls `url::Url::parse` and, on success, reads `Url::as_str`
/// and `Url::scheme`; on failure, formats the `ParseError`. The contract
/// only names the outcome as `url_parse_of` of the input; the WHATWG
/// parsing rules are not written down here.
#[verifier::external_body]
fn parse_url(s: &str) -> (r: Result<(String, String), String>)
    ensures
        parse_view(r) == url_parse_of(s@),
{
    match url::Url::parse(s) {
        Ok(u) => Ok((u.as_str().to_string(), u.scheme().to_string())),
        Err(e) => Err(e.to_string()),
    }
}

/// Where a remote link points and what it is called.
pub struct RemoteLinkTarget {
    pub url: String,
    pub title: String,
}

/// The message for a URL the parser refused.
pub open spec fn invalid_url_text(err: Seq<char>) -> Seq<char> {
    "--url is not a valid URL: "@ + err + ". Expected something like https://example.com/path."@
}

/// The message for a URL of another scheme than `http` or `https`.
pub open spec fn bad_scheme_text(scheme: Seq<char>) -> Seq<char> {
    "--url must use http or https (got "@ + scheme + ")."@
}

/// A remote link from what the URL parser made of the (trimmed) URL: a
/// refused URL, or one whose scheme is not `http` or `https`, is a usage
/// error; otherwise the link points at the normalized URL, and its title
/// is the trimmed title, or the URL when no title or a blank one was given.
pub open spec fn remote_link_outcome(
    parsed: Result<(Seq<char>, Seq<char>), Seq<char>>,
    title: Option<Seq<char>>,
) -> Result<(Seq<char>, Seq<char>), Seq<char>> {
    match parsed {
        Err(e) => Err(invalid_url_text(e)),
        Ok((u, scheme)) => if scheme != "http"@ && scheme != "https"@ {
            Err(bad_scheme_text(scheme))
        } else {
            match title {
                Some(t) => if text::trim(t).len() > 0 {
                    Ok((u, text::trim(t)))
                } else {
                    Ok((u, u))
                },
                None => Ok((u, u)),
            }
        },
    }
}

/// The outcome seen as character sequences, a refusal as its message.
pub open spec fn target_view(r: Result<RemoteLinkTarget, JrError>) -> Result<
    (Seq<char>, Seq<char>),
    Seq<char>,
> {
    match r {
        Ok(t) => Ok((t.url@, t.title@)),
        Err(JrError::UserError(m)) => Err(m@),
        Err(_) => Err(Seq::empty()),
    }
}

/// `s` trimmed of whitespace at both ends.
fn trimmed(s: &str) -> (r: String)
    ensures
        r@ == text::trim(s@),
{
    let v = text::chars_of(s);
    let (a, b) = text::trim_bounds(&v);
    text::string_from_chars(v.as_slice().split_at(b).0.split_at(a).1)
}

/// The target of a remote link, from what the URL parser made of the
/// trimmed URL and the title given, if any. Every refusal is a usage error.
pub fn remote_link_target_from(parsed: Result<(String, String), String>, title: Option<String>) -> (r:
    Result<RemoteLinkTarget, JrError>)
    ensures
        r is Ok || r matches Err(JrError::UserError(_)),
        target_view(r) == remote_link_outcome(
            parse_view(parsed),
            match title {
                Some(t) => Some(t@),
                None => None,
            },
        ),
{
    match parsed {
        Err(e) => {
            let mut m = String::from_str("--url is not a valid URL: ");
            m.append(e.as_str());
            m.append(". Expected something like https://example.com/path.");
            Err(JrError::UserError(m))
        },
        Ok((u, scheme)) => {
            if !text::str_eq(scheme.as_str(), "http") && !text::str_eq(scheme.as_str(), "https") {
                let mut m = String::from_str("--url must use http or https (got ");
                m.append(scheme.as_str());
                m.append(").");
                return Err(JrError::UserError(m));
            }
            let t = match title {
                Some(t) => {
                    let tt = trimmed(t.as_str());
                    if !tt.as_str().is_empty() {
                        tt
                    } else {
                        u.clone()
                    }
                },
                None => u.clone(),
            };
            Ok(RemoteLinkTarget { url: u, title: t })
        },
    }
}

/// The target of `issue remote-link`: the URL is trimmed and must not be
/// empty, then parsed; see `remote_link_target_from` for the rest.
pub fn remote_link_target(url: &str, title: Option<String>) -> (r: Result<
    RemoteLinkTarget,
    JrError,
>)
    ensures
        r is Ok || r matches Err(JrError::UserError(_)),
        text::trim(url@).len() == 0 ==> target_view(r) == Err::<(Seq<char>, Seq<char>), Seq<char>>(
            "--url must not be empty."@,
        ),
        text::trim(url@).len() > 0 ==> target_view(r) == remote_link_outcome(
            url_parse_of(text::trim(url@)),
            match title {
                Some(t) => Some(t@),
                None => None,
            },
        ),
{
    let u = trimmed(url);
    if u.as_str().is_empty() {
        return Err(JrError::UserError(String::from_str("--url must not be empty.")));
    }
    let parsed = parse_url(u.as_str());
    remote_link_target_from(parsed, title)
}

} // verus!
