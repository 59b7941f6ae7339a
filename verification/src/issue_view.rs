//! What `issue view` shows of an issue, field by field.
use vstd::prelude::*;

use crate::linked;
use crate::linked::LinkedAsset;
use crate::text;
use crate::types::jira::Issue;
use crate::types::jira::IssueLink;
use crate::types::jira::IssueProject;
use crate::types::jira::LinkedIssueFields;
use crate::types::jira::ParentIssue;
use crate::types::jira::User;

verus! {

/// A two-column row.
pub open spec fn row(label: Seq<char>, value: Seq<char>) -> Seq<Seq<char>> {
    seq![label, value]
}

/// The rows as values.
pub open spec fn rows_view(r: Seq<Vec<String>>) -> Seq<Seq<Seq<char>>> {
    r.map_values(|x: Vec<String>| text::views(x@))
}

pub open spec fn or_empty(o: Option<Seq<char>>) -> Seq<char> {
    match o {
        Some(s) => s,
        None => Seq::empty(),
    }
}

pub open spec fn opt_view(o: Option<String>) -> Option<Seq<char>> {
    match o {
        Some(s) => Some(s@),
        None => None,
    }
}

/// The summary of the issue at the end of a link (empty when absent).
pub open spec fn linked_summary(f: Option<LinkedIssueFields>) -> Seq<char> {
    match f {
        Some(x) => or_empty(opt_view(x.summary)),
        None => Seq::empty(),
    }
}

/// One link: how the other issue relates (the link type's outward or inward
/// description, or its name), the other issue's key and summary; the type's
/// name alone when neither end is given.
pub open spec fn link_line(l: IssueLink) -> Seq<char> {
    match l.outward_issue {
        Some(o) => (match opt_view(l.link_type.outward) {
            Some(d) => d,
            None => l.link_type.name@,
        }) + " "@ + o.key@ + " ("@ + linked_summary(o.fields) + ")"@,
        None => match l.inward_issue {
            Some(i) => (match opt_view(l.link_type.inward) {
                Some(d) => d,
                None => l.link_type.name@,
            }) + " "@ + i.key@ + " ("@ + linked_summary(i.fields) + ")"@,
            None => l.link_type.name@,
        },
    }
}

/// The links, one per line, or `(none)`.
pub open spec fn links_text(ls: Option<Vec<IssueLink>>) -> Seq<char> {
    match ls {
        Some(v) => if v@.len() > 0 {
            text::join_seq(v@.map_values(|l: IssueLink| link_line(l)), "\n"@)
        } else {
            "(none)"@
        },
        None => "(none)"@,
    }
}

/// The labels, comma-separated, or `(none)`.
pub open spec fn labels_text(ls: Option<Vec<String>>) -> Seq<char> {
    match ls {
        Some(v) => if v@.len() > 0 {
            text::join_seq(text::views(v@), ", "@)
        } else {
            "(none)"@
        },
        None => "(none)"@,
    }
}

/// The project as `name (KEY)`, or nothing.
pub open spec fn project_text(p: Option<IssueProject>) -> Seq<char> {
    match p {
        Some(x) => or_empty(opt_view(x.name)) + " ("@ + x.key@ + ")"@,
        None => Seq::empty(),
    }
}

/// The parent as `KEY (summary)`, or `(none)`.
pub open spec fn parent_text(p: Option<ParentIssue>) -> Seq<char> {
    match p {
        Some(x) => x.key@ + " ("@ + linked_summary(x.fields) + ")"@,
        None => "(none)"@,
    }
}

/// A person's display name, or the given placeholder.
pub open spec fn person_text(u: Option<User>, absent: Seq<char>) -> Seq<char> {
    match u {
        Some(x) => x.display_name@,
        None => absent,
    }
}

/// The fixed rows of `issue view`, in order, given the issue and its
/// creation and update dates as displayed.
pub open spec fn view_rows(i: Issue, created: Seq<char>, updated: Seq<char>) -> Seq<Seq<Seq<char>>> {
    let f = i.fields;
    seq![
        row("Key"@, i.key@),
        row("Summary"@, f.summary@),
        row("Type"@, match f.issue_type { Some(t) => t.name@, None => Seq::empty() }),
        row("Status"@, match f.status { Some(s) => s.name@, None => Seq::empty() }),
        row("Priority"@, match f.priority { Some(p) => p.name@, None => Seq::empty() }),
        row("Assignee"@, person_text(f.assignee, "Unassigned"@)),
        row("Reporter"@, person_text(f.reporter, "(none)"@)),
        row("Created"@, created),
        row("Updated"@, updated),
        row("Project"@, project_text(f.project)),
        row("Labels"@, labels_text(f.labels)),
        row("Parent"@, parent_text(f.parent)),
        row("Links"@, links_text(f.issuelinks)),
    ]
}

fn two(label: &str, value: String) -> (r: Vec<String>)
    ensures
        text::views(r@) == row(label@, value@),
{
    let mut v: Vec<String> = Vec::new();
    v.push(String::from_str(label));
    v.push(value);
    assert(text::views(v@) =~= row(label@, value@));
    v
}

fn string_or_empty(o: &Option<String>) -> (r: String)
    ensures
        r@ == or_empty(opt_view(*o)),
{
    match o {
        Some(s) => s.clone(),
        None => String::new(),
    }
}

fn summary_of(f: &Option<LinkedIssueFields>) -> (r: String)
    ensures
        r@ == linked_summary(*f),
{
    match f {
        Some(x) => string_or_empty(&x.summary),
        None => String::new(),
    }
}

fn describe_end(desc: &Option<String>, kind_name: &String, key: &String, f: &Option<LinkedIssueFields>) -> (r: String)
    ensures
        r@ == (match opt_view(*desc) {
            Some(d) => d,
            None => kind_name@,
        }) + " "@ + key@ + " ("@ + linked_summary(*f) + ")"@,
{
    let mut s = match desc {
        Some(d) => d.clone(),
        None => kind_name.clone(),
    };
    s.append(" ");
    s.append(key.as_str());
    s.append(" (");
    let summary = summary_of(f);
    s.append(summary.as_str());
    s.append(")");
    s
}

/// One link as shown.
pub fn format_link_line(l: &IssueLink) -> (r: String)
    ensures
        r@ == link_line(*l),
{
    match &l.outward_issue {
        Some(o) => describe_end(&l.link_type.outward, &l.link_type.name, &o.key, &o.fields),
        None => match &l.inward_issue {
            Some(i) => describe_end(&l.link_type.inward, &l.link_type.name, &i.key, &i.fields),
            None => l.link_type.name.clone(),
        },
    }
}

/// The links as shown.
pub fn format_links(links: &Option<Vec<IssueLink>>) -> (r: String)
    ensures
        r@ == links_text(*links),
{
    match links {
        Some(v) => {
            if v.len() == 0 {
                return String::from_str("(none)");
            }
            let ghost lines = v@.map_values(|l: IssueLink| link_line(l));
            let mut parts: Vec<String> = Vec::new();
            let mut i: usize = 0;
            while i < v.len()
                invariant
                    i <= v@.len(),
                    lines == v@.map_values(|l: IssueLink| link_line(l)),
                    text::views(parts@) == lines.take(i as int),
                decreases v@.len() - i,
            {
                let line = format_link_line(&v[i]);
                let ghost before = text::views(parts@);
                let ghost lv = line@;
                parts.push(line);
                assert(text::views(parts@) =~= before.push(lv));
                assert(lines.take(i + 1) =~= lines.take(i as int).push(lv));
                i = i + 1;
            }
            assert(lines.take(v@.len() as int) =~= lines);
            text::join(&parts, "\n")
        },
        None => String::from_str("(none)"),
    }
}

fn format_labels(labels: &Option<Vec<String>>) -> (r: String)
    ensures
        r@ == labels_text(*labels),
{
    match labels {
        Some(v) => {
            if v.len() == 0 {
                String::from_str("(none)")
            } else {
                text::join(v, ", ")
            }
        },
        None => String::from_str("(none)"),
    }
}

fn format_project(p: &Option<IssueProject>) -> (r: String)
    ensures
        r@ == project_text(*p),
{
    match p {
        Some(x) => {
            let mut s = string_or_empty(&x.name);
            s.append(" (");
            s.append(x.key.as_str());
            s.append(")");
            s
        },
        None => String::new(),
    }
}

fn format_parent(p: &Option<ParentIssue>) -> (r: String)
    ensures
        r@ == parent_text(*p),
{
    match p {
        Some(x) => {
            let mut s = x.key.clone();
            s.append(" (");
            let summary = summary_of(&x.fields);
            s.append(summary.as_str());
            s.append(")");
            s
        },
        None => String::from_str("(none)"),
    }
}

fn format_person(u: &Option<User>, absent: &str) -> (r: String)
    ensures
        r@ == person_text(*u, absent@),
{
    match u {
        Some(x) => x.display_name.clone(),
        None => String::from_str(absent),
    }
}

/// The fixed rows of `issue view`. The creation and update dates come
/// already formatted for display.
pub fn issue_view_rows(issue: &Issue, created: String, updated: String) -> (r: Vec<Vec<String>>)
    ensures
        rows_view(r@) == view_rows(*issue, created@, updated@),
{
    let f = &issue.fields;
    let mut rows: Vec<Vec<String>> = Vec::new();
    rows.push(two("Key", issue.key.clone()));
    rows.push(two("Summary", f.summary.clone()));
    rows.push(
        two(
            "Type",
            match &f.issue_type {
                Some(t) => t.name.clone(),
                None => String::new(),
            },
        ),
    );
    rows.push(
        two(
            "Status",
            match &f.status {
                Some(s) => s.name.clone(),
                None => String::new(),
            },
        ),
    );
    rows.push(
        two(
            "Priority",
            match &f.priority {
                Some(p) => p.name.clone(),
                None => String::new(),
            },
        ),
    );
    rows.push(two("Assignee", format_person(&f.assignee, "Unassigned")));
    rows.push(two("Reporter", format_person(&f.reporter, "(none)")));
    rows.push(two("Created", created));
    rows.push(two("Updated", updated));
    rows.push(two("Project", format_project(&f.project)));
    rows.push(two("Labels", format_labels(&f.labels)));
    rows.push(two("Parent", format_parent(&f.parent)));
    rows.push(two("Links", format_links(&f.issuelinks)));
    assert(rows_view(rows@) =~= view_rows(*issue, created@, updated@));
    rows
}

/// One row per CMDB field of the issue: the field's name and its assets,
/// listed.
pub open spec fn asset_rows_of(per_field: Seq<(String, Vec<LinkedAsset>)>) -> Seq<Seq<Seq<char>>> {
    per_field.map_values(
        |f: (String, Vec<LinkedAsset>)| row(f.0@, linked::linked_assets_text(f.1@)),
    )
}

/// The asset rows of `issue view`, one per CMDB field (by its name) with
/// the field's assets listed.
pub fn asset_rows(per_field: &[(String, Vec<LinkedAsset>)]) -> (r: Vec<Vec<String>>)
    ensures
        rows_view(r@) == asset_rows_of(per_field@),
{
    let mut rows: Vec<Vec<String>> = Vec::new();
    let mut i: usize = 0;
    while i < per_field.len()
        invariant
            i <= per_field.len(),
            rows_view(rows@) == asset_rows_of(per_field@.take(i as int)),
        decreases per_field.len() - i,
    {
        let f = &per_field[i];
        let mut r: Vec<String> = Vec::new();
        r.push(f.0.clone());
        r.push(linked::format_linked_assets(f.1.as_slice()));
        let ghost before = rows@;
        rows.push(r);
        assert(text::views(r@) =~= row(f.0@, linked::linked_assets_text(f.1@)));
        assert(rows_view(rows@) =~= rows_view(before).push(text::views(r@)));
        assert(per_field@.take(i + 1) =~= per_field@.take(i as int).push(per_field@[i as int]));
        assert(asset_rows_of(per_field@.take(i + 1)) =~= asset_rows_of(per_field@.take(i as int)).push(
            row(f.0@, linked::linked_assets_text(f.1@)),
        ));
        i = i + 1;
    }
    assert(per_field@.take(i as int) =~= per_field@);
    rows
}

} // verus!
