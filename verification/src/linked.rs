//! Asset references found in the CMDB custom fields of an issue, and how
//! they are shown in tables.
use vstd::prelude::*;

use crate::text;

verus! {

/// An asset reference extracted from a CMDB custom field on a Jira issue.
#[derive(Debug, Clone, Default)]
pub struct LinkedAsset {
    pub key: Option<String>,
    pub name: Option<String>,
    pub asset_type: Option<String>,
    pub id: Option<String>,
    pub workspace_id: Option<String>,
}

/// How an asset is shown: `KEY (Name)`, `KEY`, `Name`, `#ID (run "jr init"
/// to resolve asset names)`, or `(unknown)`.
pub open spec fn asset_display(a: LinkedAsset) -> Seq<char> {
    match (a.key, a.name) {
        (Some(k), Some(n)) => k@ + " ("@ + n@ + ")"@,
        (Some(k), None) => k@,
        (None, Some(n)) => n@,
        (None, None) => match a.id {
            Some(id) => "#"@ + id@ + " (run \"jr init\" to resolve asset names)"@,
            None => "(unknown)"@,
        },
    }
}

/// The displays of a list of assets.
pub open spec fn asset_displays(assets: Seq<LinkedAsset>) -> Seq<Seq<char>> {
    assets.map_values(|a: LinkedAsset| asset_display(a))
}

impl LinkedAsset {
    /// Human-readable display of the asset.
    pub fn display(&self) -> (r: String)
        ensures
            r@ == asset_display(*self),
    {
        match (&self.key, &self.name) {
            (Some(key), Some(name)) => {
                let mut r = key.clone();
                r.append(" (");
                r.append(name.as_str());
                r.append(")");
                r
            },
            (Some(key), None) => key.clone(),
            (None, Some(name)) => name.clone(),
            (None, None) => match &self.id {
                Some(id) => {
                    let mut r = String::from_str("#");
                    r.append(id.as_str());
                    r.append(" (run \"jr init\" to resolve asset names)");
                    r
                },
                None => String::from_str("(unknown)"),
            },
        }
    }
}

/// The assets of a table cell: their displays joined by `, `, or `(none)`.
pub open spec fn linked_assets_text(assets: Seq<LinkedAsset>) -> Seq<char> {
    if assets.len() == 0 {
        "(none)"@
    } else {
        text::join_seq(asset_displays(assets), ", "@)
    }
}

/// Format a list of linked assets for display in a table cell.
pub fn format_linked_assets(assets: &[LinkedAsset]) -> (r: String)
    ensures
        r@ == linked_assets_text(assets@),
{
    if assets.len() == 0 {
        return String::from_str("(none)");
    }
    let mut shown: Vec<String> = Vec::new();
    let mut i: usize = 0;
    while i < assets.len()
        invariant
            i <= assets.len(),
            text::views(shown@) =~= asset_displays(assets@.take(i as int)),
        decreases assets.len() - i,
    {
        let d = assets[i].display();
        let ghost before = shown@;
        shown.push(d);
        assert(text::views(shown@) =~= text::views(before).push(d@));
        assert(assets@.take(i + 1) =~= assets@.take(i as int).push(assets@[i as int]));
        i = i + 1;
    }
    assert(assets@.take(assets.len() as int) =~= assets@);
    text::join(&shown, ", ")
}

/// The short form for the issue list: the first asset, with a count of the
/// others when there are several; `-` when there are none.
pub open spec fn linked_assets_short_text(assets: Seq<LinkedAsset>) -> Seq<char> {
    if assets.len() == 0 {
        "-"@
    } else if assets.len() == 1 {
        asset_display(assets[0])
    } else {
        asset_display(assets[0]) + " (+"@ + text::decimal((assets.len() - 1) as nat)
            + " more)"@
    }
}

/// Format for list table: first asset + count if multiple.
pub fn format_linked_assets_short(assets: &[LinkedAsset]) -> (r: String)
    ensures
        r@ == linked_assets_short_text(assets@),
{
    let n = assets.len();
    if n == 0 {
        String::from_str("-")
    } else if n == 1 {
        assets[0].display()
    } else {
        let mut r = assets[0].display();
        r.append(" (+");
        let more = text::u64_to_string((n - 1) as u64);
        r.append(more.as_str());
        r.append(" more)");
        r
    }
}

// ───────────────────────────── enrichment ─────────────────────────────

/// An asset known only by its id: it has an id but neither key nor name,
/// so its details are to be fetched.
pub open spec fn needs_enrichment(a: LinkedAsset) -> bool {
    a.id is Some && a.key is None && a.name is None
}

/// The characters of an optional text, empty when absent.
pub open spec fn text_or_empty(o: Option<String>) -> Seq<char> {
    match o {
        Some(s) => s@,
        None => Seq::empty(),
    }
}

/// The (workspace id, object id) an asset is fetched under, before the
/// fallback workspace: its own workspace id, or empty.
pub open spec fn raw_key(a: LinkedAsset) -> (Seq<char>, Seq<char>) {
    (text_or_empty(a.workspace_id), text_or_empty(a.id))
}

/// A pair of texts seen as character sequences.
pub open spec fn pair_view(p: (String, String)) -> (Seq<char>, Seq<char>) {
    (p.0@, p.1@)
}

/// Some asset needing enrichment at (issue `i`, position `j`) before
/// (`i0`, `j0`) has the key `k`.
pub open spec fn key_before(
    assets: Seq<Vec<LinkedAsset>>,
    k: (Seq<char>, Seq<char>),
    i0: int,
    j0: int,
) -> bool {
    exists|i: int, j: int|
        0 <= i < assets.len() && 0 <= j < assets[i]@.len() && (i < i0 || (i == i0 && j < j0))
            && needs_enrichment(#[trigger] assets[i]@[j]) && raw_key(assets[i]@[j]) == k
}

/// Some asset of the lists needs enrichment under the key `k`.
pub open spec fn is_enrichment_key(assets: Seq<Vec<LinkedAsset>>, k: (Seq<char>, Seq<char>)) -> bool {
    key_before(assets, k, assets.len() as int, 0)
}

/// The key `k` is in the list `ks`.
pub open spec fn has_key(ks: Seq<(String, String)>, k: (Seq<char>, Seq<char>)) -> bool {
    exists|m: int| 0 <= m < ks.len() && pair_view(#[trigger] ks[m]) == k
}

/// No key occurs twice in `ks`.
pub open spec fn keys_distinct(ks: Seq<(String, String)>) -> bool {
    forall|m: int, n: int|
        0 <= m < n < ks.len() ==> pair_view(#[trigger] ks[m]) != pair_view(#[trigger] ks[n])
}

fn opt_text(o: &Option<String>) -> (r: String)
    ensures
        r@ == text_or_empty(*o),
{
    match o {
        Some(s) => s.clone(),
        None => String::new(),
    }
}

fn find_key(ks: &Vec<(String, String)>, w: &str, o: &str) -> (b: bool)
    ensures
        b == has_key(ks@, (w@, o@)),
{
    let mut m: usize = 0;
    while m < ks.len()
        invariant
            m <= ks.len(),
            forall|q: int| 0 <= q < m ==> pair_view(#[trigger] ks@[q]) != (w@, o@),
        decreases ks.len() - m,
    {
        if text::str_eq(ks[m].0.as_str(), w) && text::str_eq(ks[m].1.as_str(), o) {
            assert(pair_view(ks@[m as int]) == (w@, o@));
            return true;
        }
        m = m + 1;
    }
    false
}

/// The distinct (workspace id, object id) keys of the assets that need
/// enrichment, so that each is fetched once: a key is in the list exactly
/// when some asset needing enrichment has it, and none occurs twice.
pub fn enrichment_keys(issue_assets: &[Vec<LinkedAsset>]) -> (r: Vec<(String, String)>)
    ensures
        keys_distinct(r@),
        forall|k: (Seq<char>, Seq<char>)| has_key(r@, k) <==> is_enrichment_key(issue_assets@, k),
{
    let mut out: Vec<(String, String)> = Vec::new();
    let mut i: usize = 0;
    while i < issue_assets.len()
        invariant
            i <= issue_assets.len(),
            keys_distinct(out@),
            forall|k: (Seq<char>, Seq<char>)|
                has_key(out@, k) <==> key_before(issue_assets@, k, i as int, 0),
        decreases issue_assets.len() - i,
    {
        let row = &issue_assets[i];
        let mut j: usize = 0;
        while j < row.len()
            invariant
                i < issue_assets.len(),
                *row == issue_assets@[i as int],
                j <= row.len(),
                keys_distinct(out@),
                forall|k: (Seq<char>, Seq<char>)|
                    has_key(out@, k) <==> key_before(issue_assets@, k, i as int, j as int),
            decreases row.len() - j,
        {
            let a = &row[j];
            let ghost old_out = out@;
            assert(forall|k: (Seq<char>, Seq<char>)|
                has_key(old_out, k) <==> key_before(issue_assets@, k, i as int, j as int));
            if a.id.is_some() && a.key.is_none() && a.name.is_none() {
                let w = opt_text(&a.workspace_id);
                let o = opt_text(&a.id);
                if !find_key(&out, w.as_str(), o.as_str()) {
                    out.push((w, o));
                    assert forall|m: int, n: int| 0 <= m < n < out@.len() implies pair_view(
                        #[trigger] out@[m],
                    ) != pair_view(#[trigger] out@[n]) by {
                        if n == out@.len() - 1 {
                            assert(out@[m] == old_out[m]);
                        } else {
                            assert(out@[m] == old_out[m]);
                            assert(out@[n] == old_out[n]);
                        }
                    }
                    assert forall|k: (Seq<char>, Seq<char>)| has_key(out@, k) implies has_key(
                        old_out,
                        k,
                    ) || k == raw_key(*a) by {
                        let m = choose|m: int| 0 <= m < out@.len() && pair_view(#[trigger] out@[m])
                            == k;
                        if m < old_out.len() {
                            assert(out@[m] == old_out[m]);
                        }
                    }
                    assert forall|k: (Seq<char>, Seq<char>)| has_key(old_out, k) implies has_key(
                        out@,
                        k,
                    ) by {
                        let m = choose|m: int| 0 <= m < old_out.len() && pair_view(
                            #[trigger] old_out[m],
                        ) == k;
                        assert(out@[m] == old_out[m]);
                    }
                    assert(pair_view(out@[out@.len() - 1]) == raw_key(*a));
                }
            }
            assert forall|k: (Seq<char>, Seq<char>)| has_key(out@, k) <==> (has_key(old_out, k) || (
            needs_enrichment(*a) && raw_key(*a) == k)) by {
                if needs_enrichment(*a) && raw_key(*a) == k && !has_key(old_out, k) {
                    assert(pair_view(out@[out@.len() - 1]) == k);
                }
                if has_key(old_out, k) {
                    let m = choose|m: int| 0 <= m < old_out.len() && pair_view(#[trigger] old_out[m])
                        == k;
                    assert(out@[m] == old_out[m]);
                }
            }
            assert forall|k: (Seq<char>, Seq<char>)|
                key_before(issue_assets@, k, i as int, j + 1) <==> (key_before(
                    issue_assets@,
                    k,
                    i as int,
                    j as int,
                ) || (needs_enrichment(*a) && raw_key(*a) == k)) by {
                if key_before(issue_assets@, k, i as int, j + 1) {
                    let (x, y) = choose|x: int, y: int|
                        0 <= x < issue_assets@.len() && 0 <= y < issue_assets@[x]@.len() && (x
                            < i || (x == i && y < j + 1)) && needs_enrichment(
                            #[trigger] issue_assets@[x]@[y],
                        ) && raw_key(issue_assets@[x]@[y]) == k;
                    if !(x == i && y == j) {
                        assert(key_before(issue_assets@, k, i as int, j as int));
                    }
                }
                if needs_enrichment(*a) && raw_key(*a) == k {
                    assert(issue_assets@[i as int]@[j as int] == *a);
                }
            }
            assert forall|k: (Seq<char>, Seq<char>)| has_key(out@, k) <==> key_before(
                issue_assets@,
                k,
                i as int,
                j + 1,
            ) by {
                assert(has_key(old_out, k) <==> key_before(issue_assets@, k, i as int, j as int));
            }
            j = j + 1;
        }
        assert forall|k: (Seq<char>, Seq<char>)|
            key_before(issue_assets@, k, i + 1, 0) <==> key_before(
                issue_assets@,
                k,
                i as int,
                row@.len() as int,
            ) by {
            if key_before(issue_assets@, k, i + 1, 0) {
                let (x, y) = choose|x: int, y: int|
                    0 <= x < issue_assets@.len() && 0 <= y < issue_assets@[x]@.len() && (x < i + 1
                        || (x == i + 1 && y < 0)) && needs_enrichment(
                        #[trigger] issue_assets@[x]@[y],
                    ) && raw_key(issue_assets@[x]@[y]) == k;
                assert(key_before(issue_assets@, k, i as int, row@.len() as int));
            }
        }
        i = i + 1;
    }
    out
}

/// The workspace an asset is fetched from: its own, or the fallback
/// workspace when it carries none (empty when there is no fallback either).
pub open spec fn effective_workspace(w: Seq<char>, fallback: Option<String>) -> Seq<char> {
    if w.len() == 0 {
        text_or_empty(fallback)
    } else {
        w
    }
}

/// The key under which an asset's fetched details are found.
pub open spec fn effective_key(a: LinkedAsset, fallback: Option<String>) -> (Seq<char>, Seq<char>) {
    (effective_workspace(text_or_empty(a.workspace_id), fallback), text_or_empty(a.id))
}

/// The (workspace id, object id) to fetch for an enrichment key.
pub fn fetch_key(key: &(String, String), fallback_wid: &Option<String>) -> (r: (String, String))
    ensures
        pair_view(r) == (effective_workspace(key.0@, *fallback_wid), key.1@),
{
    let w = if key.0.as_str().unicode_len() == 0 {
        opt_text(fallback_wid)
    } else {
        key.0.clone()
    };
    (w, key.1.clone())
}

/// The details (key, label, type) fetched under `k`: the last result given
/// for it, as a map filled in order keeps the last.
pub open spec fn fetched(
    resolved: Seq<((String, String), (String, String, String))>,
    k: (Seq<char>, Seq<char>),
) -> Option<(String, String, String)>
    decreases resolved.len(),
{
    if resolved.len() == 0 {
        None
    } else if pair_view(resolved.last().0) == k {
        Some(resolved.last().1)
    } else {
        fetched(resolved.drop_last(), k)
    }
}

/// An asset after enrichment: one known only by its id takes the key,
/// name and type fetched for it, when the fetch succeeded; any other asset
/// is left as it is.
pub open spec fn enriched(
    a: LinkedAsset,
    fallback: Option<String>,
    resolved: Seq<((String, String), (String, String, String))>,
) -> LinkedAsset {
    if needs_enrichment(a) {
        match fetched(resolved, effective_key(a, fallback)) {
            Some(d) => LinkedAsset {
                key: Some(d.0),
                name: Some(d.1),
                asset_type: Some(d.2),
                id: a.id,
                workspace_id: a.workspace_id,
            },
            None => a,
        }
    } else {
        a
    }
}

fn copy_opt(o: &Option<String>) -> (r: Option<String>)
    ensures
        r == *o,
{
    match o {
        Some(s) => Some(s.clone()),
        None => None,
    }
}

fn find_fetched(
    resolved: &[((String, String), (String, String, String))],
    w: &str,
    o: &str,
) -> (r: Option<(String, String, String)>)
    ensures
        r == fetched(resolved@, (w@, o@)),
{
    let mut k: usize = resolved.len();
    assert(resolved@.take(k as int) =~= resolved@);
    while k > 0
        invariant
            k <= resolved.len(),
            fetched(resolved@, (w@, o@)) == fetched(resolved@.take(k as int), (w@, o@)),
        decreases k,
    {
        let e = &resolved[k - 1];
        assert(resolved@.take(k as int).last() == resolved@[k - 1]);
        assert(resolved@.take(k as int).drop_last() =~= resolved@.take(k - 1));
        if text::str_eq(e.0.0.as_str(), w) && text::str_eq(e.0.1.as_str(), o) {
            return Some((e.1.0.clone(), e.1.1.clone(), e.1.2.clone()));
        }
        k = k - 1;
    }
    None
}

fn enrich_one(
    a: &LinkedAsset,
    fallback_wid: &Option<String>,
    resolved: &[((String, String), (String, String, String))],
) -> (r: LinkedAsset)
    ensures
        r == enriched(*a, *fallback_wid, resolved@),
{
    let copy = LinkedAsset {
        key: copy_opt(&a.key),
        name: copy_opt(&a.name),
        asset_type: copy_opt(&a.asset_type),
        id: copy_opt(&a.id),
        workspace_id: copy_opt(&a.workspace_id),
    };
    if !(a.id.is_some() && a.key.is_none() && a.name.is_none()) {
        return copy;
    }
    let raw = opt_text(&a.workspace_id);
    let w = if raw.as_str().unicode_len() == 0 {
        opt_text(fallback_wid)
    } else {
        raw
    };
    let o = opt_text(&a.id);
    match find_fetched(resolved, w.as_str(), o.as_str()) {
        Some(d) => LinkedAsset {
            key: Some(d.0),
            name: Some(d.1),
            asset_type: Some(d.2),
            id: copy.id,
            workspace_id: copy.workspace_id,
        },
        None => copy,
    }
}

/// The issues' assets with the fetched details applied: each asset known
/// only by its id takes the key, name and type fetched under its effective
/// (workspace id, object id), when that fetch succeeded.
pub fn enrich_assets(
    issue_assets: &[Vec<LinkedAsset>],
    fallback_wid: &Option<String>,
    resolved: &[((String, String), (String, String, String))],
) -> (r: Vec<Vec<LinkedAsset>>)
    ensures
        r@.len() == issue_assets@.len(),
        forall|i: int|
            0 <= i < r@.len() ==> (#[trigger] r@[i])@ == issue_assets@[i]@.map_values(
                |a: LinkedAsset| enriched(a, *fallback_wid, resolved@),
            ),
{
    let mut out: Vec<Vec<LinkedAsset>> = Vec::new();
    let mut i: usize = 0;
    while i < issue_assets.len()
        invariant
            i <= issue_assets.len(),
            out@.len() == i,
            forall|x: int|
                0 <= x < i ==> (#[trigger] out@[x])@ == issue_assets@[x]@.map_values(
                    |a: LinkedAsset| enriched(a, *fallback_wid, resolved@),
                ),
        decreases issue_assets.len() - i,
    {
        let row = &issue_assets[i];
        let mut new_row: Vec<LinkedAsset> = Vec::new();
        let mut j: usize = 0;
        while j < row.len()
            invariant
                j <= row.len(),
                new_row@.len() == j,
                forall|y: int|
                    0 <= y < j ==> #[trigger] new_row@[y] == enriched(row@[y], *fallback_wid, resolved@),
            decreases row.len() - j,
        {
            let e = enrich_one(&row[j], fallback_wid, resolved);
            new_row.push(e);
            j = j + 1;
        }
        assert(new_row@ =~= row@.map_values(|a: LinkedAsset| enriched(a, *fallback_wid, resolved@)));
        out.push(new_row);
        i = i + 1;
    }
    out
}

// ───────────────────────────── regrouping by field ─────────────────────────────

/// The assets of an issue, taken from the CMDB fields in order, regrouped
/// by field: `fields` gives each field id with how many of the assets came
/// from it, starting at `offset`; a field with assets is paired with its
/// run of them, as long as the run lies within the list.
pub open spec fn grouped_by_field(
    fields: Seq<(String, usize)>,
    assets: Seq<LinkedAsset>,
    offset: int,
) -> Seq<(String, Seq<LinkedAsset>)>
    decreases fields.len(),
{
    if fields.len() == 0 {
        Seq::empty()
    } else {
        let c = fields[0].1 as int;
        let rest = grouped_by_field(fields.drop_first(), assets, offset + c);
        if c > 0 && offset + c <= assets.len() {
            seq![(fields[0].0, assets.subrange(offset, offset + c))] + rest
        } else {
            rest
        }
    }
}

/// Once the runs have passed the end of the list, no further field gets
/// any.
proof fn lemma_grouped_past_end(fields: Seq<(String, usize)>, assets: Seq<LinkedAsset>, offset: int)
    requires
        offset > assets.len(),
    ensures
        grouped_by_field(fields, assets, offset) == Seq::<(String, Seq<LinkedAsset>)>::empty(),
    decreases fields.len(),
{
    if fields.len() > 0 {
        lemma_grouped_past_end(fields.drop_first(), assets, offset + fields[0].1 as int);
    }
}

fn copy_asset(a: &LinkedAsset) -> (r: LinkedAsset)
    ensures
        r == *a,
{
    LinkedAsset {
        key: copy_opt(&a.key),
        name: copy_opt(&a.name),
        asset_type: copy_opt(&a.asset_type),
        id: copy_opt(&a.id),
        workspace_id: copy_opt(&a.workspace_id),
    }
}

/// Regroup an issue's (enriched) assets by the CMDB field they came from,
/// for the JSON output: `fields` lists each field id with the number of
/// assets read from it, in the order the assets were read.
pub fn assets_by_field(fields: &[(String, usize)], assets: &[LinkedAsset]) -> (r: Vec<
    (String, Vec<LinkedAsset>),
>)
    ensures
        r@.map_values(|p: (String, Vec<LinkedAsset>)| (p.0, p.1@)) == grouped_by_field(
            fields@,
            assets@,
            0,
        ),
{
    let mut out: Vec<(String, Vec<LinkedAsset>)> = Vec::new();
    let mut offset: usize = 0;
    let mut past_end = false;
    let ghost mut off: int = 0;
    let mut i: usize = 0;
    assert(fields@.skip(0) =~= fields@);
    while i < fields.len()
        invariant
            i <= fields.len(),
            past_end ==> off > assets@.len(),
            !past_end ==> off == offset as int && offset <= assets@.len(),
            out@.map_values(|p: (String, Vec<LinkedAsset>)| (p.0, p.1@)) + grouped_by_field(
                fields@.skip(i as int),
                assets@,
                off,
            ) == grouped_by_field(fields@, assets@, 0),
        decreases fields.len() - i,
    {
        let ghost before = out@.map_values(|p: (String, Vec<LinkedAsset>)| (p.0, p.1@));
        let ghost tail = fields@.skip(i as int);
        assert(tail[0] == fields@[i as int]);
        assert(tail.drop_first() =~= fields@.skip(i + 1));
        let count = fields[i].1;
        if past_end {
            proof {
                lemma_grouped_past_end(tail, assets@, off);
                lemma_grouped_past_end(tail.drop_first(), assets@, off + count as int);
            }
        } else if count > assets.len() - offset {
            proof {
                lemma_grouped_past_end(tail.drop_first(), assets@, off + count as int);
            }
            past_end = true;
        } else {
            if count > 0 {
                let mut run: Vec<LinkedAsset> = Vec::new();
                let end = offset + count;
                let mut j: usize = offset;
                while j < end
                    invariant
                        offset <= j <= end,
                        end <= assets@.len(),
                        run@ == assets@.subrange(offset as int, j as int),
                    decreases end - j,
                {
                    let a = copy_asset(&assets[j]);
                    run.push(a);
                    assert(run@ =~= assets@.subrange(offset as int, j + 1));
                    j = j + 1;
                }
                out.push((fields[i].0.clone(), run));
                assert(out@.map_values(|p: (String, Vec<LinkedAsset>)| (p.0, p.1@)) =~= before.push(
                    (fields@[i as int].0, assets@.subrange(off, off + count)),
                ));
            }
            offset = offset + count;
        }
        proof {
            off = off + count as int;
        }
        i = i + 1;
    }
    assert(fields@.skip(i as int) =~= Seq::<(String, usize)>::empty());
    assert(out@.map_values(|p: (String, Vec<LinkedAsset>)| (p.0, p.1@)) + Seq::<
        (String, Seq<LinkedAsset>),
    >::empty() =~= out@.map_values(|p: (String, Vec<LinkedAsset>)| (p.0, p.1@)));
    out
}

} // verus!
