//! Decisions of `issue create` on a service desk request.
use vstd::prelude::*;

use crate::error::JrError;
use crate::partial_match;
use crate::partial_match::{MatchResult, MatchView};
use crate::text;
use crate::types::jsm::RequestType;

verus! {

/// The hint given after a `--field` value (`:option`, `:id`, `:name`,
/// `:asset`), which routes the value to its composer.
#[derive(Clone, Copy, Debug, PartialEq, Eq)]
pub enum FieldValueKind {
    SelectOption,
    Id,
    Name,
    Asset,
}

/// Whether the empty-value omission for rich-text fields applies to a
/// `--field` token: only to the bare form; a hinted value bypasses rich-text
/// detection whatever it holds.
pub fn jsm_adf_empty_omit_guard_applies(kind: Option<FieldValueKind>) -> (r: bool)
    ensures
        r == kind is None,
{
    kind.is_none()
}


/// A `--field` value with its hint, if it had one.
pub struct FieldValueSpec {
    pub kind: Option<FieldValueKind>,
    pub value: String,
}

// ───────────────────────────── `:asset` values ─────────────────────────────

/// A checked `:asset` value: an object in a named workspace, or an object
/// whose workspace is the cached one.
pub enum AssetReference {
    Qualified { workspace_id: String, object_id: String },
    Bare { object_id: String },
}

/// An `AssetReference` seen as character sequences.
pub enum AssetReferenceView {
    Qualified { workspace_id: Seq<char>, object_id: Seq<char> },
    Bare { object_id: Seq<char> },
}

impl View for AssetReference {
    type V = AssetReferenceView;

    open spec fn view(&self) -> AssetReferenceView {
        match self {
            AssetReference::Qualified { workspace_id, object_id } => AssetReferenceView::Qualified {
                workspace_id: workspace_id@,
                object_id: object_id@,
            },
            AssetReference::Bare { object_id } => AssetReferenceView::Bare { object_id: object_id@ },
        }
    }
}

/// The message for an empty `:asset` value.
pub open spec fn empty_asset_text() -> Seq<char> {
    "asset reference cannot be empty. Use --field NAME:asset=OBJECTID (workspace id resolved from cache) or --field NAME:asset=WORKSPACE:OBJECTID."@
}

/// The message for `:asset=:…`.
pub open spec fn empty_workspace_text() -> Seq<char> {
    "workspace segment cannot be empty when ':' is present; omit the workspace prefix entirely to use the cached workspace id."@
}

/// The message for a second `:` in an `:asset` value.
pub open spec fn extra_colon_text(value: Seq<char>) -> Seq<char> {
    "unexpected extra ':' in :asset value '"@ + value + "' — expected WORKSPACE:OBJECTID."@
}

/// The message for an object id that is not a decimal number.
pub open spec fn non_numeric_object_text(object_id: Seq<char>) -> Seq<char> {
    "objectId must be numeric (ASCII digits only); got '"@ + object_id + "'."@
}

/// What an `:asset` value is: refused with the first check it fails (empty;
/// empty workspace before a `:`; a second `:`; an object id that is empty
/// or not ASCII digits), or the workspace and object it names.
pub open spec fn asset_reference_outcome(v: Seq<char>) -> Result<AssetReferenceView, Seq<char>> {
    if v.len() == 0 {
        Err(empty_asset_text())
    } else {
        match text::first_occurrence(v, seq![':']) {
            Some(i) => {
                let ws = v.take(i);
                let obj = v.skip(i + 1);
                if ws.len() == 0 {
                    Err(empty_workspace_text())
                } else if text::contains_seq(obj, seq![':']) {
                    Err(extra_colon_text(v))
                } else if obj.len() == 0 || !text::all_digits(obj) {
                    Err(non_numeric_object_text(obj))
                } else {
                    Ok(AssetReferenceView::Qualified { workspace_id: ws, object_id: obj })
                }
            },
            None => if !text::all_digits(v) {
                Err(non_numeric_object_text(v))
            } else {
                Ok(AssetReferenceView::Bare { object_id: v })
            },
        }
    }
}

/// The outcome with the refusal seen as its message.
pub open spec fn asset_result_view(r: Result<AssetReference, JrError>) -> Result<
    AssetReferenceView,
    Seq<char>,
> {
    match r {
        Ok(a) => Ok(a@),
        Err(JrError::UserError(m)) => Err(m@),
        Err(_) => Err(Seq::empty()),
    }
}

/// Check an `:asset` value before any request is made.
pub fn check_asset_reference(value: &str) -> (r: Result<AssetReference, JrError>)
    ensures
        r is Ok || r matches Err(JrError::UserError(_)),
        asset_result_view(r) == asset_reference_outcome(value@),
{
    let v = text::chars_of(value);
    if v.len() == 0 {
        return Err(
            JrError::UserError(
                String::from_str(
                    "asset reference cannot be empty. Use --field NAME:asset=OBJECTID (workspace id resolved from cache) or --field NAME:asset=WORKSPACE:OBJECTID.",
                ),
            ),
        );
    }
    let colon = vec![':'];
    assert(colon@ =~= seq![':']);
    match text::find_first(&v, &colon) {
        Some(i) => {
            proof {
                text::lemma_first_occurrence_from(v@, colon@, 0);
            }
            assert(text::occurs_at(v@, colon@, i as int));
            let (ws, rest) = v.as_slice().split_at(i);
            let obj = rest.split_at(1).1;
            assert(ws@ =~= v@.take(i as int));
            assert(obj@ =~= v@.skip(i + 1));
            if ws.len() == 0 {
                return Err(
                    JrError::UserError(
                        String::from_str(
                            "workspace segment cannot be empty when ':' is present; omit the workspace prefix entirely to use the cached workspace id.",
                        ),
                    ),
                );
            }
            let object_id = text::string_from_chars(obj);
            let obj_v = text::chars_of(object_id.as_str());
            if text::contains_chars(&obj_v, &colon) {
                let mut m = String::from_str("unexpected extra ':' in :asset value '");
                m.append(value);
                m.append("' — expected WORKSPACE:OBJECTID.");
                return Err(JrError::UserError(m));
            }
            if obj_v.len() == 0 || !text::all_digits_in(&obj_v, 0, obj_v.len()) {
                assert(obj_v@.subrange(0, obj_v@.len() as int) =~= obj_v@);
                let mut m = String::from_str("objectId must be numeric (ASCII digits only); got '");
                m.append(object_id.as_str());
                m.append("'.");
                return Err(JrError::UserError(m));
            }
            assert(obj_v@.subrange(0, obj_v@.len() as int) =~= obj_v@);
            Ok(AssetReference::Qualified { workspace_id: text::string_from_chars(ws), object_id })
        },
        None => {
            if !text::all_digits_in(&v, 0, v.len()) {
                assert(v@.subrange(0, v@.len() as int) =~= v@);
                let mut m = String::from_str("objectId must be numeric (ASCII digits only); got '");
                m.append(value);
                m.append("'.");
                return Err(JrError::UserError(m));
            }
            assert(v@.subrange(0, v@.len() as int) =~= v@);
            Ok(AssetReference::Bare { object_id: text::owned(value) })
        },
    }
}

/// The `--field` value for an asset: `<workspace>:<object>`, hinted `:asset`.
pub fn asset_field_spec(workspace_id: &str, object_id: &str) -> (r: FieldValueSpec)
    ensures
        r.kind == Some(FieldValueKind::Asset),
        r.value@ == workspace_id@ + ":"@ + object_id@,
{
    let mut v = text::owned(workspace_id);
    v.append(":");
    v.append(object_id);
    FieldValueSpec { kind: Some(FieldValueKind::Asset), value: v }
}

// ───────────────────────────── rich-text extra fields ─────────────────────────────

/// What becomes of one `--field` value on a service desk request.
#[derive(PartialEq, Eq, Structural, Debug)]
pub enum ExtraFieldAction {
    /// Sent as it is.
    Keep,
    /// Left out of the request.
    Omit,
    /// Converted to a rich-text document.
    ConvertToRichText,
}

/// A hinted value is sent as it is; so is a bare value of a field the
/// request type does not list (`rich_text` is `None`) or that is not a
/// rich-text field; a bare rich-text value is left out when blank and
/// converted otherwise.
pub open spec fn extra_field_action_of(
    kind: Option<FieldValueKind>,
    rich_text: Option<bool>,
    value: Seq<char>,
) -> ExtraFieldAction {
    if kind is Some {
        ExtraFieldAction::Keep
    } else if rich_text != Some(true) {
        ExtraFieldAction::Keep
    } else if text::trim(value).len() == 0 {
        ExtraFieldAction::Omit
    } else {
        ExtraFieldAction::ConvertToRichText
    }
}

/// Decide what becomes of one `--field` value, given whether the request
/// type lists the field and, if so, whether it holds rich text.
pub fn extra_field_action(kind: Option<FieldValueKind>, rich_text: Option<bool>, value: &str) -> (r:
    ExtraFieldAction)
    ensures
        r == extra_field_action_of(kind, rich_text, value@),
{
    if !jsm_adf_empty_omit_guard_applies(kind) {
        return ExtraFieldAction::Keep;
    }
    match rich_text {
        Some(true) => {
            let v = text::chars_of(value);
            let (a, b) = text::trim_bounds(&v);
            if a == b {
                ExtraFieldAction::Omit
            } else {
                ExtraFieldAction::ConvertToRichText
            }
        },
        _ => ExtraFieldAction::Keep,
    }
}


/// A bare or hinted `--field` value of a service desk request, with what the
/// request type's field list says of its field: `None` when the list does
/// not hold it (or could not be fetched), otherwise whether it holds rich
/// text.
pub struct ExtraField {
    pub name: String,
    pub spec: FieldValueSpec,
    pub rich_text: Option<bool>,
}

/// The `--field` values after rich-text detection: those sent as they are,
/// the texts to convert to rich-text documents, and whether the request
/// must be marked as carrying rich text.
pub struct JsmAdfFieldResolution {
    pub extra_fields: Vec<(String, FieldValueSpec)>,
    pub adf_texts: Vec<(String, String)>,
    pub is_adf_request: bool,
}

/// The action taken on one extra field.
pub open spec fn action_on(f: ExtraField) -> ExtraFieldAction {
    extra_field_action_of(f.spec.kind, f.rich_text, f.spec.value@)
}

/// The fields of `fs` sent as they are, in order.
pub open spec fn kept_fields(fs: Seq<ExtraField>) -> Seq<(String, FieldValueSpec)>
    decreases fs.len(),
{
    if fs.len() == 0 {
        Seq::empty()
    } else if action_on(fs.last()) == ExtraFieldAction::Keep {
        kept_fields(fs.drop_last()).push((fs.last().name, fs.last().spec))
    } else {
        kept_fields(fs.drop_last())
    }
}

/// The names and texts of the fields of `fs` converted to rich text, in
/// order.
pub open spec fn converted_fields(fs: Seq<ExtraField>) -> Seq<(String, String)>
    decreases fs.len(),
{
    if fs.len() == 0 {
        Seq::empty()
    } else if action_on(fs.last()) == ExtraFieldAction::ConvertToRichText {
        converted_fields(fs.drop_last()).push((fs.last().name, fs.last().spec.value))
    } else {
        converted_fields(fs.drop_last())
    }
}

/// Sort a request's `--field` values by what the request type's field list
/// says of them: hinted values, values of fields the list does not hold and
/// values of fields that are not rich text are sent as they are; blank
/// values of rich-text fields are left out; the others are to be converted
/// to rich-text documents, and the request is then marked as carrying rich
/// text. When the field list could not be fetched, every `rich_text` is
/// `None` and every value is sent as it is.
pub fn resolve_jsm_adf_extra_fields(fields: &[ExtraField]) -> (r: JsmAdfFieldResolution)
    ensures
        r.extra_fields@ == kept_fields(fields@),
        r.adf_texts@ == converted_fields(fields@),
        r.is_adf_request == (converted_fields(fields@).len() > 0),
{
    let mut kept: Vec<(String, FieldValueSpec)> = Vec::new();
    let mut converted: Vec<(String, String)> = Vec::new();
    let mut i: usize = 0;
    while i < fields.len()
        invariant
            i <= fields.len(),
            kept@ == kept_fields(fields@.take(i as int)),
            converted@ == converted_fields(fields@.take(i as int)),
        decreases fields.len() - i,
    {
        let f = &fields[i];
        assert(fields@.take(i + 1).drop_last() =~= fields@.take(i as int));
        assert(fields@.take(i + 1).last() == fields@[i as int]);
        let action = extra_field_action(f.spec.kind, f.rich_text, f.spec.value.as_str());
        match action {
            ExtraFieldAction::Keep => {
                let spec = FieldValueSpec { kind: f.spec.kind, value: f.spec.value.clone() };
                kept.push((f.name.clone(), spec));
            },
            ExtraFieldAction::Omit => {},
            ExtraFieldAction::ConvertToRichText => {
                converted.push((f.name.clone(), f.spec.value.clone()));
            },
        }
        i = i + 1;
    }
    assert(fields@.take(i as int) =~= fields@);
    let is_adf_request = converted.len() > 0;
    JsmAdfFieldResolution { extra_fields: kept, adf_texts: converted, is_adf_request }
}

// ───────────────────────────── the request type ─────────────────────────────

/// The names of the request types, in order.
pub open spec fn request_type_names(ts: Seq<RequestType>) -> Seq<Seq<char>> {
    ts.map_values(|t: RequestType| t.name@)
}

/// The index of the first request type named exactly `name`, if any.
pub open spec fn first_type_named(ts: Seq<RequestType>, name: Seq<char>) -> Option<int>
    decreases ts.len(),
{
    if ts.len() == 0 {
        None
    } else {
        match first_type_named(ts.drop_last(), name) {
            Some(k) => Some(k),
            None => if ts.last().name@ == name {
                Some(ts.len() - 1)
            } else {
                None
            },
        }
    }
}

/// The ids of the request types whose lower-cased name is `key`, in order.
pub open spec fn type_ids_named_like(ts: Seq<RequestType>, key: Seq<char>) -> Seq<Seq<char>>
    decreases ts.len(),
{
    if ts.len() == 0 {
        Seq::empty()
    } else if text::lowercase_of(ts.last().name@) == key {
        type_ids_named_like(ts.drop_last(), key).push(ts.last().id@)
    } else {
        type_ids_named_like(ts.drop_last(), key)
    }
}

/// Each name in double quotes.
pub open spec fn quoted(ns: Seq<Seq<char>>) -> Seq<Seq<char>> {
    ns.map_values(|n: Seq<char>| "\""@ + n + "\""@)
}

/// The message for a name that several request types share up to case.
pub open spec fn duplicate_type_text(name: Seq<char>, ids: Seq<Seq<char>>) -> Seq<char> {
    "Multiple request types named \""@ + name + "\" found (IDs: "@ + text::join_seq(ids, ", "@)
        + "). Pass the numeric ID directly."@
}

/// The message for a name that several request types contain.
pub open spec fn ambiguous_type_text(name: Seq<char>, project_key: Seq<char>, ms: Seq<Seq<char>>) -> Seq<
    char,
> {
    "Ambiguous request type \""@ + name + "\" matches: "@ + text::join_seq(quoted(ms), ", "@)
        + ". Run `jr requesttype list --project "@ + project_key + "` to see all request types."@
}

/// The message for a name no request type matches.
pub open spec fn unknown_type_text(name: Seq<char>, project_key: Seq<char>, cache_file: Seq<char>) -> Seq<
    char,
> {
    "Request type \""@ + name + "\" not found. Run `jr requesttype list --project "@ + project_key
        + "` to see all request types, or delete the cache file at "@ + cache_file
        + " if a recent admin change is suspected."@
}

/// The request type a name resolves to among the service desk's types: the
/// id of the one matching it exactly (up to case); refused when several
/// share that name (listing their ids), when several contain it (listing
/// them), or when none does (naming the cache file that may be stale).
pub open spec fn request_type_outcome(
    name: Seq<char>,
    project_key: Seq<char>,
    cache_file: Seq<char>,
    ts: Seq<RequestType>,
) -> Result<Seq<char>, Seq<char>> {
    match partial_match::match_outcome(name, request_type_names(ts)) {
        MatchView::Exact(m) => match first_type_named(ts, m) {
            Some(k) => Ok(ts[k].id@),
            None => Err(Seq::empty()),
        },
        MatchView::ExactMultiple(ms) => {
            let first = if ms.len() > 0 {
                ms[0]
            } else {
                Seq::empty()
            };
            Err(duplicate_type_text(first, type_ids_named_like(ts, text::lowercase_of(first))))
        },
        MatchView::Ambiguous(ms) => Err(ambiguous_type_text(name, project_key, ms)),
        MatchView::NoMatch(_) => Err(unknown_type_text(name, project_key, cache_file)),
    }
}

/// The outcome with the refusal seen as its message.
pub open spec fn type_result_view(r: Result<String, JrError>) -> Result<Seq<char>, Seq<char>> {
    match r {
        Ok(id) => Ok(id@),
        Err(JrError::UserError(m)) => Err(m@),
        Err(_) => Err(Seq::empty()),
    }
}

/// A name that is among the names has a first request type of that name.
proof fn lemma_named_type_exists(ts: Seq<RequestType>, name: Seq<char>)
    requires
        request_type_names(ts).contains(name),
    ensures
        first_type_named(ts, name) is Some,
    decreases ts.len(),
{
    let j = choose|j: int| 0 <= j < request_type_names(ts).len() && request_type_names(ts)[j] == name;
    if j < ts.len() - 1 {
        assert(request_type_names(ts.drop_last())[j] == name);
        lemma_named_type_exists(ts.drop_last(), name);
    }
}

/// Once the first request type of a name lies within the first `k`, it is
/// the first of the whole list too.
proof fn lemma_first_type_named_prefix(ts: Seq<RequestType>, name: Seq<char>, k: int)
    requires
        0 <= k <= ts.len(),
        first_type_named(ts.take(k), name) is Some,
    ensures
        first_type_named(ts, name) == first_type_named(ts.take(k), name),
    decreases ts.len() - k,
{
    if k < ts.len() {
        assert(ts.take(k + 1).drop_last() =~= ts.take(k));
        lemma_first_type_named_prefix(ts, name, k + 1);
    } else {
        assert(ts.take(k) =~= ts);
    }
}

fn id_of_type_named(types: &[RequestType], name: &str) -> (r: String)
    requires
        request_type_names(types@).contains(name@),
    ensures
        first_type_named(types@, name@) matches Some(k) && r@ == types@[k].id@,
{
    let ghost ts = types@;
    proof {
        lemma_named_type_exists(ts, name@);
    }
    let mut k: usize = 0;
    while k < types.len()
        invariant
            k <= ts.len(),
            ts == types@,
            first_type_named(ts, name@) is Some,
            first_type_named(ts.take(k as int), name@) is None,
        decreases ts.len() - k,
    {
        assert(ts.take(k + 1).drop_last() =~= ts.take(k as int));
        if text::str_eq(types[k].name.as_str(), name) {
            assert(ts.take(k + 1).last() == ts[k as int]);
            proof {
                lemma_first_type_named_prefix(ts, name@, k as int + 1);
            }
            return types[k].id.clone();
        }
        k = k + 1;
    }
    assert(ts.take(ts.len() as int) =~= ts);
    proof {
        assert(false);
    }
    String::new()
}

/// Resolve a request type name to its id among the service desk's request
/// types (`cache_file` is where the list was cached, named when nothing
/// matches).
pub fn resolve_request_type_by_name(
    name: &str,
    types: &[RequestType],
    project_key: &str,
    cache_file: &str,
) -> (r: Result<String, JrError>)
    ensures
        r is Ok || r matches Err(JrError::UserError(_)),
        type_result_view(r) == request_type_outcome(name@, project_key@, cache_file@, types@),
{
    let ghost ts = types@;
    let mut names: Vec<String> = Vec::new();
    let mut i: usize = 0;
    while i < types.len()
        invariant
            i <= ts.len(),
            ts == types@,
            names@.len() == i,
            forall|j: int| 0 <= j < i ==> (#[trigger] names@[j])@ == ts[j].name@,
        decreases ts.len() - i,
    {
        names.push(types[i].name.clone());
        i = i + 1;
    }
    assert(text::views(names@) =~= request_type_names(ts));
    match partial_match::partial_match(name, names.as_slice()) {
        MatchResult::Exact(matched) => {
            proof {
                partial_match::law_reported_names_are_candidates(name@, request_type_names(ts));
            }
            Ok(id_of_type_named(types, matched.as_str()))
        },
        MatchResult::ExactMultiple(matched) => {
            let first = if matched.len() > 0 {
                matched[0].clone()
            } else {
                String::new()
            };
            let key = text::lowercase(first.as_str());
            let mut ids: Vec<String> = Vec::new();
            let mut k: usize = 0;
            while k < types.len()
                invariant
                    k <= ts.len(),
                    ts == types@,
                    text::views(ids@) == type_ids_named_like(ts.take(k as int), key@),
                decreases ts.len() - k,
            {
                assert(ts.take(k + 1).drop_last() =~= ts.take(k as int));
                let low = text::lowercase(types[k].name.as_str());
                if text::str_eq(low.as_str(), key.as_str()) {
                    ids.push(types[k].id.clone());
                }
                assert(text::views(ids@) =~= type_ids_named_like(ts.take(k + 1), key@));
                k = k + 1;
            }
            assert(ts.take(ts.len() as int) =~= ts);
            let mut m = String::from_str("Multiple request types named \"");
            m.append(first.as_str());
            m.append("\" found (IDs: ");
            m.append(text::join(&ids, ", ").as_str());
            m.append("). Pass the numeric ID directly.");
            Err(JrError::UserError(m))
        },
        MatchResult::Ambiguous(matches) => {
            let mut q: Vec<String> = Vec::new();
            let mut j: usize = 0;
            while j < matches.len()
                invariant
                    j <= matches@.len(),
                    q@.len() == j,
                    text::views(q@) == quoted(text::views(matches@)).take(j as int),
                decreases matches@.len() - j,
            {
                let mut t = String::from_str("\"");
                t.append(matches[j].as_str());
                t.append("\"");
                q.push(t);
                assert(text::views(q@) =~= quoted(text::views(matches@)).take(j + 1));
                j = j + 1;
            }
            assert(quoted(text::views(matches@)).take(matches@.len() as int) =~= quoted(
                text::views(matches@),
            ));
            let mut m = String::from_str("Ambiguous request type \"");
            m.append(name);
            m.append("\" matches: ");
            m.append(text::join(&q, ", ").as_str());
            m.append(". Run `jr requesttype list --project ");
            m.append(project_key);
            m.append("` to see all request types.");
            Err(JrError::UserError(m))
        },
        MatchResult::NoMatch(_) => {
            let mut m = String::from_str("Request type \"");
            m.append(name);
            m.append("\" not found. Run `jr requesttype list --project ");
            m.append(project_key);
            m.append("` to see all request types, or delete the cache file at ");
            m.append(cache_file);
            m.append(" if a recent admin change is suspected.");
            Err(JrError::UserError(m))
        },
    }
}


// ───────────────────────────── checks before any request ─────────────────────────────

/// The key of a `NAME=VALUE` pair: what stands before its first `=`, if it has one.
pub open spec fn pair_key(pair: Seq<char>) -> Option<Seq<char>> {
    match text::first_occurrence(pair, seq!['=']) {
        Some(i) => Some(pair.take(i)),
        None => None,
    }
}

/// Some `--field` pair sets exactly the key `description` (case and
/// spacing as written).
pub open spec fn sets_description(pairs: Seq<Seq<char>>) -> bool {
    exists|i: int| 0 <= i < pairs.len() && #[trigger] pair_key(pairs[i]) == Some("description"@)
}

/// The message when `--markdown` meets `--field description=…`.
pub open spec fn markdown_field_conflict_text() -> Seq<char> {
    "`--field description=...` cannot be combined with `--markdown`: it would overwrite the ADF description with plain text, desyncing `isAdfRequest: true` with a plain-string description value (may result in a JSM 400 error or silently dropped ADF formatting). Pass `--description` with `--markdown`, or omit `--markdown`."@
}

/// The message when `--markdown` has no description to apply to.
pub open spec fn markdown_without_description_text() -> Seq<char> {
    "--markdown requires --description or --description-stdin to take effect. Pass a description alongside --markdown, or omit --markdown."@
}

/// What is wrong with the flags of a service desk request, checked in this
/// order before any request is made: a blank request type; `--markdown`
/// with a `--field description=…` pair; `--markdown` with no description.
pub open spec fn jsm_create_flags_problem(
    request_type: Seq<char>,
    markdown: bool,
    pairs: Seq<Seq<char>>,
    has_description: bool,
    description_stdin: bool,
) -> Option<Seq<char>> {
    if text::trim(request_type).len() == 0 {
        Some("request type cannot be empty"@)
    } else if markdown && sets_description(pairs) {
        Some(markdown_field_conflict_text())
    } else if markdown && !has_description && !description_stdin {
        Some(markdown_without_description_text())
    } else {
        None
    }
}

/// Whether a `NAME=VALUE` pair's key is exactly `description`.
fn pair_sets_description(pair: &str) -> (b: bool)
    ensures
        b == (pair_key(pair@) == Some("description"@)),
{
    let v = text::chars_of(pair);
    let eq = vec!['='];
    assert(eq@ =~= seq!['=']);
    match text::find_first(&v, &eq) {
        Some(i) => {
            proof {
                text::lemma_first_occurrence_from(v@, eq@, 0);
            }
            assert(text::occurs_at(v@, eq@, i as int));
            let key = text::string_from_chars(v.as_slice().split_at(i).0);
            assert(key@ =~= pair@.take(i as int));
            text::str_eq(key.as_str(), "description")
        },
        None => false,
    }
}

/// Check the flags of a service desk request before any request is made.
/// Every refusal is a usage error.
pub fn check_jsm_create_flags(
    request_type: &str,
    markdown: bool,
    field_pairs: &[String],
    has_description: bool,
    description_stdin: bool,
) -> (r: Result<(), JrError>)
    ensures
        match jsm_create_flags_problem(
            request_type@,
            markdown,
            text::views(field_pairs@),
            has_description,
            description_stdin,
        ) {
            None => r is Ok,
            Some(m) => r matches Err(JrError::UserError(x)) && x@ == m,
        },
{
    let v = text::chars_of(request_type);
    let (a, b) = text::trim_bounds(&v);
    if a == b {
        return Err(JrError::UserError(String::from_str("request type cannot be empty")));
    }
    assert(text::trim(request_type@).len() > 0);
    if markdown {
        let ghost ps = text::views(field_pairs@);
        let mut i: usize = 0;
        while i < field_pairs.len()
            invariant
                i <= field_pairs@.len(),
                ps == text::views(field_pairs@),
                markdown,
                text::trim(request_type@).len() > 0,
                forall|j: int| 0 <= j < i ==> #[trigger] pair_key(ps[j]) != Some("description"@),
            decreases field_pairs@.len() - i,
        {
            if pair_sets_description(field_pairs[i].as_str()) {
                assert(pair_key(ps[i as int]) == Some("description"@));
                assert(sets_description(ps));
                return Err(
                    JrError::UserError(
                        String::from_str(
                            "`--field description=...` cannot be combined with `--markdown`: it would overwrite the ADF description with plain text, desyncing `isAdfRequest: true` with a plain-string description value (may result in a JSM 400 error or silently dropped ADF formatting). Pass `--description` with `--markdown`, or omit `--markdown`.",
                        ),
                    ),
                );
            }
            i = i + 1;
        }
        assert(!sets_description(text::views(field_pairs@)));
        if !has_description && !description_stdin {
            return Err(
                JrError::UserError(
                    String::from_str(
                        "--markdown requires --description or --description-stdin to take effect. Pass a description alongside --markdown, or omit --markdown.",
                    ),
                ),
            );
        }
    }
    Ok(())
}

/// Which flags of an ordinary issue were given with `--request-type`, where
/// they have no effect.
pub struct IgnoredFlags {
    pub issue_type: bool,
    pub team: bool,
    pub points: bool,
    pub parent: bool,
    pub to: bool,
    pub account_id: bool,
}

/// The warnings for the flags given with `--request-type` that it ignores,
/// in flag order: `--type`, `--team`, `--points`, `--parent`, `--to`,
/// `--account-id`.
pub open spec fn ignored_flag_warning_texts(f: IgnoredFlags) -> Seq<Seq<char>> {
    (if f.issue_type {
        seq![
            "warning: --type is ignored when --request-type is set; request type encodes the issue type"@,
        ]
    } else {
        Seq::empty()
    }) + (if f.team {
        seq![
            "warning: --team is ignored when --request-type is set; teams are managed by the request type's workflow"@,
        ]
    } else {
        Seq::empty()
    }) + (if f.points {
        seq![
            "warning: --points is ignored when --request-type is set; story points are not part of JSM request schema"@,
        ]
    } else {
        Seq::empty()
    }) + (if f.parent {
        seq![
            "warning: --parent is ignored when --request-type is set; JSM requests cannot be sub-tasks"@,
        ]
    } else {
        Seq::empty()
    }) + (if f.to {
        seq![
            "warning: --to is ignored when --request-type is set; use --on-behalf-of to set the requester"@,
        ]
    } else {
        Seq::empty()
    }) + (if f.account_id {
        seq![
            "warning: --account-id is ignored when --request-type is set; use --on-behalf-of to set the requester"@,
        ]
    } else {
        Seq::empty()
    })
}

/// The warnings for the flags given with `--request-type` that it ignores.
pub fn ignored_flag_warnings(f: &IgnoredFlags) -> (r: Vec<String>)
    ensures
        text::views(r@) == ignored_flag_warning_texts(*f),
{
    let mut r: Vec<String> = Vec::new();
    if f.issue_type {
        r.push(
            String::from_str(
                "warning: --type is ignored when --request-type is set; request type encodes the issue type",
            ),
        );
    }
    let ghost a = r@;
    if f.team {
        r.push(
            String::from_str(
                "warning: --team is ignored when --request-type is set; teams are managed by the request type's workflow",
            ),
        );
    }
    let ghost b = r@;
    if f.points {
        r.push(
            String::from_str(
                "warning: --points is ignored when --request-type is set; story points are not part of JSM request schema",
            ),
        );
    }
    let ghost c = r@;
    if f.parent {
        r.push(
            String::from_str(
                "warning: --parent is ignored when --request-type is set; JSM requests cannot be sub-tasks",
            ),
        );
    }
    let ghost d = r@;
    if f.to {
        r.push(
            String::from_str(
                "warning: --to is ignored when --request-type is set; use --on-behalf-of to set the requester",
            ),
        );
    }
    let ghost e = r@;
    if f.account_id {
        r.push(
            String::from_str(
                "warning: --account-id is ignored when --request-type is set; use --on-behalf-of to set the requester",
            ),
        );
    }
    assert(text::views(r@) =~= ignored_flag_warning_texts(*f));
    r
}

/// A `--request-type` made only of ASCII digits is taken as the id as it
/// stands; any other value is resolved by name.
pub fn is_request_type_id(arg: &str) -> (b: bool)
    ensures
        b == text::all_digits(arg@),
{
    let v = text::chars_of(arg);
    let b = text::all_digits_in(&v, 0, v.len());
    assert(v@.subrange(0, v@.len() as int) =~= v@);
    b
}

} // verus!
