//! Issues, comments, reactions and milestones.

use vstd::prelude::*;
use crate::text::{
    chars_eq, chars_of, contains_text, copy_string, cvs, spec_contains_text, spec_split, spec_trim, split_char,
    string_chars, string_of, svs, trim,
};

verus! {

pub struct CreateIssueRequest {
    pub title: String,
    pub body: Option<String>,
    pub labels: Option<Vec<String>>,
    pub milestone_id: Option<i64>,
}

pub struct UpdateIssueRequest {
    pub title: Option<String>,
    pub body: Option<String>,
    pub state: Option<String>,
    pub labels: Option<Vec<String>>,
    pub assignee_id: Option<Option<i64>>,
    pub milestone_id: Option<Option<i64>>,
}

pub struct CreateCommentRequest {
    pub body: String,
}

pub struct ReactionRequest {
    /// One of `+1`, `-1`, `laugh`, `confused`, `heart`, `hooray`, `rocket`, `eyes`
    pub content: String,
}

/// Aggregated reaction summary for one target, consumed by the SPA.
pub struct ReactionSummary {
    pub content: String,
    pub count: i64,
    /// Whether the current viewer (when authenticated) reacted with this content
    pub reacted_by_me: bool,
}

pub struct IssueConfigValidation {
    pub valid: bool,
    pub message: String,
}

/// The query of an issue list: the state filter, and the labels filter as
/// comma-separated names.
pub struct ListQuery {
    pub state: Option<String>,
    pub labels: Option<String>,
}

/// The names of a labels filter, from its comma-separated pieces: each piece
/// trimmed, the empty ones left out.
pub open spec fn spec_label_names(pieces: Seq<Seq<char>>) -> Seq<Seq<char>>
    decreases pieces.len(),
{
    if pieces.len() == 0 {
        Seq::empty()
    } else {
        let rest = spec_label_names(pieces.drop_last());
        let name = spec_trim(pieces.last());
        if name.len() > 0 {
            rest.push(name)
        } else {
            rest
        }
    }
}

/// The label names a labels filter asks for.
pub fn label_names(labels: &str) -> (names: Vec<String>)
    ensures
        svs(names@) == spec_label_names(spec_split(labels@, ',')),
{
    let pieces = split_char(chars_of(labels).as_slice(), ',');
    let ghost ps = cvs(pieces@);
    let mut names: Vec<String> = Vec::new();
    let mut i: usize = 0;
    assert(ps.take(0) =~= Seq::<Seq<char>>::empty());
    while i < pieces.len()
        invariant
            i <= pieces@.len(),
            ps == cvs(pieces@),
            ps == spec_split(labels@, ','),
            svs(names@) == spec_label_names(ps.take(i as int)),
        decreases pieces@.len() - i,
    {
        assert(ps.take(i + 1).drop_last() =~= ps.take(i as int));
        assert(ps.take(i + 1).last() == pieces@[i as int]@);
        let name = trim(pieces[i].as_slice());
        if name.len() > 0 {
            let ghost before = svs(names@);
            names.push(string_of(name.as_slice()));
            assert(svs(names@) =~= before.push(name@));
        }
        i = i + 1;
    }
    assert(ps.take(pieces@.len() as int) =~= ps);
    names
}

pub struct ListMilestonesQuery {
    pub state: Option<String>,
}

pub struct CreateMilestoneRequest {
    pub title: String,
    pub description: Option<String>,
    pub due_date: Option<String>,
    pub state: Option<String>,
}

pub struct UpdateMilestoneRequest {
    pub title: Option<String>,
    pub description: Option<Option<String>>,
    pub state: Option<String>,
    pub due_date: Option<Option<String>>,
}

/// A reaction to an issue or comment: its content and who reacted.
pub struct ReactionRow {
    pub content: String,
    pub user_id: i64,
}

/// The abstract value of a reaction summary.
pub struct SummaryView {
    pub content: Seq<char>,
    pub count: int,
    pub reacted_by_me: bool,
}

/// The index of the summary for a content, if there is one.
pub open spec fn summary_index(ss: Seq<SummaryView>, content: Seq<char>) -> Option<int> {
    if exists|k: int| 0 <= k < ss.len() && (#[trigger] ss[k]).content == content {
        Some(choose|k: int| 0 <= k < ss.len() && (#[trigger] ss[k]).content == content)
    } else {
        None
    }
}

/// Summaries of reactions, one per content in order of first appearance:
/// how many reacted with it and whether the viewer did.
pub open spec fn spec_summarize(rows: Seq<(Seq<char>, i64)>, viewer: Option<i64>) -> Seq<SummaryView>
    decreases rows.len(),
{
    if rows.len() == 0 {
        Seq::empty()
    } else {
        let ss = spec_summarize(rows.drop_last(), viewer);
        let (content, user) = rows.last();
        let mine = viewer == Some(user);
        match summary_index(ss, content) {
            Some(k) => ss.update(
                k,
                SummaryView { content, count: ss[k].count + 1, reacted_by_me: ss[k].reacted_by_me || mine },
            ),
            None => ss.push(SummaryView { content, count: 1, reacted_by_me: mine }),
        }
    }
}

/// The views of reaction rows.
pub open spec fn rows_view(rows: Seq<ReactionRow>) -> Seq<(Seq<char>, i64)> {
    rows.map_values(|r: ReactionRow| (r.content@, r.user_id))
}

/// The views of reaction summaries.
pub open spec fn summaries_view(ss: Seq<ReactionSummary>) -> Seq<SummaryView> {
    ss.map_values(|s: ReactionSummary| SummaryView { content: s.content@, count: s.count as int, reacted_by_me: s.reacted_by_me })
}

/// No content has two summaries, and each count is at least one.
pub open spec fn summaries_wf(ss: Seq<SummaryView>) -> bool {
    &&& forall|a: int, b: int| 0 <= a < b < ss.len() ==> (#[trigger] ss[a]).content != (#[trigger] ss[b]).content
    &&& forall|a: int| 0 <= a < ss.len() ==> (#[trigger] ss[a]).count >= 1
}

proof fn lemma_summarize_wf(rows: Seq<(Seq<char>, i64)>, viewer: Option<i64>)
    ensures
        summaries_wf(spec_summarize(rows, viewer)),
        forall|a: int| 0 <= a < spec_summarize(rows, viewer).len() ==> (#[trigger] spec_summarize(rows, viewer)[a]).count <= rows.len(),
        spec_summarize(rows, viewer).len() <= rows.len(),
    decreases rows.len(),
{
    if rows.len() > 0 {
        lemma_summarize_wf(rows.drop_last(), viewer);
    }
}

/// Aggregate reaction rows into per-content summaries for a viewer.
pub fn summarize_reactions(rows: Vec<ReactionRow>, viewer_id: Option<i64>) -> (r: Vec<ReactionSummary>)
    requires
        rows@.len() < i64::MAX,
    ensures
        summaries_view(r@) == spec_summarize(rows_view(rows@), viewer_id),
{
    let ghost rv = rows_view(rows@);
    let mut summaries: Vec<ReactionSummary> = Vec::new();
    let mut i: usize = 0;
    assert(summaries_view(summaries@) =~= spec_summarize(rv.take(0), viewer_id));
    while i < rows.len()
        invariant
            i <= rows@.len(),
            rows@.len() < i64::MAX,
            rv == rows_view(rows@),
            summaries_view(summaries@) == spec_summarize(rv.take(i as int), viewer_id),
        decreases rows@.len() - i,
    {
        let ghost ss = spec_summarize(rv.take(i as int), viewer_id);
        proof {
            assert(rv.take(i + 1).drop_last() =~= rv.take(i as int));
            assert(rv.take(i + 1).last() == rv[i as int]);
            lemma_summarize_wf(rv.take(i as int), viewer_id);
        }
        let row = &rows[i];
        let mine = match viewer_id {
            Some(v) => v == row.user_id,
            None => false,
        };
        let key = string_chars(&row.content);
        let mut k: usize = 0;
        let mut found: Option<usize> = None;
        while k < summaries.len() && found.is_none()
            invariant
                k <= summaries@.len(),
                summaries_view(summaries@) == ss,
                key@ == rv[i as int].0,
                match found {
                    Some(f) => f < ss.len() && ss[f as int].content == key@,
                    None => forall|j: int| 0 <= j < k ==> (#[trigger] ss[j]).content != key@,
                },
            decreases summaries@.len() - k, if found is None { 1int } else { 0int },
        {
            assert(ss[k as int].content == summaries@[k as int].content@);
            if chars_eq(string_chars(&summaries[k].content).as_slice(), key.as_slice()) {
                found = Some(k);
            } else {
                k = k + 1;
            }
        }
        match found {
            Some(k) => {
                proof {
                    let c = choose|c: int| 0 <= c < ss.len() && (#[trigger] ss[c]).content == key@;
                    assert(c == k as int) by {
                        if c != k as int {
                            assert(ss[c].content == ss[k as int].content);
                        }
                    }
                    assert(summary_index(ss, key@) == Some(k as int));
                }
                let old_count = summaries[k].count;
                let old_mine = summaries[k].reacted_by_me;
                let content = copy_string(&summaries[k].content);
                let ghost before = summaries@;
                summaries.set(k, ReactionSummary { content, count: old_count + 1, reacted_by_me: old_mine || mine });
                assert(summaries_view(summaries@) =~= ss.update(
                    k as int,
                    SummaryView { content: key@, count: ss[k as int].count + 1, reacted_by_me: ss[k as int].reacted_by_me || mine },
                ));
            },
            None => {
                assert(summary_index(ss, key@) is None) by {
                    if exists|c: int| 0 <= c < ss.len() && (#[trigger] ss[c]).content == key@ {
                        let c = choose|c: int| 0 <= c < ss.len() && (#[trigger] ss[c]).content == key@;
                        assert(ss[c].content != key@);
                    }
                }
                let ghost before = summaries@;
                summaries.push(ReactionSummary { content: copy_string(&row.content), count: 1, reacted_by_me: mine });
                assert(summaries_view(summaries@) =~= ss.push(SummaryView { content: key@, count: 1, reacted_by_me: mine }));
            },
        }
        i = i + 1;
    }
    assert(rv.take(rows@.len() as int) =~= rv);
    summaries
}

/// How a failed reaction change is answered, by what its message says.
#[derive(Debug, Clone, Copy, PartialEq, Eq, Structural)]
pub enum ReactionErrorKind {
    /// The issue, comment or reaction does not exist.
    NotFound,
    /// The user already reacted so.
    Conflict,
    /// The reaction is not one of those allowed.
    BadRequest,
    /// Anything else.
    Internal,
}

/// Classify the message of a failed reaction change: `not found`, then
/// `reaction already exists`, then `invalid reaction content`, by the
/// first of these it holds.
pub fn reaction_error_kind(message: &str) -> (k: ReactionErrorKind)
    ensures
        k == if spec_contains_text(message@, "not found"@) {
            ReactionErrorKind::NotFound
        } else if spec_contains_text(message@, "reaction already exists"@) {
            ReactionErrorKind::Conflict
        } else if spec_contains_text(message@, "invalid reaction content"@) {
            ReactionErrorKind::BadRequest
        } else {
            ReactionErrorKind::Internal
        },
{
    if contains_text(message, "not found") {
        ReactionErrorKind::NotFound
    } else if contains_text(message, "reaction already exists") {
        ReactionErrorKind::Conflict
    } else if contains_text(message, "invalid reaction content") {
        ReactionErrorKind::BadRequest
    } else {
        ReactionErrorKind::Internal
    }
}

} // verus!
