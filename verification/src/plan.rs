//! Per-dependency planning: what a dependency record asks to be done, the
//! refs to try, the output filename, and the ordered list of URLs a fetch
//! attempt walks through. Everything here is a pure function of the record;
//! the caller performs the network requests and file writes.

use vstd::prelude::*;
use vstd::string::StringExecFns;
use crate::license::{
    default_list,
    default_names,
    lemma_lookup_each_pointwise,
    spec_actions,
    spec_lookup,
    license_actions,
    LicenseAction,
    LicenseActionView,
};
use crate::text::spec_split;
use crate::rawurl::{spec_format, spec_resolve, RawFilesURL, RawFilesView};

verus! {

/// One entry of the dependency-metadata report.
pub struct DependencyRecord {
    pub name: String,
    pub version: Option<String>,
    pub repository: Option<String>,
    pub license: Option<String>,
    pub license_file: Option<String>,
}

/// The mathematical value of a `DependencyRecord`.
pub struct DependencyRecordView {
    pub name: Seq<char>,
    pub version: Option<Seq<char>>,
    pub repository: Option<Seq<char>>,
    pub license: Option<Seq<char>>,
    pub license_file: Option<Seq<char>>,
}

impl View for DependencyRecord {
    type V = DependencyRecordView;

    open spec fn view(&self) -> DependencyRecordView {
        DependencyRecordView {
            name: self.name@,
            version: self.version.deep_view(),
            repository: self.repository.deep_view(),
            license: self.license.deep_view(),
            license_file: self.license_file.deep_view(),
        }
    }
}

/// The URL shown for a record when reporting: its repository URL, or a
/// placeholder naming the record when no repository is given.
pub open spec fn spec_display_url(rec: DependencyRecordView) -> Seq<char> {
    match rec.repository {
        Some(u) => u,
        None => "No repo for crate "@ + rec.name + "!"@,
    }
}

/// The repository URL of a record, or the placeholder text naming it.
pub fn display_repo_url(rec: &DependencyRecord) -> (r: String)
    ensures
        r@ == spec_display_url(rec@),
{
    match &rec.repository {
        Some(u) => u.clone(),
        None => {
            let r = "No repo for crate ".to_owned().concat(rec.name.as_str()).concat("!");
            proof {
                assert(r@ =~= spec_display_url(rec@));
            }
            r
        },
    }
}

/// The refs tried for a record, in order: its declared version first, when
/// present, then the fixed fallback branches.
pub open spec fn spec_refs(version: Option<Seq<char>>) -> Seq<Seq<char>> {
    match version {
        Some(v) => seq![v, "master"@, "main"@],
        None => seq!["master"@, "main"@],
    }
}

/// Builds the ordered ref list for a declared version.
pub fn refs_for(version: &Option<String>) -> (r: Vec<String>)
    ensures
        r.deep_view() == spec_refs(version.deep_view()),
{
    let mut r: Vec<String> = Vec::new();
    match version {
        Some(v) => {
            r.push(v.clone());
        },
        None => {},
    }
    r.push("master".to_owned());
    r.push("main".to_owned());
    proof {
        assert(r.deep_view() =~= spec_refs(version.deep_view()));
    }
    r
}

/// The output filename for a dependency: its name and the primary candidate,
/// joined by a dash.
pub fn output_name(name: &str, primary: &str) -> (r: String)
    ensures
        r@ == name@ + "-"@ + primary@,
{
    let r = name.to_owned().concat("-").concat(primary);
    proof {
        assert(r@ =~= name@ + "-"@ + primary@);
    }
    r
}

/// The URLs tried for one candidate filename, one per ref, in ref order.
pub open spec fn urls_for_candidate(
    v: RawFilesView,
    refs: Seq<Seq<char>>,
    cand: Seq<char>,
) -> Seq<Seq<char>>
    decreases refs.len(),
{
    if refs.len() == 0 {
        Seq::empty()
    } else {
        urls_for_candidate(v, refs.drop_last(), cand).push(spec_format(v, refs.last(), cand))
    }
}

/// The full attempt plan: candidate filenames outermost, refs innermost, so
/// every ref of one candidate is tried before the next candidate.
pub open spec fn spec_urls(
    v: RawFilesView,
    cands: Seq<Seq<char>>,
    refs: Seq<Seq<char>>,
) -> Seq<Seq<char>>
    decreases cands.len(),
{
    if cands.len() == 0 {
        Seq::empty()
    } else {
        spec_urls(v, cands.drop_last(), refs) + urls_for_candidate(v, refs, cands.last())
    }
}

/// The ordered list of URLs to request for one candidate list. A dependency
/// whose output file is already present and non-empty is satisfied: its plan
/// is empty and no request is made for it.
pub fn fetch_urls(
    loc: &RawFilesURL,
    already_satisfied: bool,
    candidates: &Vec<String>,
    refs: &Vec<String>,
) -> (r: Vec<String>)
    ensures
        already_satisfied ==> r@.len() == 0,
        !already_satisfied ==> r.deep_view() == spec_urls(
            loc@,
            candidates.deep_view(),
            refs.deep_view(),
        ),
{
    let mut out: Vec<String> = Vec::new();
    if already_satisfied {
        return out;
    }
    let ghost cands: Seq<Seq<char>> = candidates.deep_view();
    let ghost rs: Seq<Seq<char>> = refs.deep_view();
    let nc = candidates.len();
    let mut k: usize = 0;
    while k < nc
        invariant
            0 <= k <= nc,
            nc == candidates.len(),
            cands == candidates.deep_view(),
            rs == refs.deep_view(),
            out.deep_view() =~= spec_urls(loc@, cands.take(k as int), rs),
        decreases nc - k,
    {
        let nr = refs.len();
        let mut j: usize = 0;
        while j < nr
            invariant
                0 <= j <= nr,
                0 <= k < nc,
                nc == candidates.len(),
                nr == refs.len(),
                cands == candidates.deep_view(),
                rs == refs.deep_view(),
                out.deep_view() =~= spec_urls(loc@, cands.take(k as int), rs)
                    + urls_for_candidate(loc@, rs.take(j as int), cands[k as int]),
            decreases nr - j,
        {
            let ghost before = out.deep_view();
            let url = loc.format(refs[j].as_str(), candidates[k].as_str());
            out.push(url);
            proof {
                assert(out.deep_view() =~= before.push(
                    spec_format(loc@, rs[j as int], cands[k as int]),
                ));
                assert(rs.take(j + 1 as int).drop_last() =~= rs.take(j as int));
                assert(rs.take(j + 1 as int).last() == rs[j as int]);
                assert(out.deep_view() =~= spec_urls(loc@, cands.take(k as int), rs)
                    + urls_for_candidate(loc@, rs.take(j + 1 as int), cands[k as int]));
            }
            j += 1;
        }
        proof {
            assert(rs.take(nr as int) =~= rs);
            assert(cands.take(k + 1 as int).drop_last() =~= cands.take(k as int));
            assert(cands.take(k + 1 as int).last() == cands[k as int]);
            assert(out.deep_view() =~= spec_urls(loc@, cands.take(k + 1 as int), rs));
        }
        k += 1;
    }
    proof {
        assert(cands.take(nc as int) =~= cands);
    }
    out
}

/// The actions a record asks for: one per " OR "-separated alternative of
/// its license expression; the explicit license-file name when there is no
/// expression; the generic fallback names when there is neither.
pub open spec fn spec_record_actions(rec: DependencyRecordView) -> Seq<LicenseActionView> {
    match rec.license {
        Some(expr) => spec_actions(expr),
        None => match rec.license_file {
            Some(f) => seq![LicenseActionView::Candidates(seq![f])],
            None => seq![LicenseActionView::Candidates(default_names())],
        },
    }
}

/// What processing one record comes to: its repository URL is either not
/// recognized, or resolves to a raw-file location together with the ordered
/// actions to carry out there.
pub enum RecordPlan {
    Unfamiliar,
    Process { location: RawFilesURL, actions: Vec<LicenseAction> },
}

/// Plans one dependency record.
pub fn plan_record(rec: &DependencyRecord) -> (r: RecordPlan)
    ensures
        match r {
            RecordPlan::Unfamiliar => spec_resolve(spec_display_url(rec@)) is None,
            RecordPlan::Process { location, actions } => spec_resolve(spec_display_url(rec@))
                == Some(location@) && actions.deep_view() == spec_record_actions(rec@),
        },
{
    let url = display_repo_url(rec);
    match RawFilesURL::from_repo_url(url.as_str()) {
        None => RecordPlan::Unfamiliar,
        Some(location) => {
            let actions: Vec<LicenseAction> = match &rec.license {
                Some(expr) => license_actions(expr.as_str()),
                None => {
                    let mut acts: Vec<LicenseAction> = Vec::new();
                    match &rec.license_file {
                        Some(f) => {
                            let mut names: Vec<String> = Vec::new();
                            names.push(f.clone());
                            proof {
                                assert(names.deep_view() =~= seq![f@]);
                            }
                            acts.push(LicenseAction::Candidates(names));
                        },
                        None => {
                            acts.push(LicenseAction::Candidates(default_list()));
                        },
                    }
                    proof {
                        assert(acts.deep_view() =~= spec_record_actions(rec@));
                    }
                    acts
                },
            };
            RecordPlan::Process { location, actions }
        },
    }
}

/// One fetch per known alternative: when every " OR "-separated alternative
/// of a license expression is in the table, the action list holds exactly
/// one candidate list per alternative, in the order written.
pub proof fn lemma_one_fetch_per_alternative(expr: Seq<char>)
    requires
        forall|j: int|
            0 <= j < spec_split(expr, " OR "@).len() ==> spec_lookup(
                #[trigger] spec_split(expr, " OR "@)[j],
            ) is Candidates,
    ensures
        spec_actions(expr).len() == spec_split(expr, " OR "@).len(),
        forall|j: int|
            0 <= j < spec_actions(expr).len() ==> #[trigger] spec_actions(expr)[j] is Candidates,
{
    lemma_lookup_each_pointwise(spec_split(expr, " OR "@));
}

} // verus!
