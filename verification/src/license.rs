//! The license-identifier table and candidate-filename expansion: a known
//! identifier maps to an ordered list of canonical base filenames, which is
//! then augmented with the generic fallback names and expanded into case and
//! extension variants.

use vstd::prelude::*;
use vstd::string::StrSliceExecFns;
use vstd::string::StringExecFns;
use crate::text::{is_prefix_of, lower_seq, lower_str, spec_split, split_str, starts_with_str, str_eq};

verus! {

/// The generic fallback filenames, tried when no specific name succeeds.
pub open spec fn default_names() -> Seq<Seq<char>> {
    seq!["LICENSE"@, "LICENCE"@]
}

/// Base filenames for the Apache-2.0 family.
pub open spec fn apache_names() -> Seq<Seq<char>> {
    seq![
        "LICENSE-APACHE"@,
        "LICENSE-Apache"@,
        "License-Apache-2.0"@,
        "LICENCE-APACHE"@,
        "LICENCE-Apache"@,
        "Licence-Apache-2.0"@,
    ]
}

/// Base filenames for the BSD family.
pub open spec fn bsd_names() -> Seq<Seq<char>> {
    seq!["LICENSE-BSD"@, "LICENCE-BSD"@]
}

/// Base filenames for the Boost license.
pub open spec fn bsl_names() -> Seq<Seq<char>> {
    seq!["LICENSE-BOOST"@, "LICENSE-BST"@, "LICENCE-BOOST"@, "LICENCE-BST"@]
}

/// Base filenames for the ISC license.
pub open spec fn isc_names() -> Seq<Seq<char>> {
    seq!["LICENSE-ISC"@, "LICENCE-ISC"@]
}

/// Base filenames for the MIT license.
pub open spec fn mit_names() -> Seq<Seq<char>> {
    seq!["LICENSE-MIT"@, "LICENCE-MIT"@]
}

/// Base filenames for the 0BSD license.
pub open spec fn zero_bsd_names() -> Seq<Seq<char>> {
    seq!["LICENSE-0BSD"@, "LICENCE-0BSD"@]
}

/// Base filenames for the Zlib license.
pub open spec fn zlib_names() -> Seq<Seq<char>> {
    seq!["LICENSE-ZLIB"@, "LICENCE-ZLIB"@]
}

/// What a single license identifier asks for: a list of candidate base
/// filenames to fetch, no file at all, or an identifier the table does not
/// know (reported, never fetched).
pub enum LicenseAction {
    Candidates(Vec<String>),
    NoFileNeeded,
    NotImplemented(String),
}

/// The mathematical value of a `LicenseAction`.
pub enum LicenseActionView {
    Candidates(Seq<Seq<char>>),
    NoFileNeeded,
    NotImplemented(Seq<char>),
}

impl View for LicenseAction {
    type V = LicenseActionView;

    open spec fn view(&self) -> LicenseActionView {
        match self {
            LicenseAction::Candidates(ns) => LicenseActionView::Candidates(ns.deep_view()),
            LicenseAction::NoFileNeeded => LicenseActionView::NoFileNeeded,
            LicenseAction::NotImplemented(id) => LicenseActionView::NotImplemented(id@),
        }
    }
}

impl DeepView for LicenseAction {
    type V = LicenseActionView;

    open spec fn deep_view(&self) -> LicenseActionView {
        self.view()
    }
}

/// The identifier table: exact identifiers first, in a fixed order, then
/// `Unlicense` (no file is expected), then any other identifier beginning
/// with `Apache-2.0`; everything else is not implemented.
pub open spec fn spec_lookup(id: Seq<char>) -> LicenseActionView {
    if id == "Apache-2.0"@ || id == "Apache-2.0 WITH LLVM-exception"@ {
        LicenseActionView::Candidates(apache_names())
    } else if id == "MIT"@ {
        LicenseActionView::Candidates(mit_names())
    } else if id == "BSD-3-Clause"@ {
        LicenseActionView::Candidates(bsd_names())
    } else if id == "BSD-2-Clause"@ {
        LicenseActionView::Candidates(bsd_names())
    } else if id == "0BSD"@ {
        LicenseActionView::Candidates(zero_bsd_names())
    } else if id == "CC0-1.0"@ {
        LicenseActionView::Candidates(default_names())
    } else if id == "MPL-2.0"@ {
        LicenseActionView::Candidates(default_names())
    } else if id == "BSD"@ {
        LicenseActionView::Candidates(bsd_names())
    } else if id == "ISC"@ {
        LicenseActionView::Candidates(isc_names())
    } else if id == "BSL-1.0"@ {
        LicenseActionView::Candidates(bsl_names())
    } else if id == "Zlib"@ {
        LicenseActionView::Candidates(zlib_names())
    } else if id == "Unlicense"@ {
        LicenseActionView::NoFileNeeded
    } else if is_prefix_of("Apache-2.0"@, id) {
        LicenseActionView::Candidates(apache_names())
    } else {
        LicenseActionView::NotImplemented(id)
    }
}

/// Every candidate list the table can return is non-empty.
pub proof fn lemma_lookup_candidates_nonempty(id: Seq<char>)
    ensures
        match spec_lookup(id) {
            LicenseActionView::Candidates(ns) => ns.len() > 0,
            _ => true,
        },
{
}

/// Maps a single license identifier through the table.
pub fn lookup_license(id: &str) -> (r: LicenseAction)
    ensures
        r@ == spec_lookup(id@),
{
    if str_eq(id, "Apache-2.0") || str_eq(id, "Apache-2.0 WITH LLVM-exception") {
        LicenseAction::Candidates(apache_list())
    } else if str_eq(id, "MIT") {
        let ns = vec!["LICENSE-MIT".to_owned(), "LICENCE-MIT".to_owned()];
        proof {
            assert(ns.deep_view() =~= mit_names());
        }
        LicenseAction::Candidates(ns)
    } else if str_eq(id, "BSD-3-Clause") || str_eq(id, "BSD-2-Clause") {
        LicenseAction::Candidates(bsd_list())
    } else if str_eq(id, "0BSD") {
        let ns = vec!["LICENSE-0BSD".to_owned(), "LICENCE-0BSD".to_owned()];
        proof {
            assert(ns.deep_view() =~= zero_bsd_names());
        }
        LicenseAction::Candidates(ns)
    } else if str_eq(id, "CC0-1.0") || str_eq(id, "MPL-2.0") {
        LicenseAction::Candidates(default_list())
    } else if str_eq(id, "BSD") {
        LicenseAction::Candidates(bsd_list())
    } else if str_eq(id, "ISC") {
        let ns = vec!["LICENSE-ISC".to_owned(), "LICENCE-ISC".to_owned()];
        proof {
            assert(ns.deep_view() =~= isc_names());
        }
        LicenseAction::Candidates(ns)
    } else if str_eq(id, "BSL-1.0") {
        let ns = vec![
            "LICENSE-BOOST".to_owned(),
            "LICENSE-BST".to_owned(),
            "LICENCE-BOOST".to_owned(),
            "LICENCE-BST".to_owned(),
        ];
        proof {
            assert(ns.deep_view() =~= bsl_names());
        }
        LicenseAction::Candidates(ns)
    } else if str_eq(id, "Zlib") {
        let ns = vec!["LICENSE-ZLIB".to_owned(), "LICENCE-ZLIB".to_owned()];
        proof {
            assert(ns.deep_view() =~= zlib_names());
        }
        LicenseAction::Candidates(ns)
    } else if str_eq(id, "Unlicense") {
        LicenseAction::NoFileNeeded
    } else if starts_with_str(id, "Apache-2.0") {
        LicenseAction::Candidates(apache_list())
    } else {
        LicenseAction::NotImplemented(id.to_owned())
    }
}

/// The generic fallback filenames as an executable list.
pub fn default_list() -> (r: Vec<String>)
    ensures
        r.deep_view() == default_names(),
{
    let ns = vec!["LICENSE".to_owned(), "LICENCE".to_owned()];
    proof {
        assert(ns.deep_view() =~= default_names());
    }
    ns
}

fn apache_list() -> (r: Vec<String>)
    ensures
        r.deep_view() == apache_names(),
{
    let ns = vec![
        "LICENSE-APACHE".to_owned(),
        "LICENSE-Apache".to_owned(),
        "License-Apache-2.0".to_owned(),
        "LICENCE-APACHE".to_owned(),
        "LICENCE-Apache".to_owned(),
        "Licence-Apache-2.0".to_owned(),
    ];
    proof {
        assert(ns.deep_view() =~= apache_names());
    }
    ns
}

fn bsd_list() -> (r: Vec<String>)
    ensures
        r.deep_view() == bsd_names(),
{
    let ns = vec!["LICENSE-BSD".to_owned(), "LICENCE-BSD".to_owned()];
    proof {
        assert(ns.deep_view() =~= bsd_names());
    }
    ns
}

/// The table lookup of each identifier in a list, in order.
pub open spec fn lookup_each(ids: Seq<Seq<char>>) -> Seq<LicenseActionView>
    decreases ids.len(),
{
    if ids.len() == 0 {
        Seq::empty()
    } else {
        lookup_each(ids.drop_last()).push(spec_lookup(ids.last()))
    }
}

/// `lookup_each` maps the table over the list pointwise.
pub proof fn lemma_lookup_each_pointwise(ids: Seq<Seq<char>>)
    ensures
        lookup_each(ids).len() == ids.len(),
        forall|j: int| 0 <= j < ids.len() ==> lookup_each(ids)[j] == spec_lookup(ids[j]),
    decreases ids.len(),
{
    if ids.len() > 0 {
        lemma_lookup_each_pointwise(ids.drop_last());
    }
}

/// The actions of a license expression: each " OR "-separated alternative
/// looked up in the table, in written order.
pub open spec fn spec_actions(expr: Seq<char>) -> Seq<LicenseActionView> {
    lookup_each(spec_split(expr, " OR "@))
}

/// Resolves a license expression into one action per alternative.
pub fn license_actions(expr: &str) -> (r: Vec<LicenseAction>)
    ensures
        r.deep_view() == spec_actions(expr@),
{
    proof {
        reveal_strlit(" OR ");
    }
    let ids = split_str(expr, " OR ");
    let ghost idv: Seq<Seq<char>> = ids.deep_view();
    let n = ids.len();
    let mut acts: Vec<LicenseAction> = Vec::new();
    let mut i: usize = 0;
    while i < n
        invariant
            0 <= i <= n,
            n == ids.len(),
            idv == ids.deep_view(),
            acts.deep_view() =~= lookup_each(idv.take(i as int)),
        decreases n - i,
    {
        let ghost before = acts.deep_view();
        let a = lookup_license(ids[i].as_str());
        acts.push(a);
        proof {
            assert(acts.deep_view() =~= before.push(spec_lookup(idv[i as int])));
            assert(idv.take(i + 1 as int).drop_last() =~= idv.take(i as int));
            assert(idv.take(i + 1 as int).last() == idv[i as int]);
            assert(acts.deep_view() =~= lookup_each(idv.take(i + 1 as int)));
        }
        i += 1;
    }
    proof {
        assert(idv.take(n as int) =~= idv);
        assert(acts.deep_view() =~= spec_actions(expr@));
    }
    acts
}

/// The six variants tried for one base filename, in attempt order: the name
/// itself, with `.txt`, with `.md`, then the same three lowercased.
pub open spec fn variant_seq(n: Seq<char>) -> Seq<Seq<char>> {
    seq![
        n,
        n + ".txt"@,
        n + ".md"@,
        lower_seq(n),
        lower_seq(n) + ".txt"@,
        lower_seq(n) + ".md"@,
    ]
}

/// The specific names followed by the generic fallback names, unless the
/// list already is the generic list.
pub open spec fn with_defaults(names: Seq<Seq<char>>) -> Seq<Seq<char>> {
    if names == default_names() {
        names
    } else {
        names + default_names()
    }
}

/// The variant expansion of a name list, in order.
pub open spec fn expand_list(names: Seq<Seq<char>>) -> Seq<Seq<char>>
    decreases names.len(),
{
    if names.len() == 0 {
        Seq::empty()
    } else {
        expand_list(names.drop_last()) + variant_seq(names.last())
    }
}

/// The full ordered candidate sequence generated from a base-name list:
/// fallback names appended, then every name expanded into its six variants.
pub open spec fn spec_candidates(names: Seq<Seq<char>>) -> Seq<Seq<char>> {
    expand_list(with_defaults(names))
}

/// Candidate generation is deterministic and stable: the table entry is a
/// function of the identifier alone, and the expanded candidate sequence a
/// function of the base-name list alone, so the same inputs generate the
/// identical ordered sequence on every run.
pub proof fn lemma_candidates_deterministic(
    id1: Seq<char>,
    id2: Seq<char>,
    ns1: Seq<Seq<char>>,
    ns2: Seq<Seq<char>>,
)
    requires
        id1 == id2,
        ns1 == ns2,
    ensures
        spec_lookup(id1) == spec_lookup(id2),
        spec_candidates(ns1) == spec_candidates(ns2),
{
}

/// Expands a base-name list into the full ordered candidate list. The order
/// is deterministic: specific names before fallback names, and for each name
/// the original case before the lower case, each with no extension, then
/// `.txt`, then `.md`.
pub fn expand_candidates(names: &Vec<String>) -> (r: Vec<String>)
    ensures
        r.deep_view() == spec_candidates(names.deep_view()),
{
    let mut full: Vec<String> = Vec::new();
    let n = names.len();
    let mut i: usize = 0;
    while i < n
        invariant
            0 <= i <= n,
            n == names.len(),
            full.deep_view() =~= names.deep_view().take(i as int),
        decreases n - i,
    {
        let ghost pre = full.deep_view();
        full.push(names[i].clone());
        proof {
            assert(full@.len() == pre.len() + 1);
            assert(full@[pre.len() as int] == names@[i as int]);
            assert(full.deep_view() =~= pre.push(names@[i as int].deep_view()));
            assert(names.deep_view()[i as int] == names@[i as int].deep_view());
            assert(full.deep_view() =~= names.deep_view().take(i + 1 as int));
        }
        i += 1;
    }
    proof {
        assert(full.deep_view() =~= names.deep_view());
    }
    let is_default = names.len() == 2 && str_eq(names[0].as_str(), "LICENSE") && str_eq(
        names[1].as_str(),
        "LICENCE",
    );
    proof {
        if is_default {
            assert(names.deep_view() =~= default_names());
        } else {
            if names.deep_view() == default_names() {
                assert(names.deep_view()[0] == "LICENSE"@);
                assert(names.deep_view()[1] == "LICENCE"@);
                assert(false);
            }
        }
    }
    if !is_default {
        full.push("LICENSE".to_owned());
        full.push("LICENCE".to_owned());
    }
    let ghost base: Seq<Seq<char>> = with_defaults(names.deep_view());
    proof {
        assert(full.deep_view() =~= base);
    }
    let m = full.len();
    let mut out: Vec<String> = Vec::new();
    let mut k: usize = 0;
    while k < m
        invariant
            0 <= k <= m,
            m == full.len(),
            full.deep_view() == base,
            out.deep_view() =~= expand_list(base.take(k as int)),
        decreases m - k,
    {
        let ghost before = out.deep_view();
        let name = &full[k];
        out.push(name.clone());
        out.push(name.clone().concat(".txt"));
        out.push(name.clone().concat(".md"));
        let low = lower_str(name.as_str());
        out.push(low.clone());
        out.push(low.clone().concat(".txt"));
        out.push(low.concat(".md"));
        proof {
            assert(out.deep_view() =~= before + variant_seq(base[k as int]));
            assert(base.take(k + 1 as int).drop_last() =~= base.take(k as int));
            assert(base.take(k + 1 as int).last() == base[k as int]);
            assert(out.deep_view() =~= expand_list(base.take(k + 1 as int)));
        }
        k += 1;
    }
    proof {
        assert(base.take(m as int) =~= base);
        assert(out.deep_view() =~= spec_candidates(names.deep_view()));
    }
    out
}

} // verus!
