//! Reconciliation: which projects of the global list no customer has claimed.
//!
//! Every customer task reports the projects that its customer lists. A
//! project leaves the global list when the report of its own customer names
//! it. What is left when all reports are in belongs to nobody and goes to the
//! in-house bucket.

use crate::model::{Project, ProjectDetailed, ProjectDetailedView, ProjectView};
use vstd::prelude::*;

verus! {

/// How many reports may wait to be received before a reporting task has to
/// wait itself.
pub const REPORT_BACKLOG: usize = 100;

/// What one customer task reports: the customer and the projects it lists.
#[derive(Debug)]
pub struct ClaimReport {
    pub customer_id: u32,
    pub projects: Vec<Project>,
}

/// A report with its projects as a sequence of views.
pub struct ClaimReportView {
    pub customer_id: u32,
    pub projects: Seq<ProjectView>,
}

impl View for ClaimReport {
    type V = ClaimReportView;

    open spec fn view(&self) -> ClaimReportView {
        ClaimReportView { customer_id: self.customer_id, projects: self.projects.deep_view() }
    }
}

impl Clone for ClaimReport {
    fn clone(&self) -> (copy: Self)
        ensures
            copy@ == self@,
    {
        let projects = self.projects.clone();
        assert(projects.deep_view() =~= self.projects.deep_view());
        ClaimReport { customer_id: self.customer_id, projects }
    }
}

impl DeepView for ClaimReport {
    type V = ClaimReportView;

    open spec fn deep_view(&self) -> ClaimReportView {
        self@
    }
}

/// `projects` holds a project with this identifier.
pub open spec fn lists(projects: Seq<ProjectView>, id: u32) -> bool {
    exists|j: int| 0 <= j < projects.len() && (#[trigger] projects[j]).id == id
}

/// The report comes from the project's own customer and names the project.
pub open spec fn claimed_by(project: ProjectDetailedView, report: ClaimReportView) -> bool {
    project.customer_id == report.customer_id && lists(report.projects, project.id)
}

/// One of the reports claims the project.
pub open spec fn claimed(project: ProjectDetailedView, reports: Seq<ClaimReportView>) -> bool {
    exists|k: int| 0 <= k < reports.len() && claimed_by(project, #[trigger] reports[k])
}

/// The projects of `list` that the report does not claim, in their order.
pub open spec fn not_claimed_by(
    list: Seq<ProjectDetailedView>,
    report: ClaimReportView,
) -> Seq<ProjectDetailedView> {
    list.filter(|p: ProjectDetailedView| !claimed_by(p, report))
}

/// The projects of `all` that none of the reports claims, in their order.
pub open spec fn unclaimed(
    all: Seq<ProjectDetailedView>,
    reports: Seq<ClaimReportView>,
) -> Seq<ProjectDetailedView> {
    all.filter(|p: ProjectDetailedView| !claimed(p, reports))
}

/// The projects of `all` that one of the reports claims, in their order.
pub open spec fn settled(
    all: Seq<ProjectDetailedView>,
    reports: Seq<ClaimReportView>,
) -> Seq<ProjectDetailedView> {
    all.filter(|p: ProjectDetailedView| claimed(p, reports))
}

/// The stand-in references under which unclaimed projects are harvested: each
/// keeps its title and carries the identifier of its customer.
pub open spec fn in_house(rest: Seq<ProjectDetailedView>) -> Seq<ProjectView> {
    Seq::new(rest.len(), |i: int| ProjectView { id: rest[i].customer_id, title: rest[i].title })
}

/// The identifiers that the reports name, whichever customer reported them.
pub open spec fn named_ids(reports: Seq<ClaimReportView>) -> Set<u32> {
    Set::new(
        |id: u32| exists|k: int| 0 <= k < reports.len() && lists((#[trigger] reports[k]).projects, id),
    )
}

/// Whether `projects` holds a project with this identifier.
pub fn names_project(projects: &Vec<Project>, id: u32) -> (found: bool)
    ensures
        found == lists(projects.deep_view(), id),
{
    let mut j: usize = 0;
    while j < projects.len()
        invariant
            j <= projects.len(),
            forall|k: int| 0 <= k < j ==> (#[trigger] projects.deep_view()[k]).id != id,
        decreases projects.len() - j,
    {
        if projects[j].id == id {
            assert(projects.deep_view()[j as int].id == id);
            return true;
        }
        j += 1;
    }
    false
}

/// Whether the report claims the project.
pub fn claims(report: &ClaimReport, project: &ProjectDetailed) -> (yes: bool)
    ensures
        yes == claimed_by(project@, report@),
{
    project.customer_id == report.customer_id && names_project(&report.projects, project.id)
}

/// Filtering twice is filtering once by both conditions.
proof fn lemma_filter_twice<A>(
    s: Seq<A>,
    first: spec_fn(A) -> bool,
    second: spec_fn(A) -> bool,
    both: spec_fn(A) -> bool,
)
    requires
        forall|a: A| #[trigger] both(a) == (first(a) && second(a)),
    ensures
        s.filter(first).filter(second) == s.filter(both),
    decreases s.len(),
{
    reveal(Seq::filter);
    if s.len() > 0 {
        lemma_filter_twice(s.drop_last(), first, second, both);
        if first(s.last()) {
            let kept = s.drop_last().filter(first);
            assert(kept.push(s.last()).drop_last() == kept);
        }
    }
}

/// Filtering one element more.
proof fn lemma_filter_step<A>(s: Seq<A>, keep: spec_fn(A) -> bool, n: int)
    requires
        0 <= n < s.len(),
    ensures
        s.take(n + 1).filter(keep) == if keep(s[n]) {
            s.take(n).filter(keep).push(s[n])
        } else {
            s.take(n).filter(keep)
        },
{
    reveal(Seq::filter);
    assert(s.take(n + 1).drop_last() == s.take(n));
}

/// The consumer of claim reports. It starts from the global project list and
/// drops, report by report, what the reporting customer claims.
pub struct Reconciler {
    remaining: Vec<ProjectDetailed>,
    all: Ghost<Seq<ProjectDetailedView>>,
    received: Ghost<Seq<ClaimReportView>>,
}

impl Reconciler {
    #[verifier::type_invariant]
    spec fn consistent(&self) -> bool {
        self.remaining.deep_view() == unclaimed(self.all@, self.received@)
    }

    /// The global project list that reconciliation started from.
    pub closed spec fn all(&self) -> Seq<ProjectDetailedView> {
        self.all@
    }

    /// The reports received so far, in the order of their arrival.
    pub closed spec fn received(&self) -> Seq<ClaimReportView> {
        self.received@
    }

    /// The projects that are still unclaimed.
    pub closed spec fn remaining(&self) -> Seq<ProjectDetailedView> {
        self.remaining.deep_view()
    }

    /// Starts from the global project list, with no report received.
    pub fn new(all: Vec<ProjectDetailed>) -> (fresh: Self)
        ensures
            fresh.all() == all.deep_view(),
            fresh.received() == Seq::<ClaimReportView>::empty(),
            fresh.remaining() == all.deep_view(),
    {
        proof {
            let keep = |p: ProjectDetailedView| !claimed(p, Seq::<ClaimReportView>::empty());
            assert forall|i: int| 0 <= i < all.deep_view().len() implies keep(
                #[trigger] all.deep_view()[i],
            ) by {}
            lemma_filter_keeps_all(all.deep_view(), keep);
        }
        Reconciler {
            remaining: all,
            all: Ghost(all.deep_view()),
            received: Ghost(Seq::empty()),
        }
    }

    /// Takes one report in: the projects that it claims leave the list, the
    /// others stay in their order.
    pub fn receive(self, report: &ClaimReport) -> (next: Self)
        ensures
            next.all() == self.all(),
            next.received() == self.received().push(report@),
            next.remaining() == not_claimed_by(self.remaining(), report@),
            next.remaining() == unclaimed(next.all(), next.received()),
    {
        proof {
            use_type_invariant(&self);
        }
        let ghost before = self.remaining.deep_view();
        let ghost keep = |p: ProjectDetailedView| !claimed_by(p, report@);
        let ghost earlier_reports = self.received@;
        let ghost later_reports = earlier_reports.push(report@);
        let ghost all = self.all@;
        let source = self.remaining;
        let mut kept: Vec<ProjectDetailed> = Vec::new();
        proof {
            reveal(Seq::filter);
            assert(before.take(0).filter(keep) =~= kept.deep_view());
        }
        for project in it: source
            invariant
                it.seq().len() == before.len(),
                forall|i: int| 0 <= i < before.len() ==> (#[trigger] it.seq()[i]).deep_view() == before[i],
                forall|p: ProjectDetailedView| #[trigger] keep(p) == !claimed_by(p, report@),
                kept.deep_view() == before.take(it.index()).filter(keep),
        {
            proof {
                lemma_filter_step(before, keep, it.index());
                assert(project == it.seq()[it.index()]);
                assert(project.deep_view() == before[it.index()]);
            }
            let ghost earlier = kept.deep_view();
            if !claims(report, &project) {
                kept.push(project);
                assert(kept.deep_view() =~= earlier.push(project@));
            }
        }
        assert(before.take(before.len() as int) == before);
        proof {
            let earlier = earlier_reports;
            let later = later_reports;
            let first = |p: ProjectDetailedView| !claimed(p, earlier);
            let both = |p: ProjectDetailedView| !claimed(p, later);
            assert forall|p: ProjectDetailedView| #[trigger] both(p) == (first(p) && keep(p)) by {
                if claimed(p, later) {
                    let k = choose|k: int| 0 <= k < later.len() && claimed_by(p, #[trigger] later[k]);
                    if k < earlier.len() {
                        assert(claimed_by(p, earlier[k]));
                    }
                }
                if claimed(p, earlier) {
                    let k = choose|k: int|
                        0 <= k < earlier.len() && claimed_by(p, #[trigger] earlier[k]);
                    assert(claimed_by(p, later[k]));
                }
                if claimed_by(p, report@) {
                    assert(claimed_by(p, later[earlier.len() as int]));
                }
            }
            lemma_filter_twice(all, first, keep, both);
        }
        Reconciler { remaining: kept, all: Ghost(all), received: Ghost(later_reports) }
    }

    /// How many projects are still unclaimed.
    pub fn remaining_count(&self) -> (count: usize)
        ensures
            count == self.remaining().len(),
    {
        self.remaining.len()
    }

    /// The stand-in references for what is still unclaimed, in the order of the
    /// global list.
    pub fn in_house_projects(&self) -> (projects: Vec<Project>)
        ensures
            projects.deep_view() == in_house(self.remaining()),
            self.remaining() == unclaimed(self.all(), self.received()),
    {
        proof {
            use_type_invariant(self);
        }
        let mut projects: Vec<Project> = Vec::new();
        let mut i: usize = 0;
        while i < self.remaining.len()
            invariant
                i <= self.remaining.len(),
                projects.deep_view() == in_house(self.remaining.deep_view()).take(i as int),
            decreases self.remaining.len() - i,
        {
            let ghost earlier = projects.deep_view();
            let entry = &self.remaining[i];
            let stand_in = Project { id: entry.customer_id, title: entry.title.clone() };
            projects.push(stand_in);
            assert(projects.deep_view() =~= earlier.push(stand_in@));
            i += 1;
        }
        projects
    }
}

/// A condition splits a sequence into those that meet it and those that do
/// not, and every element is in exactly one of the two parts, as often as it
/// was in the whole.
proof fn lemma_filter_splits<A>(s: Seq<A>, yes: spec_fn(A) -> bool, no: spec_fn(A) -> bool)
    requires
        forall|a: A| #[trigger] no(a) == !yes(a),
    ensures
        s.to_multiset() == s.filter(yes).to_multiset().add(s.filter(no).to_multiset()),
    decreases s.len(),
{
    reveal(Seq::filter);
    broadcast use vstd::seq_lib::group_to_multiset_ensures;

    if s.len() == 0 {
        assert(s.to_multiset() =~= s.filter(yes).to_multiset().add(s.filter(no).to_multiset()));
    } else {
        let front = s.drop_last();
        lemma_filter_splits(front, yes, no);
        assert(front.push(s.last()) == s);
        assert(s.to_multiset() =~= front.to_multiset().insert(s.last()));
        assert(s.to_multiset() =~= s.filter(yes).to_multiset().add(s.filter(no).to_multiset()));
    }
}

/// How the unclaimed projects come about, one project at a time: an empty
/// list leaves nothing, and a project at the end of the list is left
/// exactly when no report claims it.
pub proof fn lemma_unclaimed_one_by_one(
    all: Seq<ProjectDetailedView>,
    project: ProjectDetailedView,
    reports: Seq<ClaimReportView>,
)
    ensures
        unclaimed(Seq::empty(), reports) == Seq::<ProjectDetailedView>::empty(),
        unclaimed(all.push(project), reports) == if claimed(project, reports) {
            unclaimed(all, reports)
        } else {
            unclaimed(all, reports).push(project)
        },
{
    reveal(Seq::filter);
    assert(all.push(project).drop_last() == all);
}

/// Reconciliation loses nothing and doubles nothing. Whatever the reports,
/// the global list splits into the projects that a report claims and those
/// that stay unclaimed: every project is in exactly one part, as often as
/// the list held it. A claimed project is named in a report of its own
/// customer; every project that is in nobody's report stays unclaimed; and
/// the in-house bucket gets one stand-in for each unclaimed project.
pub proof fn lemma_nothing_lost(all: Seq<ProjectDetailedView>, reports: Seq<ClaimReportView>)
    ensures
        all.to_multiset() == settled(all, reports).to_multiset().add(
            unclaimed(all, reports).to_multiset(),
        ),
        forall|i: int|
            0 <= i < settled(all, reports).len() ==> claimed(
                #[trigger] settled(all, reports)[i],
                reports,
            ),
        forall|i: int|
            0 <= i < unclaimed(all, reports).len() ==> !claimed(
                #[trigger] unclaimed(all, reports)[i],
                reports,
            ),
        forall|i: int|
            0 <= i < all.len() ==> named_ids(reports).contains((#[trigger] all[i]).id) || unclaimed(
                all,
                reports,
            ).contains(all[i]),
        in_house(unclaimed(all, reports)).len() == unclaimed(all, reports).len(),
{
    let yes = |p: ProjectDetailedView| claimed(p, reports);
    let no = |p: ProjectDetailedView| !claimed(p, reports);
    lemma_filter_splits(all, yes, no);
    broadcast use {Seq::lemma_filter_pred, Seq::lemma_filter_contains};

    assert forall|i: int| 0 <= i < all.len() implies named_ids(reports).contains(
        (#[trigger] all[i]).id,
    ) || unclaimed(all, reports).contains(all[i]) by {
        if claimed(all[i], reports) {
            let k = choose|k: int| 0 <= k < reports.len() && claimed_by(all[i], #[trigger] reports[k]);
            assert(lists(reports[k].projects, all[i].id));
        } else {
            assert(no(all[i]));
            all.lemma_filter_contains(no, i);
        }
    }
}

/// The order in which the reports arrive does not matter: two runs that
/// receive the same reports leave the same projects unclaimed.
pub proof fn lemma_arrival_order_is_irrelevant(
    all: Seq<ProjectDetailedView>,
    first: Seq<ClaimReportView>,
    second: Seq<ClaimReportView>,
)
    requires
        first.to_multiset() == second.to_multiset(),
    ensures
        unclaimed(all, first) == unclaimed(all, second),
{
    first.to_multiset_ensures();
    second.to_multiset_ensures();
    let keep_first = |p: ProjectDetailedView| !claimed(p, first);
    let keep_second = |p: ProjectDetailedView| !claimed(p, second);
    assert forall|p: ProjectDetailedView| #[trigger] keep_first(p) == keep_second(p) by {
        if claimed(p, first) {
            let k = choose|k: int| 0 <= k < first.len() && claimed_by(p, #[trigger] first[k]);
            assert(first.contains(first[k]));
            assert(second.to_multiset().count(first[k]) > 0);
            let j = choose|j: int| 0 <= j < second.len() && second[j] == first[k];
            assert(claimed_by(p, second[j]));
        }
        if claimed(p, second) {
            let k = choose|k: int| 0 <= k < second.len() && claimed_by(p, #[trigger] second[k]);
            assert(second.contains(second[k]));
            assert(first.to_multiset().count(second[k]) > 0);
            let j = choose|j: int| 0 <= j < first.len() && first[j] == second[k];
            assert(claimed_by(p, first[j]));
        }
    }
    lemma_filter_same(all, keep_first, keep_second);
}

/// Two conditions that agree everywhere filter alike.
proof fn lemma_filter_same<A>(s: Seq<A>, left: spec_fn(A) -> bool, right: spec_fn(A) -> bool)
    requires
        forall|a: A| #[trigger] left(a) == right(a),
    ensures
        s.filter(left) == s.filter(right),
    decreases s.len(),
{
    reveal(Seq::filter);
    if s.len() > 0 {
        lemma_filter_same(s.drop_last(), left, right);
    }
}

/// A filter that every element passes keeps the sequence as it is.
proof fn lemma_filter_keeps_all<A>(s: Seq<A>, keep: spec_fn(A) -> bool)
    requires
        forall|i: int| 0 <= i < s.len() ==> keep(#[trigger] s[i]),
    ensures
        s.filter(keep) == s,
    decreases s.len(),
{
    reveal(Seq::filter);
    if s.len() > 0 {
        lemma_filter_keeps_all(s.drop_last(), keep);
        assert(s.drop_last().push(s.last()) == s);
    }
}

} // verus!
