//! Gathers the reports of several sources, of different types, into one text.
use vstd::prelude::*;
use crate::report::Report;
use crate::text::{join, views, join_strings};

verus! {

/// A chain of report sources: `()` is the empty chain, `(chain, item)` the
/// chain with `item` added at its end.
pub trait ReportSources {
    /// Whether `reports` are reports that the sources of the chain may give,
    /// in the order of the chain.
    spec fn are_reports(&self, reports: Seq<Seq<char>>) -> bool;

    /// Appends the report of every source of the chain, in order.
    fn collect_reports(&self, reports: &mut Vec<String>)
        ensures
            exists|added: Seq<Seq<char>>| #[trigger] self.are_reports(added) && views(final(reports)@)
                == views(old(reports)@) + added,
    ;
}

impl ReportSources for () {
    open spec fn are_reports(&self, reports: Seq<Seq<char>>) -> bool {
        reports.len() == 0
    }

    fn collect_reports(&self, reports: &mut Vec<String>) {
        assert(views(reports@) == views(reports@) + Seq::<Seq<char>>::empty());
        assert(self.are_reports(Seq::<Seq<char>>::empty()));
    }
}

impl<Chain: ReportSources, Item: Report> ReportSources for (Chain, Item) {
    open spec fn are_reports(&self, reports: Seq<Seq<char>>) -> bool {
        &&& reports.len() >= 1
        &&& self.0.are_reports(reports.drop_last())
        &&& self.1.is_report(reports.last())
    }

    fn collect_reports(&self, reports: &mut Vec<String>) {
        let (chain, item) = self;
        chain.collect_reports(reports);
        let ghost middle = views(reports@);
        let rep = item.report();
        reports.push(rep);
        proof {
            let added = choose|added: Seq<Seq<char>>| #[trigger] chain.are_reports(added) && middle
                == views(old(reports)@) + added;
            let all = added.push(rep@);
            assert(all.drop_last() =~= added);
            assert(views(reports@) =~= middle.push(rep@));
            assert(views(reports@) =~= views(old(reports)@) + all);
            assert(self.are_reports(all));
        }
    }
}

/// Collects report sources of any types; each `add` makes a longer chain.
#[derive(Debug, Default)]
pub struct Reporter<T = ()> {
    items: T,
}

impl Reporter<()> {
    /// A reporter without sources.
    pub fn new() -> (r: Reporter<()>)
        ensures
            r.sources() == (),
    {
        Reporter { items: () }
    }
}

impl<T> Reporter<T> {
    /// The chain of sources.
    pub closed spec fn sources(&self) -> T {
        self.items
    }
}

impl<T: ReportSources> Reporter<T> {
    /// The reporter with `item` added after the sources it has.
    pub fn add<R: Report>(self, item: R) -> (r: Reporter<(T, R)>)
        ensures
            r.sources() == (self.sources(), item),
    {
        Reporter { items: (self.items, item) }
    }

    /// The reports of all sources, in the order they were added, one per line.
    pub fn report_string(&self) -> (r: String)
        ensures
            exists|reports: Seq<Seq<char>>| #[trigger] self.sources().are_reports(reports) && r@ == join(
                reports,
                "\n"@,
            ),
    {
        let mut reports: Vec<String> = Vec::new();
        self.items.collect_reports(&mut reports);
        let r = join_strings(&reports, "\n");
        proof {
            let added = choose|added: Seq<Seq<char>>| #[trigger] self.items.are_reports(added) && views(reports@)
                == views(Seq::<String>::empty()) + added;
            assert(views(Seq::<String>::empty()) + added =~= added);
            assert(views(reports@) == added);
            assert(self.sources().are_reports(added) && r@ == join(added, "\n"@));
        }
        r
    }
}

} // verus!
