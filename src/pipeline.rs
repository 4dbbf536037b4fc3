//! The crawl as a sequence of stages (metals, shapes, products, SKUs). The
//! runner hands out fetch tasks up to a global bound on fetches in flight,
//! merges each finished task's links into the next stage's frontier without
//! repeats, and moves to the next stage only once every task of the current
//! one has finished.

use vstd::prelude::*;
use crate::extract::products_view;
use crate::links::insert_unique;
use crate::models::{ProductInfo, ProductView};
use crate::text::strings_view;

verus! {

/// Fetches in flight at once, across the whole run.
pub const MAX_IN_FLIGHT: usize = 50;

/// The level of the catalog that a stage fetches.
#[derive(Debug, Clone, Copy, PartialEq, Eq, Structural)]
pub enum Stage {
    Metals,
    Shapes,
    Products,
    Skus,
    Done,
}

pub open spec fn next_stage(s: Stage) -> Stage {
    match s {
        Stage::Metals => Stage::Shapes,
        Stage::Shapes => Stage::Products,
        Stage::Products => Stage::Skus,
        _ => Stage::Done,
    }
}

/// Whether a stage's pages yield links to follow (the last yields records).
pub open spec fn yields_links(s: Stage) -> bool {
    s == Stage::Metals || s == Stage::Shapes || s == Stage::Products
}

/// The links that the successful tasks of a stage found, all together.
pub open spec fn links_of(outcomes: Seq<Option<Set<Seq<char>>>>) -> Set<Seq<char>>
    decreases outcomes.len(),
{
    if outcomes.len() == 0 {
        Set::empty()
    } else {
        match outcomes.last() {
            Some(found) => links_of(outcomes.drop_last()).union(found),
            None => links_of(outcomes.drop_last()),
        }
    }
}

/// A run's state as plain values.
pub struct PipelineView {
    pub stage: Stage,
    /// The distinct URLs of the current stage.
    pub frontier: Seq<Seq<char>>,
    /// How many of them have been handed out.
    pub dispatched: nat,
    /// Handed-out tasks not yet finished.
    pub in_flight: nat,
    pub limit: nat,
    /// The next stage's frontier, as gathered so far.
    pub found: Seq<Seq<char>>,
    /// The outcome of each finished task of the current stage: the links it
    /// found, or `None` where its fetch failed.
    pub outcomes: Seq<Option<Set<Seq<char>>>>,
    /// Product records over the whole run, in order of arrival.
    pub products: Seq<ProductView>,
}

/// What holds of a run at every step.
pub open spec fn valid(v: PipelineView) -> bool {
    &&& 0 < v.limit
    &&& v.in_flight <= v.limit
    &&& v.in_flight <= v.dispatched <= v.frontier.len()
    &&& v.frontier.no_duplicates()
    &&& v.found.no_duplicates()
    &&& v.found.to_set() == links_of(v.outcomes)
    &&& v.stage == Stage::Done ==> v.frontier.len() == 0
}

pub struct Pipeline {
    stage: Stage,
    frontier: Vec<String>,
    dispatched: usize,
    in_flight: usize,
    limit: usize,
    found: Vec<String>,
    outcomes: Ghost<Seq<Option<Set<Seq<char>>>>>,
    products: Vec<ProductInfo>,
}

impl View for Pipeline {
    type V = PipelineView;

    closed spec fn view(&self) -> PipelineView {
        PipelineView {
            stage: self.stage,
            frontier: strings_view(self.frontier@),
            dispatched: self.dispatched as nat,
            in_flight: self.in_flight as nat,
            limit: self.limit as nat,
            found: strings_view(self.found@),
            outcomes: self.outcomes@,
            products: products_view(self.products@),
        }
    }
}

impl Pipeline {
    pub open spec fn wf(&self) -> bool {
        valid(self@)
    }

    /// A run that starts from the category listing at `start`, with at most
    /// `limit` fetches in flight.
    pub fn with_limit(start: String, limit: usize) -> (r: Pipeline)
        requires
            0 < limit,
        ensures
            r.wf(),
            r@.stage == Stage::Metals,
            r@.frontier == seq![start@],
            r@.dispatched == 0,
            r@.in_flight == 0,
            r@.limit == limit,
            r@.found.len() == 0,
            r@.outcomes.len() == 0,
            r@.products.len() == 0,
    {
        let ghost sv = start@;
        let p = Pipeline {
            stage: Stage::Metals,
            frontier: vec![start],
            dispatched: 0,
            in_flight: 0,
            limit,
            found: Vec::new(),
            outcomes: Ghost(Seq::empty()),
            products: Vec::new(),
        };
        assert(p@.frontier =~= seq![sv]);
        assert(p@.found =~= Seq::<Seq<char>>::empty());
        assert(p@.found.to_set() =~= Set::<Seq<char>>::empty());
        assert(p@.products =~= Seq::<ProductView>::empty());
        p
    }

    /// A run from `start` with the standard bound on fetches in flight.
    pub fn new(start: String) -> (r: Pipeline)
        ensures
            r.wf(),
            r@.stage == Stage::Metals,
            r@.frontier == seq![start@],
            r@.dispatched == 0,
            r@.in_flight == 0,
            r@.limit == MAX_IN_FLIGHT,
            r@.found.len() == 0,
            r@.outcomes.len() == 0,
            r@.products.len() == 0,
    {
        Pipeline::with_limit(start, MAX_IN_FLIGHT)
    }

    pub fn stage(&self) -> (r: Stage)
        ensures
            r == self@.stage,
    {
        self.stage
    }

    pub fn in_flight(&self) -> (r: usize)
        ensures
            r == self@.in_flight,
    {
        self.in_flight
    }

    /// The distinct URLs of the current stage.
    pub fn frontier(&self) -> (r: &Vec<String>)
        ensures
            strings_view(r@) == self@.frontier,
    {
        &self.frontier
    }

    /// The product records gathered so far.
    pub fn products(&self) -> (r: &Vec<ProductInfo>)
        ensures
            products_view(r@) == self@.products,
    {
        &self.products
    }

    /// Hands out the next URL of the stage, unless all are handed out or
    /// the bound on fetches in flight is reached.
    pub fn next_task(&mut self) -> (r: Option<String>)
        requires
            old(self).wf(),
        ensures
            final(self).wf(),
            ({
                let o = old(self)@;
                let n = final(self)@;
                if o.dispatched < o.frontier.len() && o.in_flight < o.limit {
                    r matches Some(u) && u@ == o.frontier[o.dispatched as int]
                        && n == (PipelineView { dispatched: o.dispatched + 1, in_flight: o.in_flight + 1, ..o })
                } else {
                    r is None && n == o
                }
            }),
    {
        if self.dispatched < self.frontier.len() && self.in_flight < self.limit {
            let u = self.frontier[self.dispatched].clone();
            self.dispatched = self.dispatched + 1;
            self.in_flight = self.in_flight + 1;
            Some(u)
        } else {
            None
        }
    }

    proof fn lemma_links_of_push(outcomes: Seq<Option<Set<Seq<char>>>>, o: Option<Set<Seq<char>>>)
        ensures
            links_of(outcomes.push(o)) == match o {
                Some(found) => links_of(outcomes).union(found),
                None => links_of(outcomes),
            },
    {
        assert(outcomes.push(o).drop_last() =~= outcomes);
    }

    /// Takes the outcome of a task of a link stage: the links its page gave,
    /// or `None` where its fetch failed. New links join the next frontier;
    /// repeats do not.
    pub fn complete_links(&mut self, links: Option<Vec<String>>)
        requires
            old(self).wf(),
            old(self)@.in_flight > 0,
            yields_links(old(self)@.stage),
        ensures
            final(self).wf(),
            ({
                let o = old(self)@;
                let n = final(self)@;
                let outcome = match links {
                    Some(l) => Some(strings_view(l@).to_set()),
                    None => None,
                };
                &&& n.stage == o.stage
                &&& n.frontier == o.frontier
                &&& n.dispatched == o.dispatched
                &&& n.in_flight == o.in_flight - 1
                &&& n.limit == o.limit
                &&& n.outcomes == o.outcomes.push(outcome)
                &&& n.products == o.products
            }),
    {
        self.in_flight = self.in_flight - 1;
        match links {
            Some(l) => {
                let ghost lset = strings_view(l@).to_set();
                let ghost start_set = strings_view(self.found@).to_set();
                let ghost before = *self;
                let mut i: usize = 0;
                while i < l.len()
                    invariant
                        i <= l@.len(),
                        self.stage == before.stage,
                        self.frontier == before.frontier,
                        self.dispatched == before.dispatched,
                        self.in_flight == before.in_flight,
                        self.limit == before.limit,
                        self.outcomes == before.outcomes,
                        self.products == before.products,
                        strings_view(self.found@).no_duplicates(),
                        strings_view(self.found@).to_set() == start_set.union(strings_view(l@).take(i as int).to_set()),
                    decreases l@.len() - i,
                {
                    insert_unique(&mut self.found, l[i].clone());
                    proof {
                        let pre = strings_view(l@).take(i as int);
                        assert(strings_view(l@).take(i as int + 1) =~= pre.push(l@[i as int]@));
                        pre.lemma_push_to_set_commute(l@[i as int]@);
                        assert(start_set.union(pre.push(l@[i as int]@).to_set()) =~= start_set.union(pre.to_set()).insert(l@[i as int]@));
                    }
                    i = i + 1;
                }
                assert(strings_view(l@).take(l@.len() as int) =~= strings_view(l@));
                proof {
                    Self::lemma_links_of_push(self.outcomes@, Some(lset));
                }
                self.outcomes = Ghost(self.outcomes@.push(Some(lset)));
            },
            None => {
                proof {
                    Self::lemma_links_of_push(self.outcomes@, None);
                }
                self.outcomes = Ghost(self.outcomes@.push(None));
            },
        }
    }

    /// Takes the outcome of a task of the last stage: the records its page
    /// gave, appended as they are, or `None` where its fetch failed.
    pub fn complete_records(&mut self, records: Option<Vec<ProductInfo>>)
        requires
            old(self).wf(),
            old(self)@.in_flight > 0,
            old(self)@.stage == Stage::Skus,
        ensures
            final(self).wf(),
            ({
                let o = old(self)@;
                let n = final(self)@;
                &&& n.stage == o.stage
                &&& n.frontier == o.frontier
                &&& n.dispatched == o.dispatched
                &&& n.in_flight == o.in_flight - 1
                &&& n.limit == o.limit
                &&& n.found == o.found
                &&& n.outcomes == o.outcomes
                &&& n.products == match records {
                    Some(r) => o.products + products_view(r@),
                    None => o.products,
                }
            }),
    {
        self.in_flight = self.in_flight - 1;
        match records {
            Some(r) => {
                let ghost before = products_view(self.products@);
                let mut r = r;
                let ghost rv = products_view(r@);
                self.products.append(&mut r);
                assert(products_view(self.products@) =~= before + rv);
            },
            None => {},
        }
    }

    /// Every task of the current stage has been handed out and has finished.
    pub fn stage_finished(&self) -> (r: bool)
        ensures
            r == (self@.dispatched == self@.frontier.len() && self@.in_flight == 0),
    {
        self.dispatched == self.frontier.len() && self.in_flight == 0
    }

    /// Moves to the next stage once the current one has finished: the links
    /// gathered become its frontier.
    pub fn advance(&mut self)
        requires
            old(self).wf(),
            old(self)@.dispatched == old(self)@.frontier.len(),
            old(self)@.in_flight == 0,
            old(self)@.stage != Stage::Done,
        ensures
            final(self).wf(),
            ({
                let o = old(self)@;
                let n = final(self)@;
                &&& n.stage == next_stage(o.stage)
                &&& n.stage != Stage::Done ==> n.frontier == o.found
                &&& n.stage != Stage::Done ==> n.frontier.to_set() == links_of(o.outcomes)
                &&& n.stage == Stage::Done ==> n.frontier.len() == 0
                &&& n.dispatched == 0
                &&& n.in_flight == 0
                &&& n.limit == o.limit
                &&& n.found.len() == 0
                &&& n.outcomes.len() == 0
                &&& n.products == o.products
            }),
    {
        self.stage = match self.stage {
            Stage::Metals => Stage::Shapes,
            Stage::Shapes => Stage::Products,
            Stage::Products => Stage::Skus,
            _ => Stage::Done,
        };
        let mut gathered: Vec<String> = Vec::new();
        std::mem::swap(&mut gathered, &mut self.found);
        if self.stage == Stage::Done {
            self.frontier = Vec::new();
        } else {
            self.frontier = gathered;
        }
        self.dispatched = 0;
        self.outcomes = Ghost(Seq::empty());
        assert(strings_view(self.found@) =~= Seq::<Seq<char>>::empty());
        assert(strings_view(self.found@).to_set() =~= Set::<Seq<char>>::empty());
        assert(self.stage == Stage::Done ==> strings_view(self.frontier@) =~= Seq::<Seq<char>>::empty());
    }

    /// The run has gone through every stage.
    pub fn is_done(&self) -> (r: bool)
        ensures
            r == (self@.stage == Stage::Done),
    {
        self.stage == Stage::Done
    }
}

/// A stage whose every fetch failed hands an empty frontier to the next.
pub proof fn lemma_all_failed_yields_nothing(outcomes: Seq<Option<Set<Seq<char>>>>)
    requires
        forall|i: int| 0 <= i < outcomes.len() ==> (#[trigger] outcomes[i]).is_none(),
    ensures
        links_of(outcomes) == Set::<Seq<char>>::empty(),
    decreases outcomes.len(),
{
    if outcomes.len() > 0 {
        let prefix = outcomes.drop_last();
        assert forall|i: int| 0 <= i < prefix.len() implies (#[trigger] prefix[i]).is_none() by {
            assert(prefix[i] == outcomes[i]);
        }
        lemma_all_failed_yields_nothing(prefix);
        assert(outcomes[outcomes.len() - 1] == outcomes.last());
    }
}

/// At every step of a run, the fetches in flight stay within its bound.
pub proof fn lemma_in_flight_bounded(p: Pipeline)
    requires
        p.wf(),
    ensures
        p@.in_flight <= p@.limit,
{
}

/// Every frontier, and the next one as it is gathered, holds each URL once.
pub proof fn lemma_frontiers_distinct(p: Pipeline)
    requires
        p.wf(),
    ensures
        p@.frontier.no_duplicates(),
        p@.found.no_duplicates(),
{
}

} // verus!
