//! Following the seeds that the user configures.
use crate::text::Text;
use vstd::prelude::*;

verus! {

/// How often the configured seeds are looked up, in milliseconds.
pub const POLL_INTERVAL_MILLIS: u64 = 400;

/// A seed node to connect to.
#[derive(Debug)]
pub struct Seed {
    /// The ID of the seed.
    pub peer_id: String,
    /// Its network addresses.
    pub addrs: Vec<String>,
    /// A name for the seed.
    pub label: Option<String>,
}

/// The mathematical value of a [`Seed`].
pub struct SeedView {
    pub peer_id: Text,
    pub addrs: Seq<Text>,
    pub label: Option<Text>,
}

impl DeepView for Seed {
    type V = SeedView;

    open spec fn deep_view(&self) -> SeedView {
        SeedView {
            peer_id: self.peer_id@,
            addrs: self.addrs.deep_view(),
            label: self.label.deep_view(),
        }
    }
}

/// The setting that is looked up: what is stored, or no seeds at all.
pub open spec fn stored_or_none(stored: Option<Seq<Text>>) -> Seq<Text> {
    match stored {
        Some(seeds) => seeds,
        None => seq![],
    }
}

/// Takes the seeds of the session store to the setting that is resolved.
pub fn seed_setting(stored: Option<Vec<String>>) -> (setting: Vec<String>)
    ensures
        setting.deep_view() == stored_or_none(stored.deep_view()),
{
    match stored {
        Some(seeds) => seeds,
        None => {
            let none: Vec<String> = Vec::new();
            assert(none.deep_view() =~= seq![]);
            none
        },
    }
}

/// The seeds `S` of the session: the resolved ones, or none if resolving them failed.
pub fn session_seeds<S, E>(resolved: Result<Vec<S>, E>) -> (seeds: Vec<S>)
    ensures
        seeds@ == match resolved {
            Ok(resolved) => resolved@,
            Err(_) => Seq::empty(),
        },
{
    match resolved {
        Ok(seeds) => seeds,
        Err(_) => Vec::new(),
    }
}

fn same_texts(first: &Vec<String>, second: &Vec<String>) -> (same: bool)
    ensures
        same == (first.deep_view() == second.deep_view()),
{
    if first.len() != second.len() {
        assert(first.deep_view().len() != second.deep_view().len());
        return false;
    }
    for i in 0..first.len()
        invariant
            first@.len() == second@.len(),
            forall|j: int| 0 <= j < i ==> first.deep_view()[j] == second.deep_view()[j],
    {
        if first[i] != second[i] {
            assert(first.deep_view()[i as int] != second.deep_view()[i as int]);
            return false;
        }
        assert(first.deep_view()[i as int] == second.deep_view()[i as int]);
    }
    assert(first.deep_view() =~= second.deep_view());
    true
}

fn same_labels(first: &Option<String>, second: &Option<String>) -> (same: bool)
    ensures
        same == (first.deep_view() == second.deep_view()),
{
    match (first, second) {
        (Some(first), Some(second)) => *first == *second,
        (None, None) => true,
        _ => false,
    }
}

impl Seed {
    /// Whether two seeds agree in everything.
    pub fn same(&self, other: &Seed) -> (same: bool)
        ensures
            same == (self.deep_view() == other.deep_view()),
    {
        self.peer_id == other.peer_id && same_texts(&self.addrs, &other.addrs) && same_labels(
            &self.label,
            &other.label,
        )
    }
}

/// Whether two lists hold the same seeds in the same order.
pub fn same_seeds(first: &Vec<Seed>, second: &Vec<Seed>) -> (same: bool)
    ensures
        same == (first.deep_view() == second.deep_view()),
{
    if first.len() != second.len() {
        assert(first.deep_view().len() != second.deep_view().len());
        return false;
    }
    for i in 0..first.len()
        invariant
            first@.len() == second@.len(),
            forall|j: int| 0 <= j < i ==> first.deep_view()[j] == second.deep_view()[j],
    {
        if !first[i].same(&second[i]) {
            assert(first.deep_view()[i as int] != second.deep_view()[i as int]);
            return false;
        }
        assert(first.deep_view()[i as int] == second.deep_view()[i as int]);
    }
    assert(first.deep_view() =~= second.deep_view());
    true
}

/// Watches the seeds for changes.
#[derive(Debug)]
pub struct SeedWatch {
    last: Vec<Seed>,
}

impl View for SeedWatch {
    type V = Seq<SeedView>;

    /// The seeds that were published last.
    closed spec fn view(&self) -> Seq<SeedView> {
        self.last.deep_view()
    }
}

/// What follows a look at the seeds.
#[derive(Debug)]
pub enum Look {
    /// Nothing has changed: wait and look again.
    Unchanged { watch: SeedWatch },
    /// The seeds have changed: publish them and tell whether anybody listens.
    Changed { pending: PendingSeeds },
}

/// Changed seeds that are about to be published.
#[derive(Debug)]
pub struct PendingSeeds {
    seeds: Vec<Seed>,
}

impl View for PendingSeeds {
    type V = Seq<SeedView>;

    closed spec fn view(&self) -> Seq<SeedView> {
        self.seeds.deep_view()
    }
}

/// What a look at the seeds publishes, where the last published ones were `last`.
pub open spec fn publication(
    last: Seq<SeedView>,
    seeds: Seq<SeedView>,
) -> Option<Seq<SeedView>> {
    if seeds == last {
        None
    } else {
        Some(seeds)
    }
}

impl SeedWatch {
    /// Starts watching; the initial seeds count as published.
    pub fn watch_seeds_discovery(initial: Vec<Seed>) -> (watch: SeedWatch)
        ensures
            watch@ == initial.deep_view(),
    {
        SeedWatch { last: initial }
    }

    /// Compares the seeds with those that were published last.
    pub fn look(self, seeds: Vec<Seed>) -> (look: Look)
        ensures
            match publication(self@, seeds.deep_view()) {
                None => look matches Look::Unchanged { watch } && watch@ == self@,
                Some(changed) => look matches Look::Changed { pending } && pending@ == changed,
            },
    {
        if same_seeds(&seeds, &self.last) {
            Look::Unchanged { watch: self }
        } else {
            Look::Changed { pending: PendingSeeds { seeds } }
        }
    }
}

impl PendingSeeds {
    /// The seeds to publish.
    pub fn seeds(&self) -> (seeds: &Vec<Seed>)
        ensures
            seeds.deep_view() == self@,
    {
        &self.seeds
    }

    /// Goes on watching if somebody has received the seeds, and ends watching otherwise.
    pub fn published(self, received: bool) -> (watch: Option<SeedWatch>)
        ensures
            received ==> watch is Some && watch->0@ == self@,
            !received ==> watch is None,
    {
        if received {
            Some(SeedWatch { last: self.seeds })
        } else {
            None
        }
    }
}

/// What is published while the seeds are looked at again and again, where the last published
/// ones were `last` and everything published is received.
pub open spec fn publications(last: Seq<SeedView>, looks: Seq<Seq<SeedView>>) -> Seq<Seq<SeedView>>
    decreases looks.len(),
{
    if looks.len() == 0 {
        seq![]
    } else {
        match publication(last, looks[0]) {
            None => publications(last, looks.drop_first()),
            Some(changed) => seq![changed] + publications(changed, looks.drop_first()),
        }
    }
}

/// What was published last: the initial seeds, if there was no change.
pub open spec fn latest(last: Seq<SeedView>, published: Seq<Seq<SeedView>>) -> Seq<SeedView> {
    if published.len() == 0 {
        last
    } else {
        published.last()
    }
}

/// After every look, the seeds that were published last are the ones that were seen.
pub proof fn law_latest_is_current(last: Seq<SeedView>, looks: Seq<Seq<SeedView>>)
    ensures
        latest(last, publications(last, looks)) == latest(last, looks),
    decreases looks.len(),
{
    if looks.len() > 0 {
        law_latest_is_current(looks[0], looks.drop_first());
    }
}

/// Seeds are published only when they have changed: no publication repeats the one before.
pub proof fn law_publications_differ(last: Seq<SeedView>, looks: Seq<Seq<SeedView>>)
    ensures
        ({
            let published = publications(last, looks);
            &&& published.len() <= looks.len()
            &&& published.len() > 0 ==> published[0] != last
            &&& forall|i: int| 0 < i < published.len() ==> #[trigger] published[i] != published[i - 1]
        }),
    decreases looks.len(),
{
    if looks.len() > 0 {
        law_publications_differ(looks[0], looks.drop_first());
        let published = publications(last, looks);
        if looks[0] != last {
            let rest = publications(looks[0], looks.drop_first());
            assert forall|i: int| 0 < i < published.len() implies #[trigger] published[i] != published[i
                - 1] by {
                assert(published[i] == rest[i - 1]);
                if i > 1 {
                    assert(published[i - 1] == rest[i - 2]);
                }
            }
        }
    }
}

/// As long as the seeds stay the same, nothing is published.
pub proof fn law_no_change_no_publication(last: Seq<SeedView>, looks: Seq<Seq<SeedView>>)
    requires
        forall|i: int| 0 <= i < looks.len() ==> #[trigger] looks[i] == last,
    ensures
        publications(last, looks).len() == 0,
    decreases looks.len(),
{
    if looks.len() > 0 {
        let rest = looks.drop_first();
        assert forall|i: int| 0 <= i < rest.len() implies #[trigger] rest[i] == last by {
            assert(rest[i] == looks[i + 1]);
        }
        law_no_change_no_publication(last, rest);
    }
}

/// The setting is the stored list, text for text and in its order; without a stored list there are
/// no seeds.
pub proof fn law_setting_is_stored_list(stored: Option<Seq<Text>>)
    ensures
        match stored {
            Some(list) => {
                &&& stored_or_none(stored).len() == list.len()
                &&& forall|i: int|
                    0 <= i < list.len() ==> #[trigger] stored_or_none(stored)[i] == list[i]
            },
            None => stored_or_none(stored).len() == 0,
        },
{
}

/// Two seeds are the same exactly if their IDs, all of their addresses in order, and their labels
/// are.
pub proof fn law_same_seed(first: Seed, second: Seed)
    ensures
        first.deep_view() == second.deep_view() <==> first.peer_id@ == second.peer_id@
            && first.addrs.deep_view() == second.addrs.deep_view() && first.label.deep_view()
            == second.label.deep_view(),
        first.deep_view().peer_id == first.peer_id@,
        first.deep_view().addrs == first.addrs.deep_view(),
        first.deep_view().label == first.label.deep_view(),
{
}

/// A look publishes exactly if the seeds differ from the last published ones in their number or at
/// some position, and then it publishes all of them as they are.
pub proof fn law_look_publishes_change(last: Seq<SeedView>, seeds: Seq<SeedView>)
    ensures
        publication(last, seeds) is None <==> seeds.len() == last.len() && forall|i: int|
            0 <= i < seeds.len() ==> #[trigger] seeds[i] == last[i],
        publication(last, seeds) matches Some(published) ==> {
            &&& published.len() == seeds.len()
            &&& forall|i: int| 0 <= i < seeds.len() ==> #[trigger] published[i] == seeds[i]
        },
{
    if seeds.len() == last.len() && (forall|i: int|
        0 <= i < seeds.len() ==> #[trigger] seeds[i] == last[i]) {
        assert(seeds =~= last);
    }
}

/// The seeds are looked up every 400 milliseconds.
pub proof fn law_poll_interval()
    ensures
        POLL_INTERVAL_MILLIS == 400,
{
}

} // verus!
