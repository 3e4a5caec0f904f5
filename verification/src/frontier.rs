//! The frontier of a crawl: which pages have been admitted, which are hits,
//! and which come next.
//!
//! A crawl goes level by level. The pages of a level are fetched by the
//! caller; what the fetches gave comes back here, is added to the hits and
//! misses, and yields the next level. A page is admitted to a level only if
//! the policy lets it be crawled and no page with its canonical key was
//! admitted before, so no page is fetched twice.

use crate::config::{Config, ConfigView};
use crate::identity::{canonical_key, PartialUrl, PartialUrlView};
use crate::page::{SingleCrawl, SingleCrawlView};
use crate::visited::VisitedSet;
use crate::weburl::{urls_view, Url, UrlView};
use vstd::prelude::*;
use vstd::string::*;

verus! {

/// The canonical keys of a list of URLs.
pub open spec fn keys_of(urls: Seq<UrlView>) -> Seq<PartialUrlView> {
    urls.map_values(|url: UrlView| canonical_key(url))
}

/// What admitting a list of candidates comes to.
pub struct Admission {
    /// The keys admitted so far, those of this admission among them.
    pub visited: Set<PartialUrlView>,
    /// The candidates that were admitted, in their order.
    pub admitted: Seq<UrlView>,
}

/// Admits candidates one after the other. A candidate is admitted when the
/// policy lets it be crawled and its key is not among the keys admitted so
/// far, those of earlier candidates of the same list included; its key is
/// then one of them.
pub open spec fn admission(
    config: ConfigView,
    visited: Set<PartialUrlView>,
    candidates: Seq<UrlView>,
) -> Admission
    decreases candidates.len(),
{
    if candidates.len() == 0 {
        Admission { visited, admitted: Seq::empty() }
    } else {
        let before = admission(config, visited, candidates.drop_last());
        let candidate = candidates.last();
        if config.eligible(candidate) && !before.visited.contains(canonical_key(candidate)) {
            Admission {
                visited: before.visited.insert(canonical_key(candidate)),
                admitted: before.admitted.push(candidate),
            }
        } else {
            before
        }
    }
}

/// A crawl as the frontier sees it: level after level of candidates, each
/// admitted against the keys that the levels before it left.
pub open spec fn admissions(
    config: ConfigView,
    visited: Set<PartialUrlView>,
    levels: Seq<Seq<UrlView>>,
) -> Admission
    decreases levels.len(),
{
    if levels.len() == 0 {
        Admission { visited, admitted: Seq::empty() }
    } else {
        let before = admissions(config, visited, levels.drop_last());
        let level = admission(config, before.visited, levels.last());
        Admission { visited: level.visited, admitted: before.admitted + level.admitted }
    }
}

/// The pages in `admitted` are new to `visited` and differ from one another
/// by their keys, and `after` is `visited` with their keys added.
pub open spec fn admitted_once(
    visited: Set<PartialUrlView>,
    admitted: Seq<UrlView>,
    after: Set<PartialUrlView>,
) -> bool {
    &&& after == visited.union(keys_of(admitted).to_set())
    &&& keys_of(admitted).no_duplicates()
    &&& forall|i: int| 0 <= i < admitted.len() ==> !visited.contains(#[trigger] keys_of(admitted)[i])
}

/// An admission never admits a key that was visited before, nor one key
/// twice, and the visited keys afterwards are those from before and those of
/// the pages admitted. All that it admits may be crawled and comes from the
/// candidates, and every candidate that may be crawled has its key among the
/// visited keys afterwards.
pub proof fn lemma_admission(
    config: ConfigView,
    visited: Set<PartialUrlView>,
    candidates: Seq<UrlView>,
)
    ensures
        ({
            let level = admission(config, visited, candidates);
            &&& admitted_once(visited, level.admitted, level.visited)
            &&& forall|i: int|
                0 <= i < level.admitted.len() ==> config.eligible(#[trigger] level.admitted[i])
                    && candidates.contains(level.admitted[i])
            &&& forall|i: int|
                0 <= i < candidates.len() && config.eligible(#[trigger] candidates[i])
                    ==> level.visited.contains(canonical_key(candidates[i]))
        }),
    decreases candidates.len(),
{
    let level = admission(config, visited, candidates);
    if candidates.len() == 0 {
        assert(level.visited =~= visited.union(keys_of(level.admitted).to_set()));
    } else {
        let shorter = candidates.drop_last();
        let before = admission(config, visited, shorter);
        lemma_admission(config, visited, shorter);
        let candidate = candidates.last();
        let key = canonical_key(candidate);
        assert(forall|i: int| 0 <= i < shorter.len() ==> shorter[i] == candidates[i]);
        if config.eligible(candidate) && !before.visited.contains(key) {
            let keys = keys_of(before.admitted);
            assert(keys_of(level.admitted) =~= keys.push(key));
            keys.lemma_push_to_set_commute(key);
            assert(level.visited =~= visited.union(keys_of(level.admitted).to_set()));
        }
    }
}

/// Adding the keys of two lists of pages, one list after the other, adds
/// the keys of the two lists joined.
proof fn lemma_keys_of_joined(first: Seq<UrlView>, second: Seq<UrlView>)
    ensures
        keys_of(first + second) == keys_of(first) + keys_of(second),
        keys_of(first + second).to_set() == keys_of(first).to_set().union(
            keys_of(second).to_set(),
        ),
{
    let joined = keys_of(first) + keys_of(second);
    assert(keys_of(first + second) =~= joined);
    assert forall|k: PartialUrlView| joined.to_set().contains(k) <==> keys_of(
        first,
    ).to_set().union(keys_of(second).to_set()).contains(k) by {
        if joined.contains(k) {
            let i = choose|i: int| 0 <= i < joined.len() && joined[i] == k;
            if i < first.len() {
                assert(keys_of(first)[i] == k);
            } else {
                assert(keys_of(second)[i - first.len()] == k);
            }
        }
        if keys_of(first).contains(k) {
            let i = choose|i: int| 0 <= i < first.len() && keys_of(first)[i] == k;
            assert(joined[i] == k);
        }
        if keys_of(second).contains(k) {
            let i = choose|i: int| 0 <= i < second.len() && keys_of(second)[i] == k;
            assert(joined[first.len() + i] == k);
        }
    }
}

/// No page is fetched twice. Whatever the levels of a crawl hold, the pages
/// admitted in the course of it have keys that differ from one another and
/// from every key visited before, and the visited keys at the end are those
/// from before and those of the pages admitted.
pub proof fn lemma_no_page_twice(
    config: ConfigView,
    visited: Set<PartialUrlView>,
    levels: Seq<Seq<UrlView>>,
)
    ensures
        ({
            let run = admissions(config, visited, levels);
            admitted_once(visited, run.admitted, run.visited)
        }),
    decreases levels.len(),
{
    let run = admissions(config, visited, levels);
    if levels.len() == 0 {
        assert(run.visited =~= visited.union(keys_of(run.admitted).to_set()));
    } else {
        let before = admissions(config, visited, levels.drop_last());
        lemma_no_page_twice(config, visited, levels.drop_last());
        let level = admission(config, before.visited, levels.last());
        lemma_admission(config, before.visited, levels.last());
        lemma_keys_of_joined(before.admitted, level.admitted);
        assert(run.visited =~= visited.union(keys_of(run.admitted).to_set()));
    }
}

/// A crawl visits one key more with each page that it admits.
pub proof fn lemma_visited_grows_with_each_page(
    config: ConfigView,
    visited: Set<PartialUrlView>,
    levels: Seq<Seq<UrlView>>,
)
    requires
        visited.finite(),
    ensures
        ({
            let run = admissions(config, visited, levels);
            &&& run.visited.finite()
            &&& visited.subset_of(run.visited)
            &&& run.visited.len() == visited.len() + run.admitted.len()
        }),
{
    let run = admissions(config, visited, levels);
    lemma_no_page_twice(config, visited, levels);
    let keys = keys_of(run.admitted);
    keys.unique_seq_to_set();
    vstd::set_lib::lemma_set_disjoint_lens(visited, keys.to_set());
}

/// One of the levels holds `url`.
pub open spec fn is_candidate(levels: Seq<Seq<UrlView>>, url: UrlView) -> bool {
    exists|l: int| 0 <= l < levels.len() && (#[trigger] levels[l]).contains(url)
}

/// Every page that a crawl admits may be crawled and was a candidate of one
/// of its levels.
pub proof fn lemma_admitted_were_candidates(
    config: ConfigView,
    visited: Set<PartialUrlView>,
    levels: Seq<Seq<UrlView>>,
)
    ensures
        ({
            let run = admissions(config, visited, levels);
            forall|i: int|
                0 <= i < run.admitted.len() ==> config.eligible(#[trigger] run.admitted[i])
                    && is_candidate(levels, run.admitted[i])
        }),
    decreases levels.len(),
{
    if levels.len() > 0 {
        let earlier = levels.drop_last();
        lemma_admitted_were_candidates(config, visited, earlier);
        lemma_admission(config, admissions(config, visited, earlier).visited, levels.last());
    }
}

/// A crawl comes to an end: where the keys of all candidates lie in a finite
/// set, no more pages are admitted than that set has keys.
pub proof fn lemma_crawl_is_bounded(
    config: ConfigView,
    visited: Set<PartialUrlView>,
    levels: Seq<Seq<UrlView>>,
    universe: Set<PartialUrlView>,
)
    requires
        universe.finite(),
        forall|url: UrlView| is_candidate(levels, url) ==> universe.contains(canonical_key(url)),
    ensures
        admissions(config, visited, levels).admitted.len() <= universe.len(),
{
    let run = admissions(config, visited, levels);
    lemma_no_page_twice(config, visited, levels);
    lemma_admitted_were_candidates(config, visited, levels);
    let keys = keys_of(run.admitted);
    keys.unique_seq_to_set();
    vstd::set_lib::lemma_len_subset(keys.to_set(), universe);
}

/// Admits the candidates of a level: returns those that may be crawled and
/// were not admitted before, and adds their keys to `visited`.
pub fn admit_candidates(candidates: &Vec<Url>, config: &Config, visited: &mut VisitedSet) -> (batch:
    Vec<Url>)
    requires
        old(visited).wf(),
    ensures
        final(visited).wf(),
        urls_view(batch@) == admission(config@, old(visited)@, urls_view(candidates@)).admitted,
        final(visited)@ == admission(config@, old(visited)@, urls_view(candidates@)).visited,
{
    let ghost all = urls_view(candidates@);
    let ghost start = visited@;
    let mut batch: Vec<Url> = Vec::new();
    let mut i: usize = 0;
    while i < candidates.len()
        invariant
            i <= candidates.len(),
            all == urls_view(candidates@),
            visited.wf(),
            urls_view(batch@) == admission(config@, start, all.take(i as int)).admitted,
            visited@ == admission(config@, start, all.take(i as int)).visited,
        decreases candidates.len() - i,
    {
        proof {
            assert(all.take(i + 1).drop_last() =~= all.take(i as int));
        }
        let candidate = &candidates[i];
        if config.valid_domain(candidate) && visited.insert(PartialUrl::new(candidate)) {
            batch.push(candidate.clone());
        }
        i += 1;
    }
    assert(all.take(i as int) =~= all);
    batch
}

/// The pages that were hits and the pages that were not, each list in the
/// order in which the outcomes came in.
#[derive(Debug)]
pub struct Crawler {
    pub hits: Vec<Url>,
    pub misses: Vec<Url>,
}

/// The pages among `results` that are hits, or that are not, as `wanted`
/// says, in their order.
pub open spec fn pages_with(results: Seq<SingleCrawlView>, wanted: bool) -> Seq<UrlView>
    decreases results.len(),
{
    if results.len() == 0 {
        Seq::empty()
    } else {
        let before = pages_with(results.drop_last(), wanted);
        if results.last().is_hit == wanted {
            before.push(results.last().domain)
        } else {
            before
        }
    }
}

/// The links of all `results`, one page after the other.
pub open spec fn links_of(results: Seq<SingleCrawlView>) -> Seq<UrlView>
    decreases results.len(),
{
    if results.len() == 0 {
        Seq::empty()
    } else {
        links_of(results.drop_last()) + results.last().unexhausted_domains
    }
}

/// The text of a list of pages: for each page a line feed and the text of its
/// URL.
pub open spec fn lines_of(urls: Seq<UrlView>) -> Seq<char>
    decreases urls.len(),
{
    if urls.len() == 0 {
        Seq::empty()
    } else {
        lines_of(urls.drop_last()) + seq!['\n'] + urls.last().href
    }
}

/// The views of a list of outcomes.
pub open spec fn crawls_view(results: Seq<SingleCrawl>) -> Seq<SingleCrawlView> {
    results.map_values(|crawl: SingleCrawl| crawl@)
}

impl Crawler {
    /// No hits and no misses.
    pub fn new() -> (crawler: Crawler)
        ensures
            crawler.hits@.len() == 0,
            crawler.misses@.len() == 0,
    {
        Crawler { hits: Vec::new(), misses: Vec::new() }
    }

    /// The hits as text: for each hit, in order, a line feed and the text of
    /// its URL.
    pub fn hit_lines(&self) -> (text: String)
        ensures
            text@ == lines_of(urls_view(self.hits@)),
    {
        let ghost all = urls_view(self.hits@);
        let mut text = String::new();
        proof {
            reveal_strlit("\n");
        }
        let mut i: usize = 0;
        while i < self.hits.len()
            invariant
                i <= self.hits.len(),
                all == urls_view(self.hits@),
                "\n"@ == seq!['\n'],
                text@ == lines_of(all.take(i as int)),
            decreases self.hits.len() - i,
        {
            proof {
                assert(all.take(i + 1).drop_last() =~= all.take(i as int));
            }
            text.append("\n");
            text.append(self.hits[i].as_str());
            i += 1;
        }
        assert(all.take(i as int) =~= all);
        text
    }

    /// Adds the page of `crawl` to the hits if it is one, to the misses if it
    /// is none.
    pub fn accumulate(&mut self, crawl: &SingleCrawl)
        ensures
            urls_view(final(self).hits@) == if crawl.is_hit {
                urls_view(old(self).hits@).push(crawl.domain@)
            } else {
                urls_view(old(self).hits@)
            },
            urls_view(final(self).misses@) == if crawl.is_hit {
                urls_view(old(self).misses@)
            } else {
                urls_view(old(self).misses@).push(crawl.domain@)
            },
    {
        if crawl.is_hit {
            self.hits.push(crawl.domain.clone());
        } else {
            self.misses.push(crawl.domain.clone());
        }
    }
}

/// The links of all `results`, one page after the other: the candidates for
/// the next level.
pub fn next_candidates(results: &Vec<SingleCrawl>) -> (candidates: Vec<Url>)
    ensures
        urls_view(candidates@) == links_of(crawls_view(results@)),
{
    let ghost all = crawls_view(results@);
    let mut candidates: Vec<Url> = Vec::new();
    let mut i: usize = 0;
    while i < results.len()
        invariant
            i <= results.len(),
            all == crawls_view(results@),
            urls_view(candidates@) == links_of(all.take(i as int)),
        decreases results.len() - i,
    {
        proof {
            assert(all.take(i + 1).drop_last() =~= all.take(i as int));
        }
        let ghost before = urls_view(candidates@);
        let links = &results[i].unexhausted_domains;
        let mut j: usize = 0;
        while j < links.len()
            invariant
                j <= links.len(),
                urls_view(candidates@) == before + urls_view(links@).take(j as int),
            decreases links.len() - j,
        {
            let ghost sofar = urls_view(candidates@);
            candidates.push(links[j].clone());
            assert(urls_view(candidates@) =~= sofar.push(links@[j as int]@));
            j += 1;
        }
        i += 1;
    }
    assert(all.take(i as int) =~= all);
    candidates
}

/// The state of a crawl between two levels.
pub struct Frontier {
    /// The keys of the pages admitted so far.
    pub visited: VisitedSet,
    /// The hits and the misses so far.
    pub crawler: Crawler,
}

impl Frontier {
    /// The state is well formed: no key is held twice.
    pub open spec fn wf(&self) -> bool {
        self.visited.wf()
    }

    /// Begins a crawl at `seeds`: returns the state and the first level, the
    /// seeds that are admitted. An empty level ends the crawl.
    pub fn start(seeds: &Vec<Url>, config: &Config) -> (begun: (Frontier, Vec<Url>))
        ensures
            urls_view(begun.1@) == admission(config@, Set::empty(), urls_view(seeds@)).admitted,
            begun.0.visited@ == admission(config@, Set::empty(), urls_view(seeds@)).visited,
            begun.0.wf(),
            begun.0.crawler.hits@.len() == 0,
            begun.0.crawler.misses@.len() == 0,
    {
        let mut visited = VisitedSet::new();
        let batch = admit_candidates(seeds, config, &mut visited);
        (Frontier { visited, crawler: Crawler::new() }, batch)
    }

    /// Ends a level: takes the outcomes of its pages, adds each page to the
    /// hits or to the misses, and returns the next level, the links of those
    /// pages that are admitted. An empty level ends the crawl.
    pub fn advance(&mut self, results: &Vec<SingleCrawl>, config: &Config) -> (batch: Vec<Url>)
        requires
            old(self).wf(),
        ensures
            urls_view(final(self).crawler.hits@) == urls_view(old(self).crawler.hits@) + pages_with(
                crawls_view(results@),
                true,
            ),
            urls_view(final(self).crawler.misses@) == urls_view(old(self).crawler.misses@)
                + pages_with(crawls_view(results@), false),
            urls_view(batch@) == admission(
                config@,
                old(self).visited@,
                links_of(crawls_view(results@)),
            ).admitted,
            final(self).visited@ == admission(
                config@,
                old(self).visited@,
                links_of(crawls_view(results@)),
            ).visited,
            final(self).wf(),
    {
        let ghost all = crawls_view(results@);
        let ghost hits = urls_view(self.crawler.hits@);
        let ghost misses = urls_view(self.crawler.misses@);
        let mut i: usize = 0;
        while i < results.len()
            invariant
                i <= results.len(),
                all == crawls_view(results@),
                self.visited == old(self).visited,
                urls_view(self.crawler.hits@) =~= hits + pages_with(all.take(i as int), true),
                urls_view(self.crawler.misses@) =~= misses + pages_with(all.take(i as int), false),
            decreases results.len() - i,
        {
            proof {
                assert(all.take(i + 1).drop_last() =~= all.take(i as int));
            }
            self.crawler.accumulate(&results[i]);
            i += 1;
        }
        assert(all.take(i as int) =~= all);
        let candidates = next_candidates(results);
        admit_candidates(&candidates, config, &mut self.visited)
    }
}

} // verus!
