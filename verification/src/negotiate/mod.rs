//! Language Negotiation is a process in which locales from different
//! sources are filtered and sorted in an effort to produce the best
//! possible selection of them.
//!
//! For each requested locale, in order, six stages are tried in turn against
//! the available locales that no stage has taken yet:
//!
//! 1. an exact match of the requested locale;
//! 2. a match with each available locale read as a range, in which an absent
//!    field matches anything;
//! 3. the same with the requested locale maximized, if that changes it;
//! 4. a match of the maximized locale without its variants, both sides read
//!    as ranges;
//! 5. a match, with each available locale read as a range, of that locale
//!    without its region and maximized again, if that changes it;
//! 6. a match of that locale without its region, both sides read as ranges.
//!
//! A requested locale without a language goes through the first two stages
//! only. An available locale that a stage takes leaves the pool: no locale
//! is taken twice.

pub mod likely_subtags;

use vstd::multiset::Multiset;
use vstd::prelude::*;
use crate::locale::Locale;
use crate::locale::model::LocaleView;
use crate::negotiate::likely_subtags::{maximized, LocaleExpander, TransformResult};

verus! {

/// How many matches a negotiation collects, and when it stops.
#[derive(PartialEq, Eq, Debug, Clone, Copy, Structural)]
pub enum NegotiationStrategy {
    /// Every available locale that matches a requested locale at any stage
    /// is taken.
    Filtering,
    /// For each requested locale, the first stage that matches takes one
    /// available locale, and the later stages are skipped.
    Matching,
    /// The first match of the first requested locale that has one is taken,
    /// and the negotiation ends there.
    Lookup,
}

/// The identifiers of the locales `s`.
pub open spec fn views(s: Seq<Locale>) -> Seq<LocaleView> {
    Seq::new(s.len(), |i: int| s[i]@)
}

/// The identifiers of the locales that `s` refers to.
pub open spec fn ref_views(s: Seq<&Locale>) -> Seq<LocaleView> {
    Seq::new(s.len(), |i: int| s[i]@)
}

/// Where a negotiation stands: the locales taken so far, in the order in
/// which they were found, and the available locales that are left.
pub struct Progress {
    /// The locales taken so far.
    pub supported: Seq<LocaleView>,
    /// The available locales that no stage has taken.
    pub pool: Seq<LocaleView>,
    /// Whether a stage has stopped the work on the requested locale at
    /// hand.
    pub done: bool,
}

/// The first `upto` locales of `pool`, parted into those that match `req`
/// and those that do not, each part in the order of the pool.
pub open spec fn sift(
    pool: Seq<LocaleView>,
    req: LocaleView,
    range_available: bool,
    range_requested: bool,
    upto: int,
) -> (Seq<LocaleView>, Seq<LocaleView>)
    decreases upto,
{
    if upto <= 0 {
        (Seq::empty(), Seq::empty())
    } else {
        let (taken, left) = sift(pool, req, range_available, range_requested, upto - 1);
        if pool[upto - 1].fields_match(req, range_available, range_requested) {
            (taken.push(pool[upto - 1]), left)
        } else {
            (taken, left.push(pool[upto - 1]))
        }
    }
}

/// The first index at or after `from` at which `pool` holds a locale that
/// matches `req`; the length of `pool` where there is none.
pub open spec fn first_match(
    pool: Seq<LocaleView>,
    req: LocaleView,
    range_available: bool,
    range_requested: bool,
    from: int,
) -> int
    decreases pool.len() - from,
{
    if from < 0 || from >= pool.len() {
        pool.len() as int
    } else if pool[from].fields_match(req, range_available, range_requested) {
        from
    } else {
        first_match(pool, req, range_available, range_requested, from + 1)
    }
}

/// One stage of a negotiation for the requested locale `req`.
///
/// Under `Filtering` every locale of the pool that matches is taken, and
/// the work on `req` goes on. Under the other strategies the first that
/// matches is taken, and the work on `req` is done. A stage that comes
/// after the work is done changes nothing.
pub open spec fn stage(
    p: Progress,
    req: LocaleView,
    range_available: bool,
    range_requested: bool,
    strategy: NegotiationStrategy,
) -> Progress {
    if p.done {
        p
    } else if strategy == NegotiationStrategy::Filtering {
        let (taken, left) = sift(
            p.pool,
            req,
            range_available,
            range_requested,
            p.pool.len() as int,
        );
        Progress { supported: p.supported + taken, pool: left, done: false }
    } else {
        let i = first_match(p.pool, req, range_available, range_requested, 0);
        if i < p.pool.len() {
            Progress { supported: p.supported.push(p.pool[i]), pool: p.pool.remove(i), done: true }
        } else {
            p
        }
    }
}

/// The identifier `l` without its variants.
pub open spec fn without_variants(l: LocaleView) -> LocaleView {
    LocaleView { variants: Seq::empty(), ..l }
}

/// The identifier `l` without its region.
pub open spec fn without_region(l: LocaleView) -> LocaleView {
    LocaleView { region: None, ..l }
}

/// The six stages for one requested locale, from the progress `p`.
pub open spec fn negotiate_one(p: Progress, req: LocaleView, strategy: NegotiationStrategy) -> Progress {
    let start = Progress { done: false, ..p };
    let exact = stage(start, req, false, false, strategy);
    let ranged = stage(exact, req, true, false, strategy);
    if req.language is None {
        ranged
    } else {
        let m = maximized(req);
        let likely = if m != req {
            stage(ranged, m, true, false, strategy)
        } else {
            ranged
        };
        let r4 = without_variants(m);
        let plain = stage(likely, r4, true, true, strategy);
        let r5 = without_region(r4);
        let m5 = maximized(r5);
        let regional = if m5 != r5 {
            stage(plain, m5, true, false, strategy)
        } else {
            plain
        };
        let r6 = without_region(m5);
        stage(regional, r6, true, true, strategy)
    }
}

/// The locales that a negotiation takes for the requested locales from
/// `from` on, from the progress `p`. Under `Lookup` the negotiation ends
/// with the first requested locale for which a locale is taken.
pub open spec fn negotiate_from(
    p: Progress,
    requested: Seq<LocaleView>,
    from: int,
    strategy: NegotiationStrategy,
) -> Seq<LocaleView>
    decreases requested.len() - from,
{
    if from < 0 || from >= requested.len() {
        p.supported
    } else {
        let next = negotiate_one(p, requested[from], strategy);
        if next.done && strategy == NegotiationStrategy::Lookup {
            next.supported
        } else {
            negotiate_from(next, requested, from + 1, strategy)
        }
    }
}

/// The available locales that match the requested ones, in the order in
/// which the negotiation finds them.
pub open spec fn filtered(
    requested: Seq<LocaleView>,
    available: Seq<LocaleView>,
    strategy: NegotiationStrategy,
) -> Seq<LocaleView> {
    negotiate_from(
        Progress { supported: Seq::empty(), pool: available, done: false },
        requested,
        0,
        strategy,
    )
}

/// The outcome of a negotiation: the locales that `filtered` gives, and
/// behind them the default where one is given and it is owed. Under
/// `Lookup` it is owed where no locale matched; under the other strategies,
/// where it is not among the matches.
pub open spec fn negotiated(
    requested: Seq<LocaleView>,
    available: Seq<LocaleView>,
    default: Option<LocaleView>,
    strategy: NegotiationStrategy,
) -> Seq<LocaleView> {
    let supported = filtered(requested, available, strategy);
    match default {
        Some(d) => if strategy == NegotiationStrategy::Lookup {
            if supported.len() == 0 {
                supported.push(d)
            } else {
                supported
            }
        } else if !supported.contains(d) {
            supported.push(d)
        } else {
            supported
        },
        None => supported,
    }
}

/// The reference `l` refers to one of the locales `all`.
pub open spec fn refers_to(l: &Locale, all: Seq<Locale>) -> bool {
    exists|i: int| 0 <= i < all.len() && *l == #[trigger] all[i]
}

/// Every reference of `s` refers to one of the locales `all`.
pub open spec fn refs_from(s: Seq<&Locale>, all: Seq<Locale>) -> bool {
    forall|k: int| 0 <= k < s.len() ==> refers_to(#[trigger] s[k], all)
}

/// The identifiers of a list with one more reference are the identifiers of
/// the list with one more identifier.
proof fn lemma_ref_views_push(s: Seq<&Locale>, l: &Locale)
    ensures
        ref_views(s.push(l)) == ref_views(s).push(l@),
{
    assert(ref_views(s.push(l)) =~= ref_views(s).push(l@));
}

/// A list of references to locales of `all` with one more such reference
/// is one.
proof fn lemma_refs_push(s: Seq<&Locale>, l: &Locale, all: Seq<Locale>)
    requires
        refs_from(s, all),
        refers_to(l, all),
    ensures
        refs_from(s.push(l), all),
{
    assert forall|k: int| 0 <= k < s.push(l).len() implies refers_to(
        #[trigger] s.push(l)[k],
        all,
    ) by {
        if k < s.len() {
            assert(s.push(l)[k] == s[k]);
        }
    }
}

/// One stage of a negotiation: takes the locales of `pool` that match
/// `req` over to `supported`, all of them under `Filtering` and the first
/// under the other strategies. Says whether the work on `req` is done.
fn test_strategy<'a>(
    supported: &mut Vec<&'a Locale>,
    pool: &mut Vec<&'a Locale>,
    req: &Locale,
    range_available: bool,
    range_requested: bool,
    strategy: NegotiationStrategy,
    Ghost(all): Ghost<Seq<Locale>>,
) -> (done: bool)
    requires
        refs_from(old(supported)@, all),
        refs_from(old(pool)@, all),
    ensures
        refs_from(final(supported)@, all),
        refs_from(final(pool)@, all),
        ({
            let next = stage(
                Progress {
                    supported: ref_views(old(supported)@),
                    pool: ref_views(old(pool)@),
                    done: false,
                },
                req@,
                range_available,
                range_requested,
                strategy,
            );
            &&& ref_views(final(supported)@) == next.supported
            &&& ref_views(final(pool)@) == next.pool
            &&& done == next.done
        }),
{
    let ghost before = ref_views(pool@);
    let ghost had = ref_views(supported@);
    if strategy == NegotiationStrategy::Filtering {
        let mut left: Vec<&'a Locale> = Vec::new();
        let mut i: usize = 0;
        assert(ref_views(left@) =~= Seq::empty());
        assert(ref_views(supported@) =~= had + Seq::empty());
        while i < pool.len()
            invariant
                i <= pool.len(),
                before == ref_views(pool@),
                refs_from(pool@, all),
                refs_from(supported@, all),
                refs_from(left@, all),
                ref_views(supported@) == had + sift(
                    before,
                    req@,
                    range_available,
                    range_requested,
                    i as int,
                ).0,
                ref_views(left@) == sift(before, req@, range_available, range_requested, i as int).1,
            decreases pool.len() - i,
        {
            let locale: &'a Locale = pool[i];
            let ghost s0 = sift(before, req@, range_available, range_requested, i as int);
            assert(before[i as int] == locale@);
            assert(locale == pool@[i as int]);
            if locale.fields_match(req, range_available, range_requested) {
                proof {
                    lemma_ref_views_push(supported@, locale);
                    lemma_refs_push(supported@, locale, all);
                }
                supported.push(locale);
                assert(ref_views(supported@) =~= had + s0.0.push(locale@));
            } else {
                proof {
                    lemma_ref_views_push(left@, locale);
                    lemma_refs_push(left@, locale, all);
                }
                left.push(locale);
                assert(ref_views(left@) =~= s0.1.push(locale@));
            }
            i += 1;
        }
        *pool = left;
        false
    } else {
        let mut i: usize = 0;
        while i < pool.len()
            invariant
                i <= pool.len(),
                before == ref_views(pool@),
                had == ref_views(supported@),
                refs_from(pool@, all),
                refs_from(supported@, all),
                strategy != NegotiationStrategy::Filtering,
                *pool == *old(pool),
                *supported == *old(supported),
                first_match(before, req@, range_available, range_requested, 0) == first_match(
                    before,
                    req@,
                    range_available,
                    range_requested,
                    i as int,
                ),
            decreases pool.len() - i,
        {
            let locale: &'a Locale = pool[i];
            assert(before[i as int] == locale@);
            if locale.fields_match(req, range_available, range_requested) {
                let ghost whole = pool@;
                let taken = pool.remove(i);
                proof {
                    lemma_ref_views_push(supported@, taken);
                    assert(taken == whole[i as int]);
                    lemma_refs_push(supported@, taken, all);
                    assert forall|k: int| 0 <= k < pool@.len() implies refers_to(
                        #[trigger] pool@[k],
                        all,
                    ) by {
                        if k < i {
                            assert(pool@[k] == whole[k]);
                        } else {
                            assert(pool@[k] == whole[k + 1]);
                        }
                    }
                }
                supported.push(taken);
                assert(ref_views(supported@) =~= had.push(before[i as int]));
                assert(ref_views(pool@) =~= before.remove(i as int));
                return true;
            }
            i += 1;
        }
        false
    }
}

/// The six stages for the requested locale `req`. Says whether a stage has
/// stopped the work on `req`.
fn negotiate_for<'a>(
    supported: &mut Vec<&'a Locale>,
    pool: &mut Vec<&'a Locale>,
    req: &Locale,
    strategy: NegotiationStrategy,
    expander: &LocaleExpander,
    Ghost(all): Ghost<Seq<Locale>>,
) -> (done: bool)
    requires
        refs_from(old(supported)@, all),
        refs_from(old(pool)@, all),
    ensures
        refs_from(final(supported)@, all),
        refs_from(final(pool)@, all),
        ({
            let next = negotiate_one(
                Progress {
                    supported: ref_views(old(supported)@),
                    pool: ref_views(old(pool)@),
                    done: false,
                },
                req@,
                strategy,
            );
            &&& ref_views(final(supported)@) == next.supported
            &&& ref_views(final(pool)@) == next.pool
            &&& done == next.done
        }),
{
    // 1) Try to find a simple match for the request.
    if test_strategy(supported, pool, req, false, false, strategy, Ghost(all)) {
        return true;
    }
    // 2) Try to match against the available locales treated as ranges.
    if test_strategy(supported, pool, req, true, false, strategy, Ghost(all)) {
        return true;
    }
    // Likely subtags are not added to a request without a language.
    if req.language().is_none() {
        return false;
    }
    let mut req = req.duplicate();
    // 3) Try to match against a maximized version of the requested locale.
    if expander.maximize(&mut req) == TransformResult::Modified {
        if test_strategy(supported, pool, &req, true, false, strategy, Ghost(all)) {
            return true;
        }
    }
    // 4) Try to match against a variant as a range.
    req.clear_variants();
    if test_strategy(supported, pool, &req, true, true, strategy, Ghost(all)) {
        return true;
    }
    // 5) Try to match against the likely subtag without region.
    req.clear_region();
    if expander.maximize(&mut req) == TransformResult::Modified {
        if test_strategy(supported, pool, &req, true, false, strategy, Ghost(all)) {
            return true;
        }
    }
    // 6) Try to match against a region as a range.
    req.clear_region();
    test_strategy(supported, pool, &req, true, true, strategy, Ghost(all))
}

/// The available locales that match the requested ones, by reference and in
/// the order in which the negotiation finds them.
pub fn filter_matches<'a>(
    requested: &[Locale],
    available: &'a [Locale],
    strategy: NegotiationStrategy,
) -> (r: Vec<&'a Locale>)
    ensures
        ref_views(r@) == filtered(views(requested@), views(available@), strategy),
        refs_from(r@, available@),
{
    let expander = LocaleExpander::new();
    let mut supported: Vec<&'a Locale> = Vec::new();
    let mut pool: Vec<&'a Locale> = Vec::new();
    let mut k: usize = 0;
    while k < available.len()
        invariant
            k <= available.len(),
            pool.len() == k,
            forall|j: int| 0 <= j < k ==> *pool@[j] == available@[j],
        decreases available.len() - k,
    {
        pool.push(&available[k]);
        k += 1;
    }
    assert(ref_views(pool@) =~= views(available@));
    assert(ref_views(supported@) =~= Seq::empty());
    assert forall|k: int| 0 <= k < pool@.len() implies refers_to(
        #[trigger] pool@[k],
        available@,
    ) by {
        assert(*pool@[k] == available@[k]);
    }
    let mut i: usize = 0;
    while i < requested.len()
        invariant
            i <= requested.len(),
            refs_from(supported@, available@),
            refs_from(pool@, available@),
            filtered(views(requested@), views(available@), strategy) == negotiate_from(
                Progress {
                    supported: ref_views(supported@),
                    pool: ref_views(pool@),
                    done: false,
                },
                views(requested@),
                i as int,
                strategy,
            ),
        decreases requested.len() - i,
    {
        let ghost p = Progress {
            supported: ref_views(supported@),
            pool: ref_views(pool@),
            done: false,
        };
        assert(views(requested@)[i as int] == requested@[i as int]@);
        let done = negotiate_for(
            &mut supported,
            &mut pool,
            &requested[i],
            strategy,
            &expander,
            Ghost(available@),
        );
        proof {
            lemma_done_is_forgotten(
                negotiate_one(p, requested@[i as int]@, strategy),
                views(requested@),
                i + 1,
                strategy,
            );
        }
        if done && strategy == NegotiationStrategy::Lookup {
            return supported;
        }
        i += 1;
    }
    supported
}

/// What a negotiation takes from a progress on does not depend on whether
/// the work on an earlier requested locale was done.
proof fn lemma_done_is_forgotten(
    p: Progress,
    requested: Seq<LocaleView>,
    from: int,
    strategy: NegotiationStrategy,
)
    ensures
        negotiate_from(p, requested, from, strategy) == negotiate_from(
            Progress { done: false, ..p },
            requested,
            from,
            strategy,
        ),
{
}

/// Negotiates the locales to use: the available locales that match the
/// requested ones, by reference and in the order in which the six stages
/// find them, and behind them the default where it is owed.
///
/// Under `Lookup` the default is owed where nothing matched; under the
/// other strategies, where no match is the same identifier as the default.
pub fn negotiate_languages<'a>(
    requested: &[Locale],
    available: &'a [Locale],
    default: Option<&'a Locale>,
    strategy: NegotiationStrategy,
) -> (r: Vec<&'a Locale>)
    ensures
        ref_views(r@) == negotiated(
            views(requested@),
            views(available@),
            match default {
                Some(d) => Some(d@),
                None => None,
            },
            strategy,
        ),
        forall|k: int|
            0 <= k < r.len() ==> default == Some(#[trigger] r@[k]) || refers_to(r@[k], available@),
{
    let mut supported = filter_matches(requested, available, strategy);
    let ghost found = ref_views(supported@);
    if let Some(default) = default {
        if strategy == NegotiationStrategy::Lookup {
            if supported.is_empty() {
                supported.push(default);
                assert(ref_views(supported@) =~= found.push(default@));
            }
        } else if !contains_locale(&supported, default) {
            supported.push(default);
            assert(ref_views(supported@) =~= found.push(default@));
        }
    }
    supported
}

/// Whether `list` refers to a locale with the identifier of `locale`.
fn contains_locale(list: &Vec<&Locale>, locale: &Locale) -> (r: bool)
    ensures
        r == ref_views(list@).contains(locale@),
{
    let mut i: usize = 0;
    while i < list.len()
        invariant
            i <= list.len(),
            forall|j: int| 0 <= j < i ==> list@[j]@ != locale@,
        decreases list.len() - i,
    {
        if list[i].same_as(locale) {
            assert(ref_views(list@)[i as int] == locale@);
            return true;
        }
        i += 1;
    }
    assert forall|j: int| 0 <= j < ref_views(list@).len() implies ref_views(list@)[j]
        != locale@ by {
        assert(list@[j]@ != locale@);
    }
    false
}

/// Every locale of `s` is one of `all`.
pub open spec fn drawn_from(s: Seq<LocaleView>, all: Seq<LocaleView>) -> bool {
    forall|i: int| 0 <= i < s.len() ==> all.contains(#[trigger] s[i])
}

/// Sifting a pool parts it: what is taken and what is left are locales of
/// the pool.
proof fn lemma_sift_drawn(
    pool: Seq<LocaleView>,
    req: LocaleView,
    range_available: bool,
    range_requested: bool,
    upto: int,
)
    requires
        upto <= pool.len(),
    ensures
        drawn_from(sift(pool, req, range_available, range_requested, upto).0, pool),
        drawn_from(sift(pool, req, range_available, range_requested, upto).1, pool),
    decreases upto,
{
    if upto > 0 {
        lemma_sift_drawn(pool, req, range_available, range_requested, upto - 1);
        assert(pool.contains(pool[upto - 1]));
    }
}

/// Where `first_match` stops.
proof fn lemma_first_match(
    pool: Seq<LocaleView>,
    req: LocaleView,
    range_available: bool,
    range_requested: bool,
    from: int,
)
    requires
        0 <= from <= pool.len(),
    ensures
        from <= first_match(pool, req, range_available, range_requested, from) <= pool.len(),
    decreases pool.len() - from,
{
    if from < pool.len() && !pool[from].fields_match(req, range_available, range_requested) {
        lemma_first_match(pool, req, range_available, range_requested, from + 1);
    }
}

/// What a stage does to the progress: the locales taken and left are
/// locales of `all` if they were; and under a strategy other than
/// `Filtering`, a stage takes one locale where it ends the work on the
/// requested locale, and none where it does not.
proof fn lemma_stage(
    p: Progress,
    req: LocaleView,
    range_available: bool,
    range_requested: bool,
    strategy: NegotiationStrategy,
    all: Seq<LocaleView>,
)
    requires
        drawn_from(p.supported, all),
        drawn_from(p.pool, all),
    ensures
        ({
            let next = stage(p, req, range_available, range_requested, strategy);
            &&& drawn_from(next.supported, all)
            &&& drawn_from(next.pool, all)
            &&& p.done ==> next == p
            &&& strategy != NegotiationStrategy::Filtering ==> next.supported.len()
                == p.supported.len() + (if next.done && !p.done {
                1int
            } else {
                0int
            })
            &&& strategy == NegotiationStrategy::Filtering && !p.done ==> !next.done
        }),
{
    let next = stage(p, req, range_available, range_requested, strategy);
    if !p.done {
        if strategy == NegotiationStrategy::Filtering {
            let n = p.pool.len() as int;
            lemma_sift_drawn(p.pool, req, range_available, range_requested, n);
            let (taken, left) = sift(p.pool, req, range_available, range_requested, n);
            assert forall|i: int| 0 <= i < next.supported.len() implies all.contains(
                #[trigger] next.supported[i],
            ) by {
                if i >= p.supported.len() {
                    assert(p.pool.contains(taken[i - p.supported.len()]));
                }
            }
            assert forall|i: int| 0 <= i < next.pool.len() implies all.contains(
                #[trigger] next.pool[i],
            ) by {
                assert(p.pool.contains(left[i]));
            }
        } else {
            lemma_first_match(p.pool, req, range_available, range_requested, 0);
            let i = first_match(p.pool, req, range_available, range_requested, 0);
            if i < p.pool.len() {
                assert forall|j: int| 0 <= j < next.supported.len() implies all.contains(
                    #[trigger] next.supported[j],
                ) by {
                    if j == p.supported.len() {
                        assert(all.contains(p.pool[i]));
                    }
                }
                assert forall|j: int| 0 <= j < next.pool.len() implies all.contains(
                    #[trigger] next.pool[j],
                ) by {
                    if j < i {
                        assert(next.pool[j] == p.pool[j]);
                    } else {
                        assert(next.pool[j] == p.pool[j + 1]);
                    }
                }
            }
        }
    }
}

/// What the six stages for one requested locale do to the progress.
proof fn lemma_negotiate_one(
    p: Progress,
    req: LocaleView,
    strategy: NegotiationStrategy,
    all: Seq<LocaleView>,
)
    requires
        drawn_from(p.supported, all),
        drawn_from(p.pool, all),
    ensures
        ({
            let next = negotiate_one(p, req, strategy);
            &&& drawn_from(next.supported, all)
            &&& drawn_from(next.pool, all)
            &&& strategy != NegotiationStrategy::Filtering ==> next.supported.len()
                == p.supported.len() + (if next.done {
                1int
            } else {
                0int
            })
        }),
{
    let start = Progress { done: false, ..p };
    let exact = stage(start, req, false, false, strategy);
    lemma_stage(start, req, false, false, strategy, all);
    let ranged = stage(exact, req, true, false, strategy);
    lemma_stage(exact, req, true, false, strategy, all);
    if req.language is Some {
        let m = maximized(req);
        let likely = if m != req {
            stage(ranged, m, true, false, strategy)
        } else {
            ranged
        };
        lemma_stage(ranged, m, true, false, strategy, all);
        let r4 = without_variants(m);
        let plain = stage(likely, r4, true, true, strategy);
        lemma_stage(likely, r4, true, true, strategy, all);
        let r5 = without_region(r4);
        let m5 = maximized(r5);
        let regional = if m5 != r5 {
            stage(plain, m5, true, false, strategy)
        } else {
            plain
        };
        lemma_stage(plain, m5, true, false, strategy, all);
        let r6 = without_region(m5);
        lemma_stage(regional, r6, true, true, strategy, all);
    }
}

/// What a negotiation takes, from a progress on.
proof fn lemma_negotiate_from(
    p: Progress,
    requested: Seq<LocaleView>,
    from: int,
    strategy: NegotiationStrategy,
    all: Seq<LocaleView>,
)
    requires
        0 <= from,
        drawn_from(p.supported, all),
        drawn_from(p.pool, all),
    ensures
        drawn_from(negotiate_from(p, requested, from, strategy), all),
        strategy == NegotiationStrategy::Lookup && p.supported.len() == 0 ==> negotiate_from(
            p,
            requested,
            from,
            strategy,
        ).len() <= 1,
    decreases requested.len() - from,
{
    if from < requested.len() {
        let next = negotiate_one(p, requested[from], strategy);
        lemma_negotiate_one(p, requested[from], strategy, all);
        if !(next.done && strategy == NegotiationStrategy::Lookup) {
            lemma_negotiate_from(next, requested, from + 1, strategy, all);
        }
    }
}

/// Every locale that a negotiation gives is one of the available locales or
/// the default.
pub proof fn lemma_negotiated_from_available(
    requested: Seq<LocaleView>,
    available: Seq<LocaleView>,
    default: Option<LocaleView>,
    strategy: NegotiationStrategy,
)
    ensures
        drawn_from(filtered(requested, available, strategy), available),
        forall|i: int|
            0 <= i < negotiated(requested, available, default, strategy).len() ==> {
                let l = #[trigger] negotiated(requested, available, default, strategy)[i];
                available.contains(l) || default == Some(l)
            },
{
    let p = Progress { supported: Seq::empty(), pool: available, done: false };
    assert forall|i: int| 0 <= i < p.pool.len() implies available.contains(#[trigger] p.pool[i]) by {}
    lemma_negotiate_from(p, requested, 0, strategy, available);
}

/// Under `Lookup` a negotiation gives at most one locale: the first match
/// of the first requested locale that has one, or the default, if one is
/// given, where no requested locale has a match at any stage.
pub proof fn lemma_lookup_gives_one(
    requested: Seq<LocaleView>,
    available: Seq<LocaleView>,
    default: Option<LocaleView>,
)
    ensures
        filtered(requested, available, NegotiationStrategy::Lookup).len() <= 1,
        negotiated(requested, available, default, NegotiationStrategy::Lookup).len() <= 1,
        default matches Some(d) ==> (negotiated(
            requested,
            available,
            default,
            NegotiationStrategy::Lookup,
        ) == if filtered(requested, available, NegotiationStrategy::Lookup).len() == 0 {
            seq![d]
        } else {
            filtered(requested, available, NegotiationStrategy::Lookup)
        }),
{
    let p = Progress { supported: Seq::empty(), pool: available, done: false };
    assert forall|i: int| 0 <= i < p.pool.len() implies available.contains(#[trigger] p.pool[i]) by {}
    lemma_negotiate_from(p, requested, 0, NegotiationStrategy::Lookup, available);
    if let Some(d) = default {
        let f = filtered(requested, available, NegotiationStrategy::Lookup);
        if f.len() == 0 {
            assert(f.push(d) =~= seq![d]);
        }
    }
}

/// The locales taken and the locales left, as one collection.
pub open spec fn all_of(p: Progress) -> Multiset<LocaleView> {
    p.supported.to_multiset().add(p.pool.to_multiset())
}

/// No locales are an empty collection.
proof fn lemma_nothing()
    ensures
        Seq::<LocaleView>::empty().to_multiset() == Multiset::<LocaleView>::empty(),
{
    let m = Seq::<LocaleView>::empty().to_multiset();
    Seq::<LocaleView>::empty().to_multiset_ensures();
    vstd::multiset::lemma_multiset_empty_len(m);
    assert(m =~= Multiset::<LocaleView>::empty());
}

/// The number of the locales taken and left.
pub open spec fn count_of(p: Progress) -> nat {
    p.supported.len() + p.pool.len()
}

/// Sifting a pool parts it: what is taken and what is left are together
/// the locales that were sifted.
proof fn lemma_sift_parts(
    pool: Seq<LocaleView>,
    req: LocaleView,
    range_available: bool,
    range_requested: bool,
    upto: int,
)
    requires
        0 <= upto <= pool.len(),
    ensures
        ({
            let (taken, left) = sift(pool, req, range_available, range_requested, upto);
            &&& taken.to_multiset().add(left.to_multiset()) == pool.take(upto).to_multiset()
            &&& taken.len() + left.len() == upto
        }),
    decreases upto,
{
    broadcast use vstd::multiset::group_multiset_axioms;

    if upto == 0 {
        assert(pool.take(0) =~= Seq::<LocaleView>::empty());
        lemma_nothing();
        let (taken, left) = sift(pool, req, range_available, range_requested, upto);
        assert(taken.to_multiset().add(left.to_multiset()) =~= pool.take(upto).to_multiset());
    } else {
        lemma_sift_parts(pool, req, range_available, range_requested, upto - 1);
        let (taken0, left0) = sift(pool, req, range_available, range_requested, upto - 1);
        let (taken, left) = sift(pool, req, range_available, range_requested, upto);
        let x = pool[upto - 1];
        assert(pool.take(upto) =~= pool.take(upto - 1).push(x));
        vstd::seq_lib::to_multiset_build(pool.take(upto - 1), x);
        vstd::seq_lib::to_multiset_build(taken0, x);
        vstd::seq_lib::to_multiset_build(left0, x);
        assert(taken.to_multiset().add(left.to_multiset()) =~= pool.take(upto).to_multiset());
    }
}

/// A stage takes locales over from the pool: none is lost and none is
/// made.
proof fn lemma_stage_keeps_all(
    p: Progress,
    req: LocaleView,
    range_available: bool,
    range_requested: bool,
    strategy: NegotiationStrategy,
)
    ensures
        all_of(stage(p, req, range_available, range_requested, strategy)) == all_of(p),
        count_of(stage(p, req, range_available, range_requested, strategy)) == count_of(p),
{
    broadcast use vstd::multiset::group_multiset_axioms;

    let next = stage(p, req, range_available, range_requested, strategy);
    if !p.done {
        if strategy == NegotiationStrategy::Filtering {
            let n = p.pool.len() as int;
            lemma_sift_parts(p.pool, req, range_available, range_requested, n);
            let (taken, left) = sift(p.pool, req, range_available, range_requested, n);
            assert(p.pool.take(n) =~= p.pool);
            vstd::seq_lib::lemma_multiset_commutative(p.supported, taken);
            assert(all_of(next) =~= all_of(p));
        } else {
            lemma_first_match(p.pool, req, range_available, range_requested, 0);
            let i = first_match(p.pool, req, range_available, range_requested, 0);
            if i < p.pool.len() {
                vstd::seq_lib::to_multiset_build(p.supported, p.pool[i]);
                vstd::seq_lib::to_multiset_remove(p.pool, i);
                p.pool.to_multiset_ensures();
                assert(p.pool.contains(p.pool[i]));
                assert(all_of(next) =~= all_of(p));
            }
        }
    }
}

/// The six stages for one requested locale take locales over from the
/// pool: none is lost and none is made.
proof fn lemma_negotiate_one_keeps_all(p: Progress, req: LocaleView, strategy: NegotiationStrategy)
    ensures
        all_of(negotiate_one(p, req, strategy)) == all_of(p),
        count_of(negotiate_one(p, req, strategy)) == count_of(p),
{
    let start = Progress { done: false, ..p };
    let exact = stage(start, req, false, false, strategy);
    lemma_stage_keeps_all(start, req, false, false, strategy);
    let ranged = stage(exact, req, true, false, strategy);
    lemma_stage_keeps_all(exact, req, true, false, strategy);
    if req.language is Some {
        let m = maximized(req);
        let likely = if m != req {
            stage(ranged, m, true, false, strategy)
        } else {
            ranged
        };
        lemma_stage_keeps_all(ranged, m, true, false, strategy);
        let r4 = without_variants(m);
        let plain = stage(likely, r4, true, true, strategy);
        lemma_stage_keeps_all(likely, r4, true, true, strategy);
        let r5 = without_region(r4);
        let m5 = maximized(r5);
        let regional = if m5 != r5 {
            stage(plain, m5, true, false, strategy)
        } else {
            plain
        };
        lemma_stage_keeps_all(plain, m5, true, false, strategy);
        let r6 = without_region(m5);
        lemma_stage_keeps_all(regional, r6, true, true, strategy);
    }
}

/// What a negotiation takes from a progress on is part of the locales
/// taken and left so far.
proof fn lemma_negotiate_from_part(
    p: Progress,
    requested: Seq<LocaleView>,
    from: int,
    strategy: NegotiationStrategy,
)
    requires
        0 <= from,
    ensures
        negotiate_from(p, requested, from, strategy).to_multiset().subset_of(all_of(p)),
        negotiate_from(p, requested, from, strategy).len() <= count_of(p),
    decreases requested.len() - from,
{
    broadcast use vstd::multiset::group_multiset_axioms;

    if from < requested.len() {
        let next = negotiate_one(p, requested[from], strategy);
        lemma_negotiate_one_keeps_all(p, requested[from], strategy);
        if !(next.done && strategy == NegotiationStrategy::Lookup) {
            lemma_negotiate_from_part(next, requested, from + 1, strategy);
        }
    }
}

/// No available locale is taken twice: each identifier is among the
/// matches of a negotiation at most as often as it is among the available
/// locales.
pub proof fn lemma_filtered_part_of_available(
    requested: Seq<LocaleView>,
    available: Seq<LocaleView>,
    strategy: NegotiationStrategy,
)
    ensures
        filtered(requested, available, strategy).to_multiset().subset_of(available.to_multiset()),
        filtered(requested, available, strategy).len() <= available.len(),
{
    broadcast use vstd::multiset::group_multiset_axioms;

    let p = Progress { supported: Seq::empty(), pool: available, done: false };
    lemma_nothing();
    assert(all_of(p) =~= available.to_multiset());
    lemma_negotiate_from_part(p, requested, 0, strategy);
}

} // verus!
