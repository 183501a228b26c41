use vstd::prelude::*;

use crate::dates::MonthKey;
use crate::errors::PipelineError;
use crate::filename::dated_name_month_key;
use crate::filename::parse_dated_name;
use crate::htmlq::extract_resource_hrefs;
use crate::htmlq::resource_hrefs;

verus! {

/// The month an index reference is selected for: the month its name resolves
/// to, where that month falls inside the closed interval [start, end];
/// references that do not parse, or fall outside, select nothing.
pub open spec fn selected_month(href: Seq<char>, start: MonthKey, end: MonthKey) -> Option<
    MonthKey,
> {
    match dated_name_month_key(href) {
        Some(m) => if m.in_interval(start, end) {
            Some(m)
        } else {
            None
        },
        None => None,
    }
}

/// The position of the last reference in `hrefs` selected for month `m`
/// under the interval [start, end]; -1 where no reference is.
pub open spec fn last_pick(
    hrefs: Seq<Seq<char>>,
    start: MonthKey,
    end: MonthKey,
    m: MonthKey,
) -> int
    decreases hrefs.len(),
{
    if hrefs.len() == 0 {
        -1
    } else if selected_month(hrefs.last(), start, end) == Some(m) {
        hrefs.len() - 1
    } else {
        last_pick(hrefs.drop_last(), start, end, m)
    }
}

/// One run's resolved mapping from month to the remote source reference the
/// index page names for it: at most one entry per month, held in increasing
/// month order. Built fresh from the live index page, never persisted.
pub struct LinkCatalog {
    pub entries: Vec<(MonthKey, String)>,
}

impl LinkCatalog {
    /// The catalog holds an entry for this month.
    pub open spec fn contains_month(self, m: MonthKey) -> bool {
        exists|i: int| 0 <= i < self.entries@.len() && self.entries@[i].0 == m
    }

    /// The position of this month's entry.
    pub open spec fn index_of(self, m: MonthKey) -> int {
        choose|i: int| 0 <= i < self.entries@.len() && self.entries@[i].0 == m
    }

    /// The reference this month is mapped to.
    pub open spec fn href_of(self, m: MonthKey) -> Seq<char> {
        self.entries@[self.index_of(m)].1@
    }

    /// Entries are well-formed months in strictly increasing order, so each
    /// month appears at most once.
    pub open spec fn wf(self) -> bool {
        &&& forall|i: int, j: int|
            0 <= i < j < self.entries@.len() ==> #[trigger] self.entries@[i].0.lt_spec(
                self.entries@[j].0,
            )
        &&& forall|i: int| 0 <= i < self.entries@.len() ==> (#[trigger] self.entries@[i].0).wf()
    }

    /// Months are pairwise distinct, and `index_of` names the one position an
    /// entry for a contained month has.
    pub proof fn lemma_index_unique(self, m: MonthKey)
        requires
            self.wf(),
            self.contains_month(m),
        ensures
            0 <= self.index_of(m) < self.entries@.len(),
            self.entries@[self.index_of(m)].0 == m,
            forall|i: int|
                0 <= i < self.entries@.len() && self.entries@[i].0 == m ==> i == self.index_of(m),
    {
        let at = self.index_of(m);
        assert(0 <= at < self.entries@.len() && self.entries@[at].0 == m);
        assert forall|i: int|
            0 <= i < self.entries@.len() && self.entries@[i].0 == m implies i == at by {
            if i < at {
                assert(self.entries@[i].0.lt_spec(self.entries@[at].0));
            } else if at < i {
                assert(self.entries@[at].0.lt_spec(self.entries@[i].0));
            }
        }
    }

    pub fn new() -> (r: LinkCatalog)
        ensures
            r.wf(),
            r.entries@.len() == 0,
            forall|m: MonthKey| !r.contains_month(m),
    {
        LinkCatalog { entries: Vec::new() }
    }

    /// How many months the catalog holds.
    pub fn len(&self) -> (r: usize)
        ensures
            r == self.entries@.len(),
    {
        self.entries.len()
    }

    /// An empty catalog is a valid, informational outcome: the caller halts
    /// the run without error and without output.
    pub fn is_empty(&self) -> (r: bool)
        ensures
            r == (self.entries@.len() == 0),
            r ==> forall|m: MonthKey| !self.contains_month(m),
    {
        self.entries.len() == 0
    }

    /// The month at one position, in increasing month order.
    pub fn month_at(&self, i: usize) -> (r: MonthKey)
        requires
            i < self.entries@.len(),
        ensures
            r == self.entries@[i as int].0,
    {
        self.entries[i].0
    }

    /// The reference at one position, in increasing month order.
    pub fn href_at(&self, i: usize) -> (r: &String)
        requires
            i < self.entries@.len(),
        ensures
            r@ == self.entries@[i as int].1@,
    {
        &self.entries[i].1
    }

    /// The references of all entries, in increasing month order: the order
    /// the merged table concatenates the sources in.
    pub fn hrefs_in_month_order(&self) -> (r: Vec<String>)
        ensures
            r@.len() == self.entries@.len(),
            forall|i: int| 0 <= i < r@.len() ==> #[trigger] r@[i]@ == self.entries@[i].1@,
    {
        let mut out: Vec<String> = Vec::new();
        let mut i: usize = 0;
        while i < self.entries.len()
            invariant
                i <= self.entries@.len(),
                out@.len() == i,
                forall|k: int| 0 <= k < i ==> #[trigger] out@[k]@ == self.entries@[k].1@,
            decreases self.entries@.len() - i,
        {
            out.push(self.entries[i].1.clone());
            i += 1;
        }
        out
    }

    /// Replaces this month's entry, or adds one at the position that keeps
    /// the entries in increasing month order: last write wins.
    fn insert(&mut self, m: MonthKey, href: String)
        requires
            old(self).wf(),
            m.wf(),
        ensures
            final(self).wf(),
            final(self).contains_month(m),
            final(self).href_of(m) == href@,
            forall|x: MonthKey|
                x != m ==> (#[trigger] final(self).contains_month(x) <==> old(
                    self,
                ).contains_month(x)),
            forall|x: MonthKey|
                x != m && old(self).contains_month(x) ==> #[trigger] final(self).href_of(x) == old(
                    self,
                ).href_of(x),
    {
        let ghost pre = *self;
        let mut idx: usize = 0;
        while idx < self.entries.len() && self.entries[idx].0.lt(&m)
            invariant
                *self == pre,
                idx <= self.entries@.len(),
                forall|k: int| 0 <= k < idx ==> (#[trigger] self.entries@[k].0).lt_spec(m),
            decreases self.entries@.len() - idx,
        {
            idx += 1;
        }
        let replace = idx < self.entries.len() && {
            let e = self.entries[idx].0;
            e.year == m.year && e.month == m.month
        };
        if replace {
            let _ = self.entries.remove(idx);
            self.entries.insert(idx, (m, href));
            proof {
                pre.entries@.remove_ensures(idx as int);
                pre.entries@.remove(idx as int).insert_ensures(idx as int, (m, href));
                assert(self.entries@ =~= pre.entries@.update(idx as int, (m, href)));
                self.lemma_insert_post(pre, m, idx as int, true);
            }
        } else {
            self.entries.insert(idx, (m, href));
            proof {
                pre.entries@.insert_ensures(idx as int, (m, href));
                self.lemma_insert_post(pre, m, idx as int, false);
            }
        }
    }

    /// What replacing or inserting at the found position does to the catalog:
    /// order is kept, the month maps to the new reference, and every other
    /// month keeps its entry.
    proof fn lemma_insert_post(self, pre: LinkCatalog, m: MonthKey, idx: int, replaced: bool)
        requires
            pre.wf(),
            m.wf(),
            0 <= idx <= pre.entries@.len(),
            forall|k: int| 0 <= k < idx ==> (#[trigger] pre.entries@[k].0).lt_spec(m),
            replaced ==> idx < pre.entries@.len() && pre.entries@[idx].0 == m
                && self.entries@ == pre.entries@.update(idx, self.entries@[idx]),
            !replaced ==> (idx == pre.entries@.len() || !pre.entries@[idx].0.lt_spec(m)
                && pre.entries@[idx].0 != m) && self.entries@ == pre.entries@.insert(
                idx,
                self.entries@[idx],
            ),
            self.entries@[idx].0 == m,
        ensures
            self.wf(),
            self.contains_month(m),
            self.href_of(m) == self.entries@[idx].1@,
            forall|x: MonthKey|
                x != m ==> (#[trigger] self.contains_month(x) <==> pre.contains_month(x)),
            forall|x: MonthKey|
                x != m && pre.contains_month(x) ==> #[trigger] self.href_of(x) == pre.href_of(x),
    {
        let e = self.entries@[idx];
        if replaced {
            assert forall|i: int, j: int|
                0 <= i < j < self.entries@.len() implies #[trigger] self.entries@[i].0.lt_spec(
                self.entries@[j].0,
            ) by {
                assert(pre.entries@[i].0.lt_spec(pre.entries@[j].0));
                if i == idx {
                    assert(self.entries@[i].0 == pre.entries@[i].0);
                }
            }
            assert forall|i: int|
                0 <= i < self.entries@.len() implies (#[trigger] self.entries@[i].0).wf() by {
                if i != idx {
                    assert(self.entries@[i] == pre.entries@[i]);
                }
            }
        } else {
            pre.entries@.insert_ensures(idx, e);
            assert forall|i: int, j: int|
                0 <= i < j < self.entries@.len() implies #[trigger] self.entries@[i].0.lt_spec(
                self.entries@[j].0,
            ) by {
                if i < idx && j == idx {
                } else if i == idx && j > idx {
                    assert(self.entries@[j] == pre.entries@[j - 1]);
                    if idx < pre.entries@.len() {
                        if j - 1 == idx {
                            assert(!pre.entries@[idx].0.lt_spec(m) && pre.entries@[idx].0 != m);
                        } else {
                            assert(pre.entries@[idx].0.lt_spec(pre.entries@[j - 1].0));
                            assert(!pre.entries@[idx].0.lt_spec(m) && pre.entries@[idx].0 != m);
                        }
                    }
                } else if i < idx && j > idx {
                    assert(self.entries@[i] == pre.entries@[i]);
                    assert(self.entries@[j] == pre.entries@[j - 1]);
                    if i == j - 1 {
                    } else {
                        assert(pre.entries@[i].0.lt_spec(pre.entries@[j - 1].0));
                    }
                } else if i > idx && j > idx {
                    assert(self.entries@[i] == pre.entries@[i - 1]);
                    assert(self.entries@[j] == pre.entries@[j - 1]);
                    assert(pre.entries@[i - 1].0.lt_spec(pre.entries@[j - 1].0));
                } else if i < idx && j < idx {
                    assert(self.entries@[i] == pre.entries@[i]);
                    assert(self.entries@[j] == pre.entries@[j]);
                    assert(pre.entries@[i].0.lt_spec(pre.entries@[j].0));
                }
            }
            assert forall|i: int| 0 <= i < self.entries@.len() implies (#[trigger] self.entries@[i].0).wf() by {
                if i < idx {
                    assert(self.entries@[i] == pre.entries@[i]);
                } else if i > idx {
                    assert(self.entries@[i] == pre.entries@[i - 1]);
                }
            }
        }
        assert(self.wf());
        assert(self.contains_month(m));
        self.lemma_index_unique(m);
        assert(self.entries@[idx].0 == m);
        assert(self.index_of(m) == idx);
        assert forall|x: MonthKey| x != m implies (#[trigger] self.contains_month(x)
            <==> pre.contains_month(x)) by {
            if pre.contains_month(x) {
                let i = pre.index_of(x);
                assert(0 <= i < pre.entries@.len() && pre.entries@[i].0 == x);
                if replaced {
                    assert(self.entries@[i].0 == x);
                } else {
                    if i < idx {
                        assert(self.entries@[i].0 == x);
                    } else {
                        assert(self.entries@[i + 1].0 == x);
                    }
                }
                assert(self.contains_month(x));
            }
            if self.contains_month(x) {
                let i = self.index_of(x);
                assert(0 <= i < self.entries@.len() && self.entries@[i].0 == x);
                assert(i != idx);
                if replaced {
                    assert(pre.entries@[i].0 == x);
                } else {
                    if i < idx {
                        assert(pre.entries@[i].0 == x);
                    } else {
                        assert(pre.entries@[i - 1].0 == x);
                    }
                }
                assert(pre.contains_month(x));
            }
        }
        assert forall|x: MonthKey| x != m && pre.contains_month(x) implies #[trigger] self.href_of(
            x,
        ) == pre.href_of(x) by {
            pre.lemma_index_unique(x);
            self.lemma_index_unique(x);
            let i = pre.index_of(x);
            if replaced {
                assert(self.entries@[i].0 == x && self.entries@[i].1 == pre.entries@[i].1);
                assert(self.index_of(x) == i);
            } else {
                if i < idx {
                    assert(self.entries@[i] == pre.entries@[i]);
                    assert(self.index_of(x) == i);
                } else {
                    assert(self.entries@[i + 1] == pre.entries@[i]);
                    assert(self.index_of(x) == i + 1);
                }
            }
        }
    }
}

/// The catalog a reference list resolves to under an interval: it holds
/// exactly the months some reference is selected for, each mapped to the
/// last reference in list order that resolves to it.
pub open spec fn catalog_matches(
    c: LinkCatalog,
    hrefs: Seq<Seq<char>>,
    start: MonthKey,
    end: MonthKey,
) -> bool {
    &&& forall|m: MonthKey| #[trigger]
        c.contains_month(m) <==> last_pick(hrefs, start, end, m) >= 0
    &&& forall|m: MonthKey|
        c.contains_month(m) ==> #[trigger] c.href_of(m) == hrefs[last_pick(hrefs, start, end, m)]
}

/// Extending the reference list by one either re-targets the month that
/// reference is selected for, or changes nothing for a month.
proof fn lemma_last_pick_extend(
    hrefs: Seq<Seq<char>>,
    i: int,
    start: MonthKey,
    end: MonthKey,
    m: MonthKey,
)
    requires
        0 <= i < hrefs.len(),
    ensures
        last_pick(hrefs.take(i + 1), start, end, m) == if selected_month(hrefs[i], start, end)
            == Some(m) {
            i
        } else {
            last_pick(hrefs.take(i), start, end, m)
        },
{
    assert(hrefs.take(i + 1).drop_last() =~= hrefs.take(i));
    assert(hrefs.take(i + 1).last() == hrefs[i]);
}

/// The positions `last_pick` names are real positions.
proof fn lemma_last_pick_in_range(
    hrefs: Seq<Seq<char>>,
    start: MonthKey,
    end: MonthKey,
    m: MonthKey,
)
    ensures
        -1 <= last_pick(hrefs, start, end, m) < hrefs.len(),
        last_pick(hrefs, start, end, m) >= 0 ==> selected_month(
            hrefs[last_pick(hrefs, start, end, m)],
            start,
            end,
        ) == Some(m),
    decreases hrefs.len(),
{
    if hrefs.len() > 0 && selected_month(hrefs.last(), start, end) != Some(m) {
        lemma_last_pick_in_range(hrefs.drop_last(), start, end, m);
        assert(hrefs.drop_last() =~= hrefs.take(hrefs.len() - 1));
        assert(forall|k: int|
            0 <= k < hrefs.len() - 1 ==> hrefs.drop_last()[k] == hrefs[k]);
    }
}

/// A month has a pick exactly when some reference is selected for it.
proof fn lemma_last_pick_some_iff_selected(
    hrefs: Seq<Seq<char>>,
    s: MonthKey,
    e: MonthKey,
    m: MonthKey,
)
    ensures
        last_pick(hrefs, s, e, m) >= 0 <==> exists|i: int|
            0 <= i < hrefs.len() && selected_month(#[trigger] hrefs[i], s, e) == Some(m),
    decreases hrefs.len(),
{
    if hrefs.len() > 0 {
        if selected_month(hrefs.last(), s, e) == Some(m) {
            assert(selected_month(hrefs[hrefs.len() - 1], s, e) == Some(m));
        } else {
            lemma_last_pick_some_iff_selected(hrefs.drop_last(), s, e, m);
            assert forall|i: int|
                0 <= i < hrefs.len() && selected_month(#[trigger] hrefs[i], s, e) == Some(
                    m,
                ) implies last_pick(hrefs, s, e, m) >= 0 by {
                assert(i < hrefs.len() - 1);
                assert(hrefs.drop_last()[i] == hrefs[i]);
            }
            if last_pick(hrefs, s, e, m) >= 0 {
                let i = choose|i: int|
                    0 <= i < hrefs.drop_last().len() && selected_month(
                        #[trigger] hrefs.drop_last()[i],
                        s,
                        e,
                    ) == Some(m);
                assert(hrefs.drop_last()[i] == hrefs[i]);
            }
        }
    }
}

/// A reference after which no other is selected for its month is the pick.
proof fn lemma_last_pick_is_last(
    hrefs: Seq<Seq<char>>,
    s: MonthKey,
    e: MonthKey,
    m: MonthKey,
    j: int,
)
    requires
        0 <= j < hrefs.len(),
        selected_month(hrefs[j], s, e) == Some(m),
        forall|k: int|
            j < k < hrefs.len() ==> selected_month(#[trigger] hrefs[k], s, e) != Some(m),
    ensures
        last_pick(hrefs, s, e, m) == j,
    decreases hrefs.len(),
{
    if j == hrefs.len() - 1 {
        assert(hrefs.last() == hrefs[j]);
    } else {
        assert(selected_month(hrefs[hrefs.len() - 1], s, e) != Some(m));
        assert(hrefs.drop_last()[j] == hrefs[j]);
        assert forall|k: int|
            j < k < hrefs.drop_last().len() implies selected_month(
            #[trigger] hrefs.drop_last()[k],
            s,
            e,
        ) != Some(m) by {
            assert(hrefs.drop_last()[k] == hrefs[k]);
        }
        lemma_last_pick_is_last(hrefs.drop_last(), s, e, m, j);
    }
}

/// A catalog built for [s, e] holds a month exactly when the document names
/// some reference that resolves to it and the month lies inside the
/// interval, and then maps it to a reference taken from the document.
pub proof fn lemma_catalog_exactly_the_selected_months(
    c: LinkCatalog,
    hrefs: Seq<Seq<char>>,
    s: MonthKey,
    e: MonthKey,
    m: MonthKey,
)
    requires
        catalog_matches(c, hrefs, s, e),
    ensures
        c.contains_month(m) <==> exists|i: int|
            0 <= i < hrefs.len() && selected_month(#[trigger] hrefs[i], s, e) == Some(m),
        c.contains_month(m) ==> exists|i: int|
            0 <= i < hrefs.len() && selected_month(#[trigger] hrefs[i], s, e) == Some(m)
                && c.href_of(m) == hrefs[i],
{
    lemma_last_pick_some_iff_selected(hrefs, s, e, m);
    if c.contains_month(m) {
        lemma_last_pick_in_range(hrefs, s, e, m);
        let j = last_pick(hrefs, s, e, m);
        assert(selected_month(hrefs[j], s, e) == Some(m) && c.href_of(m) == hrefs[j]);
    }
}

/// Two references resolving to the same month leave one entry for it: the
/// one encountered later in document order.
pub proof fn lemma_duplicate_months_keep_the_last(
    c: LinkCatalog,
    hrefs: Seq<Seq<char>>,
    s: MonthKey,
    e: MonthKey,
    m: MonthKey,
    j: int,
)
    requires
        c.wf(),
        catalog_matches(c, hrefs, s, e),
        0 <= j < hrefs.len(),
        selected_month(hrefs[j], s, e) == Some(m),
        forall|k: int|
            j < k < hrefs.len() ==> selected_month(#[trigger] hrefs[k], s, e) != Some(m),
    ensures
        c.contains_month(m),
        c.href_of(m) == hrefs[j],
        forall|i1: int, i2: int|
            0 <= i1 < c.entries@.len() && 0 <= i2 < c.entries@.len() && c.entries@[i1].0 == m
                && c.entries@[i2].0 == m ==> i1 == i2,
{
    lemma_last_pick_is_last(hrefs, s, e, m, j);
    c.lemma_index_unique(m);
    assert forall|i1: int, i2: int|
        0 <= i1 < c.entries@.len() && 0 <= i2 < c.entries@.len() && c.entries@[i1].0 == m
            && c.entries@[i2].0 == m implies i1 == i2 by {
        assert(i1 == c.index_of(m));
        assert(i2 == c.index_of(m));
    }
}

/// A reference whose name resolves to a month inside [s, e] puts that month
/// in the catalog, mapped to the reference itself, regardless of the text
/// around the dated pattern — provided no later reference resolves to the
/// same month, in which case last-write-wins maps the month to that one.
pub proof fn lemma_dated_reference_yields_its_month(
    c: LinkCatalog,
    hrefs: Seq<Seq<char>>,
    s: MonthKey,
    e: MonthKey,
    m: MonthKey,
    j: int,
)
    requires
        c.wf(),
        catalog_matches(c, hrefs, s, e),
        0 <= j < hrefs.len(),
        dated_name_month_key(hrefs[j]) == Some(m),
        m.in_interval(s, e),
        forall|k: int|
            j < k < hrefs.len() ==> selected_month(#[trigger] hrefs[k], s, e) != Some(m),
    ensures
        c.contains_month(m),
        c.href_of(m) == hrefs[j],
{
    assert(selected_month(hrefs[j], s, e) == Some(m));
    lemma_duplicate_months_keep_the_last(c, hrefs, s, e, m, j);
}

/// A reference that is selected for no month leaves the catalog as it was.
proof fn lemma_catalog_step_skip(
    cat: LinkCatalog,
    hs: Seq<Seq<char>>,
    i: int,
    s: MonthKey,
    e: MonthKey,
)
    requires
        0 <= i < hs.len(),
        catalog_matches(cat, hs.take(i), s, e),
        selected_month(hs[i], s, e) is None,
    ensures
        catalog_matches(cat, hs.take(i + 1), s, e),
{
    assert forall|m: MonthKey| #[trigger]
        cat.contains_month(m) <==> last_pick(hs.take(i + 1), s, e, m) >= 0 by {
        lemma_last_pick_extend(hs, i, s, e, m);
    }
    assert forall|m: MonthKey| cat.contains_month(m) implies #[trigger] cat.href_of(m) == hs.take(
        i + 1,
    )[last_pick(hs.take(i + 1), s, e, m)] by {
        lemma_last_pick_extend(hs, i, s, e, m);
        lemma_last_pick_in_range(hs.take(i), s, e, m);
        assert(hs.take(i + 1)[last_pick(hs.take(i), s, e, m)] == hs.take(i)[last_pick(
            hs.take(i),
            s,
            e,
            m,
        )]);
    }
}

/// A reference selected for month `m` re-targets `m` to itself and leaves
/// every other month's entry as it was.
proof fn lemma_catalog_step_insert(
    pre: LinkCatalog,
    cat: LinkCatalog,
    hs: Seq<Seq<char>>,
    i: int,
    s: MonthKey,
    e: MonthKey,
    m: MonthKey,
)
    requires
        0 <= i < hs.len(),
        catalog_matches(pre, hs.take(i), s, e),
        selected_month(hs[i], s, e) == Some(m),
        cat.contains_month(m),
        cat.href_of(m) == hs[i],
        forall|x: MonthKey|
            x != m ==> (#[trigger] cat.contains_month(x) <==> pre.contains_month(x)),
        forall|x: MonthKey|
            x != m && pre.contains_month(x) ==> #[trigger] cat.href_of(x) == pre.href_of(x),
    ensures
        catalog_matches(cat, hs.take(i + 1), s, e),
{
    assert forall|x: MonthKey| #[trigger]
        cat.contains_month(x) <==> last_pick(hs.take(i + 1), s, e, x) >= 0 by {
        lemma_last_pick_extend(hs, i, s, e, x);
    }
    assert forall|x: MonthKey| cat.contains_month(x) implies #[trigger] cat.href_of(x) == hs.take(
        i + 1,
    )[last_pick(hs.take(i + 1), s, e, x)] by {
        lemma_last_pick_extend(hs, i, s, e, x);
        if x == m {
            assert(last_pick(hs.take(i + 1), s, e, x) == i);
            assert(hs.take(i + 1)[i] == hs[i]);
        } else {
            lemma_last_pick_in_range(hs.take(i), s, e, x);
            assert(hs.take(i + 1)[last_pick(hs.take(i), s, e, x)] == hs.take(i)[last_pick(
                hs.take(i),
                s,
                e,
                x,
            )]);
        }
    }
}

/// Builds the catalog for an interval from the references found on the index
/// page, in document order. A reference that does not parse, or whose month
/// falls outside [start, end], is skipped without error; when two references
/// resolve to the same month, the later one silently replaces the earlier.
pub fn build_catalog_from_hrefs(hrefs: &Vec<String>, start: &MonthKey, end: &MonthKey) -> (r:
    LinkCatalog)
    ensures
        r.wf(),
        catalog_matches(r, hrefs.deep_view(), *start, *end),
{
    let ghost hs = hrefs.deep_view();
    proof {
        assert(forall|k: int| 0 <= k < hs.len() ==> #[trigger] hs[k] == hrefs@[k]@);
    }
    let mut cat = LinkCatalog::new();
    proof {
        assert(hs.take(0) =~= Seq::<Seq<char>>::empty());
        assert forall|m: MonthKey| #[trigger]
            cat.contains_month(m) <==> last_pick(hs.take(0), *start, *end, m) >= 0 by {}
    }
    let mut i: usize = 0;
    while i < hrefs.len()
        invariant
            i <= hrefs@.len(),
            hs == hrefs.deep_view(),
            hs.len() == hrefs@.len(),
            forall|k: int| 0 <= k < hs.len() ==> #[trigger] hs[k] == hrefs@[k]@,
            cat.wf(),
            catalog_matches(cat, hs.take(i as int), *start, *end),
        decreases hrefs@.len() - i,
    {
        let href = &hrefs[i];
        let ghost pre = cat;
        match parse_dated_name(href.as_str()) {
            Ok(m) => {
                if m.within(start, end) {
                    cat.insert(m, href.clone());
                    proof {
                        assert(selected_month(hs[i as int], *start, *end) == Some(m));
                        lemma_catalog_step_insert(pre, cat, hs, i as int, *start, *end, m);
                    }
                } else {
                    proof {
                        assert(selected_month(hs[i as int], *start, *end) is None);
                        lemma_catalog_step_skip(cat, hs, i as int, *start, *end);
                    }
                }
            },
            Err(_) => {
                proof {
                    assert(selected_month(hs[i as int], *start, *end) is None);
                    lemma_catalog_step_skip(cat, hs, i as int, *start, *end);
                }
            },
        }
        i += 1;
    }
    proof {
        assert(hs.take(hrefs@.len() as int) =~= hs);
    }
    cat
}

/// Builds the catalog for an interval straight from the fetched index
/// document: the anchors the structural query finds feed the reference list.
/// It succeeds on every document; anchors that do not parse, or elements the
/// structural query does not match, are expected noise and are skipped
/// without making the result an error. A malformed structural query would be
/// its own reported kind, but the fixed query is valid, so that failure is
/// proved unreachable.
pub fn build_catalog(document: &str, start: &MonthKey, end: &MonthKey) -> (r: Result<
    LinkCatalog,
    PipelineError,
>)
    ensures
        r is Ok,
        r is Ok ==> r->Ok_0.wf() && catalog_matches(
            r->Ok_0,
            resource_hrefs(document@),
            *start,
            *end,
        ),
{
    match extract_resource_hrefs(document) {
        Ok(hrefs) => Ok(build_catalog_from_hrefs(&hrefs, start, end)),
        Err(e) => Err(e),
    }
}

} // verus!
