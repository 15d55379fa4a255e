//! Query planning and result assembly: the whole-query and per-term
//! retrieval modes, the union of per-term search results deduplicated by
//! record id, the distance ordering of what is returned, and file-context
//! widening.
//!
//! A distance is carried as an order-preserving unsigned encoding chosen
//! by the caller at the border (for the non-negative distances a vector
//! search yields, the raw bit pattern is such an encoding); smaller means
//! closer, and results are returned closest first.

use vstd::prelude::*;

use crate::schema::VectorRecordView;
use crate::strutil::{join_with_space, spec_join_space};
use crate::table::VectorStore;

verus! {

broadcast use vstd::seq_lib::group_to_multiset_ensures, vstd::multiset::group_multiset_axioms;

/// One search hit: a stored row's identity and content with its distance
/// from the query.
#[derive(Debug, Clone)]
pub struct ScoredRow {
    pub id: i32,
    pub distance: u64,
    pub content: String,
    pub metadata: String,
    pub chunk_number: i32,
}

/// The mathematical image of a search hit.
pub struct ScoredRowView {
    pub id: int,
    pub distance: int,
    pub content: Seq<char>,
    pub metadata: Seq<char>,
    pub chunk_number: int,
}

impl View for ScoredRow {
    type V = ScoredRowView;

    open spec fn view(&self) -> ScoredRowView {
        ScoredRowView {
            id: self.id as int,
            distance: self.distance as int,
            content: self.content@,
            metadata: self.metadata@,
            chunk_number: self.chunk_number as int,
        }
    }
}

impl DeepView for ScoredRow {
    type V = ScoredRowView;

    open spec fn deep_view(&self) -> ScoredRowView {
        self.view()
    }
}

/// A field-for-field copy of one hit.
pub fn copy_row(src: &ScoredRow) -> (r: ScoredRow)
    ensures
        r@ == src@,
{
    ScoredRow {
        id: src.id,
        distance: src.distance,
        content: src.content.clone(),
        metadata: src.metadata.clone(),
        chunk_number: src.chunk_number,
    }
}

/// The texts to embed for a query: the terms joined into one text in
/// whole-query mode, the terms themselves otherwise.
pub open spec fn spec_query_inputs(terms: Seq<Seq<char>>, whole_query: bool) -> Seq<Seq<char>> {
    if whole_query {
        seq![spec_join_space(terms)]
    } else {
        terms
    }
}

/// In whole-query mode all terms are concatenated and embedded once, for
/// a single search; otherwise each term is embedded on its own, for one
/// search per term.
pub fn build_query_inputs(input: &Vec<String>, whole_query: bool) -> (r: Vec<String>)
    ensures
        r.deep_view() == spec_query_inputs(input.deep_view(), whole_query),
{
    if whole_query {
        let joined = join_with_space(input);
        let mut out: Vec<String> = Vec::new();
        out.push(joined);
        proof {
            assert(out.deep_view() =~= seq![spec_join_space(input.deep_view())]);
        }
        out
    } else {
        let mut out: Vec<String> = Vec::new();
        let mut i: usize = 0;
        while i < input.len()
            invariant
                i <= input@.len(),
                out.deep_view() =~= input.deep_view().take(i as int),
            decreases input@.len() - i,
        {
            let ghost prev = out.deep_view();
            out.push(input[i].clone());
            proof {
                assert(out.deep_view() =~= prev.push(input@[i as int]@));
                assert(out.deep_view() =~= input.deep_view().take(i + 1));
            }
            i += 1;
        }
        proof {
            assert(input.deep_view().take(input@.len() as int) =~= input.deep_view());
        }
        out
    }
}

/// Distances never decrease along the sequence: the closest hit first.
pub open spec fn sorted_by_distance(rows: Seq<ScoredRowView>) -> bool {
    forall|i: int, j: int|
        0 <= i < j < rows.len() ==> (#[trigger] rows[i]).distance <= (#[trigger] rows[j]).distance
}

/// No two hits carry the same record id.
pub open spec fn distinct_ids(rows: Seq<ScoredRowView>) -> bool {
    forall|i: int, j: int|
        0 <= i < j < rows.len() ==> (#[trigger] rows[i]).id != (#[trigger] rows[j]).id
}

/// The index of the first hit with this id, or -1.
pub open spec fn find_id(rows: Seq<ScoredRowView>, id: int) -> int
    decreases rows.len(),
{
    if rows.len() == 0 {
        -1
    } else if rows[0].id == id {
        0
    } else if find_id(rows.skip(1), id) == -1 {
        -1
    } else {
        find_id(rows.skip(1), id) + 1
    }
}

/// One deduplication step: a fresh id is appended; a seen id keeps
/// whichever hit is closer, the earlier one on a tie.
pub open spec fn dedup_step(acc: Seq<ScoredRowView>, r: ScoredRowView) -> Seq<ScoredRowView> {
    if find_id(acc, r.id) == -1 {
        acc.push(r)
    } else if r.distance < acc[find_id(acc, r.id)].distance {
        acc.update(find_id(acc, r.id), r)
    } else {
        acc
    }
}

/// The hits deduplicated by id, each id keeping its best distance.
pub open spec fn spec_dedup(acc: Seq<ScoredRowView>, rows: Seq<ScoredRowView>) -> Seq<
    ScoredRowView,
>
    decreases rows.len(),
{
    if rows.len() == 0 {
        acc
    } else {
        spec_dedup(dedup_step(acc, rows[0]), rows.skip(1))
    }
}

/// A hit placed into a run of hits, after every hit at most as far away:
/// insertion keeps earlier hits of equal distance earlier.
pub open spec fn stable_insert(s: Seq<ScoredRowView>, x: ScoredRowView) -> Seq<ScoredRowView>
    decreases s.len(),
{
    if s.len() == 0 {
        seq![x]
    } else if s.last().distance <= x.distance {
        s.push(x)
    } else {
        stable_insert(s.drop_last(), x).push(s.last())
    }
}

/// The hits in non-decreasing distance order, ties keeping their
/// original relative order.
pub open spec fn spec_sort(s: Seq<ScoredRowView>) -> Seq<ScoredRowView>
    decreases s.len(),
{
    if s.len() == 0 {
        Seq::empty()
    } else {
        stable_insert(spec_sort(s.drop_last()), s.last())
    }
}

proof fn lemma_find_id_bounds(rows: Seq<ScoredRowView>, id: int)
    ensures
        -1 <= find_id(rows, id) < rows.len(),
        find_id(rows, id) >= 0 ==> rows[find_id(rows, id)].id == id,
        find_id(rows, id) == -1 ==> forall|i: int|
            0 <= i < rows.len() ==> (#[trigger] rows[i]).id != id,
    decreases rows.len(),
{
    if rows.len() > 0 && rows[0].id != id {
        lemma_find_id_bounds(rows.skip(1), id);
        if find_id(rows, id) == -1 {
            assert forall|i: int| 0 <= i < rows.len() implies (#[trigger] rows[i]).id != id by {
                if i > 0 {
                    assert(rows.skip(1)[i - 1] == rows[i]);
                }
            }
        }
    }
}

proof fn lemma_find_id_first(rows: Seq<ScoredRowView>, id: int, j: int)
    requires
        0 <= j < rows.len(),
        rows[j].id == id,
        forall|m: int| 0 <= m < j ==> (#[trigger] rows[m]).id != id,
    ensures
        find_id(rows, id) == j,
    decreases j,
{
    if j > 0 {
        lemma_find_id_first(rows.skip(1), id, j - 1);
    }
}

proof fn lemma_find_id_none(rows: Seq<ScoredRowView>, id: int)
    requires
        forall|m: int| 0 <= m < rows.len() ==> (#[trigger] rows[m]).id != id,
    ensures
        find_id(rows, id) == -1,
    decreases rows.len(),
{
    if rows.len() > 0 {
        lemma_find_id_none(rows.skip(1), id);
    }
}

/// Deduplication keeps ids pairwise distinct.
proof fn lemma_dedup_step_distinct(acc: Seq<ScoredRowView>, r: ScoredRowView)
    requires
        distinct_ids(acc),
    ensures
        distinct_ids(dedup_step(acc, r)),
{
    lemma_find_id_bounds(acc, r.id);
}

/// The union of per-term results, deduplicated, has pairwise distinct
/// ids.
pub proof fn lemma_dedup_distinct(acc: Seq<ScoredRowView>, rows: Seq<ScoredRowView>)
    requires
        distinct_ids(acc),
    ensures
        distinct_ids(spec_dedup(acc, rows)),
    decreases rows.len(),
{
    if rows.len() > 0 {
        lemma_dedup_step_distinct(acc, rows[0]);
        lemma_dedup_distinct(dedup_step(acc, rows[0]), rows.skip(1));
    }
}

proof fn lemma_stable_insert_sorted(s: Seq<ScoredRowView>, x: ScoredRowView)
    requires
        sorted_by_distance(s),
    ensures
        sorted_by_distance(stable_insert(s, x)),
        stable_insert(s, x).len() == s.len() + 1,
        stable_insert(s, x).to_multiset() == s.to_multiset().insert(x),
    decreases s.len(),
{
    s.to_multiset_ensures();
    if s.len() == 0 {
        assert(stable_insert(s, x) =~= seq![x]);
        seq![x].to_multiset_ensures();
        assert(seq![x].drop_last() =~= Seq::<ScoredRowView>::empty());
        Seq::<ScoredRowView>::empty().to_multiset_ensures();
        assert(seq![x].to_multiset() =~= s.to_multiset().insert(x));
    } else if s.last().distance <= x.distance {
        let out = s.push(x);
        assert(forall|i: int| 0 <= i < s.len() ==> (#[trigger] out[i]) == s[i]);
        assert(forall|i: int|
            0 <= i < s.len() ==> (#[trigger] s[i]).distance <= s.last().distance);
        assert(sorted_by_distance(out));
        assert(out.drop_last() =~= s);
        out.to_multiset_ensures();
    } else {
        let inner = stable_insert(s.drop_last(), x);
        assert(sorted_by_distance(s.drop_last()));
        lemma_stable_insert_sorted(s.drop_last(), x);
        let out = inner.push(s.last());
        // every element of `inner` is an element of s.drop_last() or x,
        // all of which are at most s.last() in distance
        lemma_stable_insert_elements(s.drop_last(), x);
        assert(forall|i: int|
            0 <= i < s.drop_last().len() ==> (#[trigger] s.drop_last()[i]).distance
                <= s.last().distance);
        assert(forall|i: int|
            0 <= i < inner.len() ==> (#[trigger] inner[i]).distance <= s.last().distance);
        assert(sorted_by_distance(out));
        inner.to_multiset_ensures();
        s.drop_last().to_multiset_ensures();
        assert(s.drop_last().push(s.last()) =~= s);
        assert(s.to_multiset() == s.drop_last().push(s.last()).to_multiset());
        assert(s.drop_last().push(s.last()).to_multiset() =~= s.drop_last().to_multiset().insert(
            s.last(),
        ));
        assert(inner.push(s.last()).to_multiset() =~= inner.to_multiset().insert(s.last()));
        assert(out.to_multiset() =~= s.to_multiset().insert(x));
    }
}

/// Every hit of an insertion result is the inserted hit or one of the
/// run's own.
proof fn lemma_stable_insert_elements(s: Seq<ScoredRowView>, x: ScoredRowView)
    ensures
        forall|i: int|
            0 <= i < stable_insert(s, x).len() ==> ((#[trigger] stable_insert(s, x)[i]) == x
                || s.contains(stable_insert(s, x)[i])),
    decreases s.len(),
{
    if s.len() > 0 && !(s.last().distance <= x.distance) {
        lemma_stable_insert_elements(s.drop_last(), x);
        let inner = stable_insert(s.drop_last(), x);
        let out = inner.push(s.last());
        assert(forall|i: int|
            0 <= i < s.drop_last().len() ==> s.contains(#[trigger] s.drop_last()[i]));
        assert(s.contains(s.last()));
        assert(forall|i: int| 0 <= i < inner.len() ==> out[i] == (#[trigger] inner[i]));
    }
}

/// Insertion under a fresh id keeps ids pairwise distinct.
proof fn lemma_stable_insert_distinct(t: Seq<ScoredRowView>, y: ScoredRowView)
    requires
        distinct_ids(t),
        forall|m: int| 0 <= m < t.len() ==> (#[trigger] t[m]).id != y.id,
    ensures
        distinct_ids(stable_insert(t, y)),
    decreases t.len(),
{
    if t.len() == 0 {
    } else if t.last().distance <= y.distance {
        let out = t.push(y);
        assert(forall|i: int| 0 <= i < t.len() ==> (#[trigger] out[i]) == t[i]);
        assert(distinct_ids(out));
    } else {
        assert(distinct_ids(t.drop_last()));
        lemma_stable_insert_distinct(t.drop_last(), y);
        lemma_stable_insert_elements(t.drop_last(), y);
        let inner = stable_insert(t.drop_last(), y);
        let out = inner.push(t.last());
        assert(forall|m: int|
            0 <= m < t.drop_last().len() ==> (#[trigger] t.drop_last()[m]).id != t.last().id);
        assert forall|m: int| 0 <= m < inner.len() implies (#[trigger] inner[m]).id
            != t.last().id by {
            assert(inner[m] == y || t.drop_last().contains(inner[m]));
        }
        assert(forall|i: int| 0 <= i < inner.len() ==> (#[trigger] out[i]) == inner[i]);
        assert(distinct_ids(out));
    }
}

/// Sorting hits whose ids are pairwise distinct keeps them so.
pub proof fn lemma_sort_distinct(s: Seq<ScoredRowView>)
    requires
        distinct_ids(s),
    ensures
        distinct_ids(spec_sort(s)),
    decreases s.len(),
{
    if s.len() > 0 {
        assert(distinct_ids(s.drop_last()));
        lemma_sort_distinct(s.drop_last());
        lemma_sort_sorted(s.drop_last());
        let sorted = spec_sort(s.drop_last());
        s.drop_last().to_multiset_ensures();
        sorted.to_multiset_ensures();
        assert forall|m: int| 0 <= m < sorted.len() implies (#[trigger] sorted[m]).id
            != s.last().id by {
            assert(sorted.contains(sorted[m]));
            assert(sorted.to_multiset().count(sorted[m]) > 0);
            assert(s.drop_last().to_multiset().count(sorted[m]) > 0);
            assert(s.drop_last().contains(sorted[m]));
            let k = choose|k: int|
                0 <= k < s.drop_last().len() && s.drop_last()[k] == sorted[m];
            assert(s[k] == sorted[m]);
            assert(s[k].id != s.last().id);
        }
        lemma_stable_insert_distinct(sorted, s.last());
    }
}

/// Sorting returns the same hits: a permutation, closest first.
pub proof fn lemma_sort_sorted(s: Seq<ScoredRowView>)
    ensures
        sorted_by_distance(spec_sort(s)),
        spec_sort(s).len() == s.len(),
        spec_sort(s).to_multiset() == s.to_multiset(),
    decreases s.len(),
{
    s.to_multiset_ensures();
    if s.len() == 0 {
    } else {
        lemma_sort_sorted(s.drop_last());
        lemma_stable_insert_sorted(spec_sort(s.drop_last()), s.last());
        s.drop_last().to_multiset_ensures();
        assert(s.drop_last().push(s.last()) =~= s);
        assert(s.drop_last().push(s.last()).to_multiset() =~= s.drop_last().to_multiset().insert(
            s.last(),
        ));
        assert(s.to_multiset() =~= s.drop_last().to_multiset().insert(s.last()));
    }
}

/// The concatenation of every per-term result list, in list order.
pub open spec fn spec_concat_lists(lists: Seq<Seq<ScoredRowView>>) -> Seq<ScoredRowView>
    decreases lists.len(),
{
    if lists.len() == 0 {
        Seq::empty()
    } else {
        lists[0] + spec_concat_lists(lists.skip(1))
    }
}

proof fn lemma_concat_snoc(lists: Seq<Seq<ScoredRowView>>, x: Seq<ScoredRowView>)
    ensures
        spec_concat_lists(lists.push(x)) == spec_concat_lists(lists) + x,
    decreases lists.len(),
{
    if lists.len() == 0 {
        assert(lists.push(x)[0] == x);
        assert(lists.push(x).skip(1) =~= Seq::<Seq<ScoredRowView>>::empty());
        assert(spec_concat_lists(Seq::<Seq<ScoredRowView>>::empty())
            =~= Seq::<ScoredRowView>::empty());
        assert(spec_concat_lists(lists.push(x)) == x + spec_concat_lists(
            lists.push(x).skip(1),
        ));
        assert(spec_concat_lists(lists.push(x)) =~= spec_concat_lists(lists) + x);
    } else {
        assert(lists.push(x)[0] == lists[0]);
        assert(lists.push(x).skip(1) =~= lists.skip(1).push(x));
        lemma_concat_snoc(lists.skip(1), x);
        assert(lists[0] + (spec_concat_lists(lists.skip(1)) + x) =~= (lists[0]
            + spec_concat_lists(lists.skip(1))) + x);
    }
}

proof fn lemma_dedup_snoc(
    acc: Seq<ScoredRowView>,
    rows: Seq<ScoredRowView>,
    x: ScoredRowView,
)
    ensures
        spec_dedup(acc, rows.push(x)) == dedup_step(spec_dedup(acc, rows), x),
    decreases rows.len(),
{
    if rows.len() == 0 {
        assert(rows.push(x)[0] == x);
        assert(rows.push(x).skip(1) =~= Seq::<ScoredRowView>::empty());
        assert(spec_dedup(acc, rows) == acc);
        assert(spec_dedup(acc, rows.push(x)) == spec_dedup(
            dedup_step(acc, x),
            rows.push(x).skip(1),
        ));
        assert(spec_dedup(dedup_step(acc, x), rows.push(x).skip(1)) == dedup_step(acc, x));
    } else {
        assert(rows.push(x)[0] == rows[0]);
        assert(rows.push(x).skip(1) =~= rows.skip(1).push(x));
        assert(spec_dedup(acc, rows.push(x)) == spec_dedup(
            dedup_step(acc, rows[0]),
            rows.skip(1).push(x),
        ));
        assert(spec_dedup(acc, rows) == spec_dedup(dedup_step(acc, rows[0]), rows.skip(1)));
        lemma_dedup_snoc(dedup_step(acc, rows[0]), rows.skip(1), x);
    }
}

/// The merged result of the per-term searches: the union of all hits,
/// deduplicated by record id keeping each id's best distance, in
/// non-decreasing distance order.
pub open spec fn spec_merged(lists: Seq<Seq<ScoredRowView>>) -> Seq<ScoredRowView> {
    spec_sort(spec_dedup(Seq::empty(), spec_concat_lists(lists)))
}

/// Merges per-term search results: hits are pooled in list order,
/// deduplicated by record id (each id keeps its closest hit; ties keep
/// the earliest), and returned in non-decreasing distance order with
/// ties in their pre-sort relative order.
pub fn merge_results(lists: &Vec<Vec<ScoredRow>>) -> (r: Vec<ScoredRow>)
    ensures
        r.deep_view() == spec_merged(lists.deep_view()),
        sorted_by_distance(r.deep_view()),
        distinct_ids(r.deep_view()),
{
    let mut pooled: Vec<ScoredRow> = Vec::new();
    let mut i: usize = 0;
    proof {
        assert(lists.deep_view().take(0) =~= Seq::<Seq<ScoredRowView>>::empty());
        assert(pooled.deep_view() =~= spec_concat_lists(lists.deep_view().take(0)));
    }
    while i < lists.len()
        invariant
            i <= lists@.len(),
            pooled.deep_view() == spec_concat_lists(lists.deep_view().take(i as int)),
        decreases lists@.len() - i,
    {
        let mut j: usize = 0;
        let ghost before = pooled.deep_view();
        let ghost this_list = lists.deep_view()[i as int];
        while j < lists[i].len()
            invariant
                i < lists@.len(),
                j <= lists@[i as int]@.len(),
                this_list == lists.deep_view()[i as int],
                this_list.len() == lists@[i as int]@.len(),
                pooled.deep_view() =~= before + this_list.take(j as int),
            decreases lists@[i as int]@.len() - j,
        {
            let ghost prev = pooled.deep_view();
            pooled.push(copy_row(&lists[i][j]));
            proof {
                assert(lists@[i as int]@[j as int]@ == this_list[j as int]);
                assert(pooled.deep_view() =~= prev.push(this_list[j as int]));
                assert(pooled.deep_view() =~= before + this_list.take(j + 1));
            }
            j += 1;
        }
        proof {
            assert(this_list.take(this_list.len() as int) =~= this_list);
            assert(lists.deep_view().take(i + 1).drop_last() =~= lists.deep_view().take(i as int));
            assert(lists.deep_view().take(i + 1) =~= lists.deep_view().take(i as int).push(
                this_list,
            ));
            lemma_concat_snoc(lists.deep_view().take(i as int), this_list);
        }
        i += 1;
    }
    proof {
        assert(lists.deep_view().take(lists@.len() as int) =~= lists.deep_view());
    }
    let deduped = dedup_rows(&pooled);
    let sorted = sort_rows(&deduped);
    proof {
        lemma_sort_distinct(deduped.deep_view());
    }
    sorted
}

/// Deduplicates hits by record id, keeping each id's closest hit (the
/// earliest on a tie), in first-seen order.
fn dedup_rows(rows: &Vec<ScoredRow>) -> (r: Vec<ScoredRow>)
    ensures
        r.deep_view() == spec_dedup(Seq::empty(), rows.deep_view()),
        distinct_ids(r.deep_view()),
{
    let mut out: Vec<ScoredRow> = Vec::new();
    let mut i: usize = 0;
    proof {
        assert(rows.deep_view().take(0) =~= Seq::<ScoredRowView>::empty());
        assert(out.deep_view() =~= spec_dedup(Seq::empty(), rows.deep_view().take(0)));
    }
    while i < rows.len()
        invariant
            i <= rows@.len(),
            out.deep_view() == spec_dedup(Seq::empty(), rows.deep_view().take(i as int)),
            distinct_ids(out.deep_view()),
        decreases rows@.len() - i,
    {
        let ghost before = out.deep_view();
        let ghost x = rows.deep_view()[i as int];
        let row = copy_row(&rows[i]);
        proof {
            lemma_find_id_bounds(before, x.id);
        }
        let pos = find_id_exec(&out, row.id);
        match pos {
            Some(p) => {
                if row.distance < out[p].distance {
                    out.set(p, row);
                    proof {
                        assert(out.deep_view() =~= before.update(p as int, x));
                    }
                }
            },
            None => {
                out.push(row);
                proof {
                    assert(out.deep_view() =~= before.push(x));
                }
            },
        }
        proof {
            assert(out.deep_view() == dedup_step(before, x));
            lemma_dedup_step_distinct(before, x);
            assert(rows.deep_view().take(i + 1).drop_last() =~= rows.deep_view().take(i as int));
            assert(rows.deep_view().take(i + 1) =~= rows.deep_view().take(i as int).push(x));
            lemma_dedup_snoc(Seq::empty(), rows.deep_view().take(i as int), x);
        }
        i += 1;
    }
    proof {
        assert(rows.deep_view().take(rows@.len() as int) =~= rows.deep_view());
    }
    out
}

/// The first position holding this id, scanning forward.
fn find_id_exec(rows: &Vec<ScoredRow>, id: i32) -> (r: Option<usize>)
    ensures
        match r {
            Some(j) => j == find_id(rows.deep_view(), id as int) && j < rows@.len(),
            None => find_id(rows.deep_view(), id as int) == -1,
        },
{
    let mut j: usize = 0;
    while j < rows.len()
        invariant
            j <= rows@.len(),
            forall|m: int| 0 <= m < j ==> (#[trigger] rows.deep_view()[m]).id != id,
        decreases rows@.len() - j,
    {
        if rows[j].id == id {
            proof {
                lemma_find_id_first(rows.deep_view(), id as int, j as int);
            }
            return Some(j);
        }
        j += 1;
    }
    proof {
        lemma_find_id_none(rows.deep_view(), id as int);
    }
    None
}

/// `stable_insert` is insertion at the boundary position: everything
/// after `pos` is strictly farther, the entry before `pos` is not.
proof fn lemma_stable_insert_at(s: Seq<ScoredRowView>, x: ScoredRowView, pos: int)
    requires
        0 <= pos <= s.len(),
        forall|m: int| pos <= m < s.len() ==> (#[trigger] s[m]).distance > x.distance,
        pos > 0 ==> s[pos - 1].distance <= x.distance,
    ensures
        stable_insert(s, x) == s.take(pos).push(x) + s.skip(pos),
    decreases s.len(),
{
    if s.len() == 0 {
        assert(stable_insert(s, x) =~= s.take(0).push(x) + s.skip(0));
    } else if s.last().distance <= x.distance {
        assert(pos == s.len());
        assert(stable_insert(s, x) =~= s.take(pos).push(x) + s.skip(pos));
    } else {
        assert(pos < s.len());
        lemma_stable_insert_at(s.drop_last(), x, pos);
        assert(s.drop_last().take(pos) =~= s.take(pos));
        assert(s.drop_last().skip(pos).push(s.last()) =~= s.skip(pos));
        assert((s.take(pos).push(x) + s.drop_last().skip(pos)).push(s.last()) =~= s.take(
            pos,
        ).push(x) + s.skip(pos));
    }
}

/// Sorts hits by non-decreasing distance; ties keep their original
/// relative order (insertion after equals).
fn sort_rows(rows: &Vec<ScoredRow>) -> (r: Vec<ScoredRow>)
    ensures
        r.deep_view() == spec_sort(rows.deep_view()),
        sorted_by_distance(r.deep_view()),
{
    let mut out: Vec<ScoredRow> = Vec::new();
    let mut i: usize = 0;
    proof {
        assert(rows.deep_view().take(0) =~= Seq::<ScoredRowView>::empty());
        assert(out.deep_view() =~= spec_sort(rows.deep_view().take(0)));
    }
    while i < rows.len()
        invariant
            i <= rows@.len(),
            out.deep_view() == spec_sort(rows.deep_view().take(i as int)),
            sorted_by_distance(out.deep_view()),
            out@.len() == i,
        decreases rows@.len() - i,
    {
        let ghost before = out.deep_view();
        let ghost x = rows.deep_view()[i as int];
        let row = copy_row(&rows[i]);
        let mut pos: usize = out.len();
        while pos > 0 && out[pos - 1].distance > row.distance
            invariant
                out@.len() == before.len(),
                before == out.deep_view(),
                pos <= before.len(),
                forall|m: int| pos <= m < before.len() ==> (#[trigger] before[m]).distance
                    > x.distance,
                x.distance == row.distance as int,
            decreases pos,
        {
            pos -= 1;
        }
        out.insert(pos, row);
        proof {
            assert(out.deep_view() =~= before.take(pos as int).push(x) + before.skip(pos as int));
            lemma_stable_insert_at(before, x, pos as int);
            lemma_stable_insert_sorted(before, x);
            assert(rows.deep_view().take(i + 1).drop_last() =~= rows.deep_view().take(i as int));
            assert(rows.deep_view().take(i + 1).last() == x);
        }
        i += 1;
    }
    proof {
        assert(rows.deep_view().take(rows@.len() as int) =~= rows.deep_view());
    }
    out
}

/// The first `k` hits, or all of them where fewer exist; what was sorted
/// stays sorted.
pub fn top_k(rows: &Vec<ScoredRow>, k: usize) -> (r: Vec<ScoredRow>)
    ensures
        r.deep_view() == rows.deep_view().take(
            if k <= rows@.len() {
                k as int
            } else {
                rows@.len() as int
            },
        ),
        sorted_by_distance(rows.deep_view()) ==> sorted_by_distance(r.deep_view()),
{
    let n = if k <= rows.len() {
        k
    } else {
        rows.len()
    };
    let mut out: Vec<ScoredRow> = Vec::new();
    let mut i: usize = 0;
    while i < n
        invariant
            n <= rows@.len(),
            i <= n,
            out.deep_view() =~= rows.deep_view().take(n as int).take(i as int),
        decreases n - i,
    {
        let ghost prev = out.deep_view();
        out.push(copy_row(&rows[i]));
        proof {
            assert(out.deep_view() =~= prev.push(rows.deep_view()[i as int]));
            assert(out.deep_view() =~= rows.deep_view().take(n as int).take(i + 1));
        }
        i += 1;
    }
    proof {
        assert(rows.deep_view().take(n as int).take(n as int) =~= rows.deep_view().take(n as int));
    }
    out
}

/// The contents of the hits, in hit order: for a sorted input, the best
/// match comes first, ready for prompt assembly.
pub fn extract_contents(rows: &Vec<ScoredRow>) -> (r: Vec<String>)
    ensures
        r.deep_view() == Seq::new(rows.deep_view().len(), |i: int| rows.deep_view()[i].content),
{
    let mut out: Vec<String> = Vec::new();
    let mut i: usize = 0;
    let ghost contents = Seq::new(rows.deep_view().len(), |i: int| rows.deep_view()[i].content);
    while i < rows.len()
        invariant
            i <= rows@.len(),
            contents == Seq::new(
                rows.deep_view().len(),
                |i: int| rows.deep_view()[i].content,
            ),
            out.deep_view() =~= contents.take(i as int),
        decreases rows@.len() - i,
    {
        let ghost prev = out.deep_view();
        out.push(rows[i].content.clone());
        proof {
            assert(out.deep_view() =~= prev.push(contents[i as int]));
            assert(out.deep_view() =~= contents.take(i + 1));
        }
        i += 1;
    }
    proof {
        assert(contents.take(rows@.len() as int) =~= contents);
    }
    out
}

/// One neighbor to fetch for file-context widening: a chunk of the same
/// file adjacent to a hit.
pub struct AdjacentKey {
    pub file_path: String,
    pub chunk_number: i32,
}

impl View for AdjacentKey {
    type V = (Seq<char>, int);

    open spec fn view(&self) -> (Seq<char>, int) {
        (self.file_path@, self.chunk_number as int)
    }
}

impl DeepView for AdjacentKey {
    type V = (Seq<char>, int);

    open spec fn deep_view(&self) -> (Seq<char>, int) {
        self.view()
    }
}

/// The neighbors a hit asks for: the chunk before it (where one can
/// exist) and the chunk after it, both from the hit's own file.
pub open spec fn spec_adjacent_of(r: ScoredRowView) -> Seq<(Seq<char>, int)> {
    if r.chunk_number > 0 {
        seq![(r.metadata, r.chunk_number - 1), (r.metadata, r.chunk_number + 1)]
    } else {
        seq![(r.metadata, r.chunk_number + 1)]
    }
}

/// The neighbors of all hits, in hit order.
pub open spec fn spec_adjacent_keys(rows: Seq<ScoredRowView>) -> Seq<(Seq<char>, int)>
    decreases rows.len(),
{
    if rows.len() == 0 {
        Seq::empty()
    } else {
        spec_adjacent_of(rows[0]) + spec_adjacent_keys(rows.skip(1))
    }
}

proof fn lemma_adjacent_snoc(rows: Seq<ScoredRowView>, x: ScoredRowView)
    ensures
        spec_adjacent_keys(rows.push(x)) == spec_adjacent_keys(rows) + spec_adjacent_of(x),
    decreases rows.len(),
{
    if rows.len() == 0 {
        assert(rows.push(x)[0] == x);
        assert(rows.push(x).skip(1) =~= Seq::<ScoredRowView>::empty());
        assert(spec_adjacent_keys(Seq::<ScoredRowView>::empty()) =~= Seq::<(
            Seq<char>,
            int,
        )>::empty());
        assert(spec_adjacent_keys(rows.push(x)) == spec_adjacent_of(x) + spec_adjacent_keys(
            rows.push(x).skip(1),
        ));
        assert(spec_adjacent_keys(rows.push(x)) =~= spec_adjacent_keys(rows) + spec_adjacent_of(
            x,
        ));
    } else {
        assert(rows.push(x)[0] == rows[0]);
        assert(rows.push(x).skip(1) =~= rows.skip(1).push(x));
        lemma_adjacent_snoc(rows.skip(1), x);
        assert(spec_adjacent_of(rows[0]) + (spec_adjacent_keys(rows.skip(1)) + spec_adjacent_of(x))
            =~= (spec_adjacent_of(rows[0]) + spec_adjacent_keys(rows.skip(1))) + spec_adjacent_of(
            x,
        ));
    }
}

/// For every top match, the chunks adjacent to it (by chunk number)
/// from the same source file, to widen the returned context window.
pub fn file_context_keys(rows: &Vec<ScoredRow>) -> (r: Vec<AdjacentKey>)
    requires
        forall|i: int|
            0 <= i < rows.deep_view().len() ==> (#[trigger] rows.deep_view()[i]).chunk_number
                < i32::MAX,
    ensures
        r@.len() == spec_adjacent_keys(rows.deep_view()).len(),
        forall|i: int|
            0 <= i < r@.len() ==> ((#[trigger] r@[i]).file_path@, r@[i].chunk_number as int)
                == spec_adjacent_keys(rows.deep_view())[i],
{
    let mut out: Vec<AdjacentKey> = Vec::new();
    let ghost keys = spec_adjacent_keys(rows.deep_view());
    let mut i: usize = 0;
    proof {
        assert(rows.deep_view().take(0) =~= Seq::<ScoredRowView>::empty());
    }
    while i < rows.len()
        invariant
            i <= rows@.len(),
            forall|m: int|
                0 <= m < rows.deep_view().len() ==> (
                #[trigger] rows.deep_view()[m]).chunk_number < i32::MAX,
            out@.len() == spec_adjacent_keys(rows.deep_view().take(i as int)).len(),
            forall|m: int|
                0 <= m < out@.len() ==> ((#[trigger] out@[m]).file_path@,
                out@[m].chunk_number as int) == spec_adjacent_keys(
                    rows.deep_view().take(i as int),
                )[m],
        decreases rows@.len() - i,
    {
        let ghost before_keys = spec_adjacent_keys(rows.deep_view().take(i as int));
        let ghost x = rows.deep_view()[i as int];
        let row = &rows[i];
        if row.chunk_number > 0 {
            out.push(AdjacentKey {
                file_path: row.metadata.clone(),
                chunk_number: row.chunk_number - 1,
            });
        }
        out.push(AdjacentKey {
            file_path: row.metadata.clone(),
            chunk_number: row.chunk_number + 1,
        });
        proof {
            assert(rows.deep_view().take(i + 1).drop_last() =~= rows.deep_view().take(i as int));
            assert(rows.deep_view().take(i + 1) =~= rows.deep_view().take(i as int).push(x));
            lemma_adjacent_snoc(rows.deep_view().take(i as int), x);
        }
        i += 1;
    }
    proof {
        assert(rows.deep_view().take(rows@.len() as int) =~= rows.deep_view());
    }
    out
}

/// The contents of the rows that match one neighbor key: same file
/// path, same chunk number, in storage order.
pub open spec fn spec_rows_matching(
    rows: Seq<VectorRecordView>,
    path: Seq<char>,
    n: int,
) -> Seq<Seq<char>>
    decreases rows.len(),
{
    if rows.len() == 0 {
        Seq::empty()
    } else {
        let head = if rows[0].metadata == path && rows[0].chunk_number == n {
            seq![rows[0].content]
        } else {
            Seq::<Seq<char>>::empty()
        };
        head + spec_rows_matching(rows.skip(1), path, n)
    }
}

/// The widened context: for each neighbor key in order, the matching
/// rows' contents in storage order.
pub open spec fn spec_file_context(
    rows: Seq<VectorRecordView>,
    keys: Seq<(Seq<char>, int)>,
) -> Seq<Seq<char>>
    decreases keys.len(),
{
    if keys.len() == 0 {
        Seq::empty()
    } else {
        spec_rows_matching(rows, keys[0].0, keys[0].1) + spec_file_context(rows, keys.skip(1))
    }
}

proof fn lemma_matching_snoc(
    rows: Seq<VectorRecordView>,
    x: VectorRecordView,
    path: Seq<char>,
    n: int,
)
    ensures
        spec_rows_matching(rows.push(x), path, n) == spec_rows_matching(rows, path, n) + (
        if x.metadata == path && x.chunk_number == n {
            seq![x.content]
        } else {
            Seq::<Seq<char>>::empty()
        }),
    decreases rows.len(),
{
    let tail = if x.metadata == path && x.chunk_number == n {
        seq![x.content]
    } else {
        Seq::<Seq<char>>::empty()
    };
    if rows.len() == 0 {
        assert(rows.push(x)[0] == x);
        assert(rows.push(x).skip(1) =~= Seq::<VectorRecordView>::empty());
        assert(spec_rows_matching(rows.push(x), path, n) == tail + spec_rows_matching(
            rows.push(x).skip(1),
            path,
            n,
        ));
        assert(spec_rows_matching(rows.push(x), path, n) =~= spec_rows_matching(rows, path, n)
            + tail);
    } else {
        assert(rows.push(x)[0] == rows[0]);
        assert(rows.push(x).skip(1) =~= rows.skip(1).push(x));
        lemma_matching_snoc(rows.skip(1), x, path, n);
        let head = if rows[0].metadata == path && rows[0].chunk_number == n {
            seq![rows[0].content]
        } else {
            Seq::<Seq<char>>::empty()
        };
        assert(head + (spec_rows_matching(rows.skip(1), path, n) + tail) =~= (head
            + spec_rows_matching(rows.skip(1), path, n)) + tail);
    }
}

proof fn lemma_file_context_snoc(
    rows: Seq<VectorRecordView>,
    keys: Seq<(Seq<char>, int)>,
    k: (Seq<char>, int),
)
    ensures
        spec_file_context(rows, keys.push(k)) == spec_file_context(rows, keys)
            + spec_rows_matching(rows, k.0, k.1),
    decreases keys.len(),
{
    if keys.len() == 0 {
        assert(keys.push(k)[0] == k);
        assert(keys.push(k).skip(1) =~= Seq::<(Seq<char>, int)>::empty());
        assert(spec_file_context(rows, keys.push(k)) == spec_rows_matching(rows, k.0, k.1)
            + spec_file_context(rows, keys.push(k).skip(1)));
        assert(spec_file_context(rows, keys.push(k)) =~= spec_file_context(rows, keys)
            + spec_rows_matching(rows, k.0, k.1));
    } else {
        assert(keys.push(k)[0] == keys[0]);
        assert(keys.push(k).skip(1) =~= keys.skip(1).push(k));
        lemma_file_context_snoc(rows, keys.skip(1), k);
        assert(spec_rows_matching(rows, keys[0].0, keys[0].1) + (spec_file_context(
            rows,
            keys.skip(1),
        ) + spec_rows_matching(rows, k.0, k.1)) =~= (spec_rows_matching(rows, keys[0].0, keys[0].1)
            + spec_file_context(rows, keys.skip(1))) + spec_rows_matching(rows, k.0, k.1));
    }
}

/// Fetches the widened context from the store: for every neighbor key in
/// order, the contents of the rows of that file with that chunk number,
/// in storage order.
pub fn fetch_file_context(store: &VectorStore, keys: &Vec<AdjacentKey>) -> (r: Vec<String>)
    ensures
        r.deep_view() == spec_file_context(store.rows_view(), keys.deep_view()),
{
    let ghost rows_v = store.rows_view();
    let ghost keys_v = keys.deep_view();
    let mut out: Vec<String> = Vec::new();
    let mut i: usize = 0;
    proof {
        assert(keys_v.take(0) =~= Seq::<(Seq<char>, int)>::empty());
        assert(out.deep_view() =~= spec_file_context(rows_v, keys_v.take(0)));
    }
    while i < keys.len()
        invariant
            i <= keys@.len(),
            rows_v == store.rows_view(),
            keys_v == keys.deep_view(),
            keys_v.len() == keys@.len(),
            out.deep_view() == spec_file_context(rows_v, keys_v.take(i as int)),
        decreases keys@.len() - i,
    {
        let ghost before = out.deep_view();
        let key = &keys[i];
        let mut j: usize = 0;
        proof {
            assert(rows_v.take(0) =~= Seq::<VectorRecordView>::empty());
            assert(out.deep_view() =~= before + spec_rows_matching(
                rows_v.take(0),
                keys_v[i as int].0,
                keys_v[i as int].1,
            ));
        }
        while j < store.rows.len()
            invariant
                i < keys@.len(),
                j <= store.rows@.len(),
                rows_v == store.rows_view(),
                keys_v == keys.deep_view(),
                key == &keys@[i as int],
                out.deep_view() == before + spec_rows_matching(
                    rows_v.take(j as int),
                    keys_v[i as int].0,
                    keys_v[i as int].1,
                ),
            decreases store.rows@.len() - j,
        {
            let ghost prior = out.deep_view();
            let row = &store.rows[j];
            if row.metadata == key.file_path && row.chunk_number == key.chunk_number {
                out.push(row.content.clone());
                proof {
                    assert(out.deep_view() =~= prior.push(rows_v[j as int].content));
                }
            }
            proof {
                assert(rows_v.take(j + 1).drop_last() =~= rows_v.take(j as int));
                assert(rows_v.take(j + 1) =~= rows_v.take(j as int).push(rows_v[j as int]));
                lemma_matching_snoc(
                    rows_v.take(j as int),
                    rows_v[j as int],
                    keys_v[i as int].0,
                    keys_v[i as int].1,
                );
            }
            j += 1;
        }
        proof {
            assert(rows_v.take(store.rows@.len() as int) =~= rows_v);
            assert(keys_v.take(i + 1).drop_last() =~= keys_v.take(i as int));
            assert(keys_v.take(i + 1) =~= keys_v.take(i as int).push(keys_v[i as int]));
            lemma_file_context_snoc(rows_v, keys_v.take(i as int), keys_v[i as int]);
        }
        i += 1;
    }
    proof {
        assert(keys_v.take(keys@.len() as int) =~= keys_v);
    }
    out
}

} // verus!
