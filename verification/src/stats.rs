use vstd::prelude::*;

use vstd::multiset::Multiset;

use crate::dates::LocalDatetime;
use crate::rules::MetricMap;
use crate::strutil::str_eq;

verus! {

/// One student's captured metric snapshot: who, when the submission it was
/// built from was turned in, and the harvested scores.
pub struct StatBlock {
    pub username: String,
    pub time: LocalDatetime,
    pub scores: MetricMap,
}

/// The per-assignment collection of snapshots, in capture order.
pub struct StatBlockSet {
    pub stat_block: Option<Vec<StatBlock>>,
}

/// The position of the first snapshot belonging to `name`.
pub open spec fn first_block(blocks: Seq<StatBlock>, name: Seq<char>) -> Option<int>
    decreases blocks.len(),
{
    if blocks.len() == 0 {
        None
    } else if blocks[0].username@ == name {
        Some(0)
    } else {
        match first_block(blocks.drop_first(), name) {
            Some(i) => Some(i + 1),
            None => None,
        }
    }
}

impl StatBlockSet {
    pub open spec fn spec_blocks(&self) -> Seq<StatBlock> {
        match self.stat_block {
            Some(v) => v@,
            None => Seq::empty(),
        }
    }

    /// The snapshot recorded for a user: the first block carrying the
    /// username, if any.
    pub fn get_block(&self, username: &str) -> (r: Option<&StatBlock>)
        ensures
            match r {
                Some(b) => {
                    &&& first_block(self.spec_blocks(), username@) matches Some(i)
                    &&& 0 <= i < self.spec_blocks().len()
                    &&& *b == self.spec_blocks()[first_block(self.spec_blocks(), username@)->0]
                },
                None => first_block(self.spec_blocks(), username@) is None,
            },
    {
        match &self.stat_block {
            None => None,
            Some(blocks) => {
                let ghost all = blocks@;
                let mut i: usize = 0;
                while i < blocks.len()
                    invariant
                        i <= all.len(),
                        all == blocks@,
                        all == self.spec_blocks(),
                        forall|j: int| 0 <= j < i ==> (#[trigger] all[j]).username@ != username@,
                    decreases all.len() - i,
                {
                    if str_eq(blocks[i].username.as_str(), username) {
                        proof {
                            lemma_first_block_found(all, username@, i as int);
                        }
                        return Some(&blocks[i]);
                    }
                    i = i + 1;
                }
                proof {
                    lemma_first_block_none(all, username@);
                }
                None
            },
        }
    }
}

/// A found name at `i`, with no earlier match, is the first match.
proof fn lemma_first_block_found(blocks: Seq<StatBlock>, name: Seq<char>, i: int)
    requires
        0 <= i < blocks.len(),
        blocks[i].username@ == name,
        forall|j: int| 0 <= j < i ==> (#[trigger] blocks[j]).username@ != name,
    ensures
        first_block(blocks, name) == Some(i),
    decreases i,
{
    if i == 0 {
    } else {
        assert(forall|a: int|
            0 <= a < blocks.drop_first().len() ==> #[trigger] blocks.drop_first()[a] == blocks[a
                + 1]);
        lemma_first_block_found(blocks.drop_first(), name, i - 1);
    }
}

/// When no block carries the name, there is no first match.
proof fn lemma_first_block_none(blocks: Seq<StatBlock>, name: Seq<char>)
    requires
        forall|j: int| 0 <= j < blocks.len() ==> (#[trigger] blocks[j]).username@ != name,
    ensures
        first_block(blocks, name) is None,
    decreases blocks.len(),
{
    if blocks.len() == 0 {
    } else {
        assert(forall|a: int|
            0 <= a < blocks.drop_first().len() ==> #[trigger] blocks.drop_first()[a] == blocks[a
                + 1]);
        lemma_first_block_none(blocks.drop_first(), name);
    }
}

/// A first match lies inside the sequence and carries the name.
pub proof fn lemma_first_block_bounds(blocks: Seq<StatBlock>, name: Seq<char>)
    ensures
        first_block(blocks, name) matches Some(i) ==> 0 <= i < blocks.len()
            && blocks[i].username@ == name,
    decreases blocks.len(),
{
    if blocks.len() == 0 {
    } else {
        assert(forall|a: int|
            0 <= a < blocks.drop_first().len() ==> #[trigger] blocks.drop_first()[a] == blocks[a
                + 1]);
        lemma_first_block_bounds(blocks.drop_first(), name);
    }
}

/// The staleness tolerance of score snapshots: a snapshot still speaks for a
/// live turn-in time when the recorded time is within one second of it,
/// either way — an allowance for filesystem timestamp jitter, not an
/// exact-equality check.
pub fn stats_current(live_epoch: i64, recorded_epoch: i64) -> (r: bool)
    ensures
        r == (-1 <= live_epoch - recorded_epoch <= 1),
{
    let diff = (live_epoch as i128) - (recorded_epoch as i128);
    -1 <= diff && diff <= 1
}

/// One output row of a ranking: the parsed sort key, if the member has one,
/// and the rendered cells (username first, then each metric column).
pub struct RankRow {
    pub key: Option<i64>,
    pub cells: Vec<String>,
}

pub type RowView = (Option<i64>, Seq<Seq<char>>);

impl View for RankRow {
    type V = RowView;

    open spec fn view(&self) -> RowView {
        (self.key, self.cells@.map_values(|c: String| c@))
    }
}

pub open spec fn row_views(s: Seq<RankRow>) -> Seq<RowView> {
    Seq::new(s.len(), |i: int| s[i]@)
}

/// The ranking order: present keys compare as numbers (reversed when
/// descending); a present key ranks before a missing one; two missing keys
/// tie. `rank_lt` is the strict "ranks earlier" relation.
pub open spec fn rank_lt(a: Option<i64>, b: Option<i64>, ascending: bool) -> bool {
    match (a, b) {
        (Some(x), Some(y)) => if ascending {
            x < y
        } else {
            x > y
        },
        (Some(_), None) => true,
        (None, Some(_)) => false,
        (None, None) => false,
    }
}

pub fn rank_lt_exec(a: Option<i64>, b: Option<i64>, ascending: bool) -> (r: bool)
    ensures
        r == rank_lt(a, b, ascending),
{
    match (a, b) {
        (Some(x), Some(y)) => if ascending {
            x < y
        } else {
            x > y
        },
        (Some(_), None) => true,
        (None, Some(_)) => false,
        (None, None) => false,
    }
}

/// No later row ranks strictly earlier than an earlier one.
pub open spec fn rank_sorted(s: Seq<RowView>, ascending: bool) -> bool {
    forall|i: int, j: int|
        0 <= i < j < s.len() ==> !rank_lt((#[trigger] s[j]).0, (#[trigger] s[i]).0, ascending)
}

proof fn lemma_insert_multiset<A>(s: Seq<A>, p: int, x: A)
    requires
        0 <= p <= s.len(),
    ensures
        s.insert(p, x).to_multiset() == s.to_multiset().insert(x),
{
    broadcast use vstd::seq_lib::group_to_multiset_ensures;
    broadcast use vstd::multiset::group_multiset_axioms;

    let left = s.take(p);
    let right = s.skip(p);
    assert(s.insert(p, x) =~= left + (seq![x] + right));
    vstd::seq_lib::lemma_multiset_commutative(left, seq![x] + right);
    vstd::seq_lib::lemma_multiset_commutative(seq![x], right);
    assert(seq![x] =~= Seq::<A>::empty().push(x));
    assert(seq![x].to_multiset() =~= Multiset::<A>::empty().insert(x));
    assert(s =~= left + right);
    vstd::seq_lib::lemma_multiset_commutative(left, right);
    assert(s.insert(p, x).to_multiset() =~= s.to_multiset().insert(x));
}

/// Sorts ranking rows by their keys under the missing-value tie-break,
/// keeping exactly the given rows. Equal keys keep their relative input
/// order: a row is inserted before the first row it strictly precedes.
pub fn rank_rows(rows: Vec<RankRow>, ascending: bool) -> (r: Vec<RankRow>)
    ensures
        rank_sorted(row_views(r@), ascending),
        row_views(r@).to_multiset() == row_views(rows@).to_multiset(),
{
    broadcast use vstd::seq_lib::group_to_multiset_ensures;
    broadcast use vstd::multiset::group_multiset_axioms;

    let ghost total = row_views(rows@);
    let mut rest = rows;
    let mut out: Vec<RankRow> = Vec::new();
    while rest.len() > 0
        invariant
            rank_sorted(row_views(out@), ascending),
            row_views(out@).to_multiset().add(row_views(rest@).to_multiset())
                == total.to_multiset(),
        decreases rest@.len(),
    {
        let ghost out0 = row_views(out@);
        let ghost rest0 = row_views(rest@);
        let x = rest.remove(0);
        proof {
            broadcast use vstd::seq_lib::group_to_multiset_ensures;
            broadcast use vstd::multiset::group_multiset_axioms;

            assert(row_views(rest@) =~= rest0.drop_first());
            assert(rest0.drop_first() =~= rest0.remove(0));
            assert(rest0.remove(0).to_multiset() == rest0.to_multiset().remove(rest0[0]));
            assert(rest0.to_multiset().contains(rest0[0]));
            assert(rest0[0] == x@);
        }
        // Find the first row the new one strictly precedes.
        let mut p: usize = 0;
        while p < out.len() && !rank_lt_exec(x.key, out[p].key, ascending)
            invariant
                p <= out@.len(),
                out0 == row_views(out@),
                forall|q: int| 0 <= q < p ==> !rank_lt(x@.0, (#[trigger] out0[q]).0, ascending),
            decreases out@.len() - p,
        {
            proof {
                assert(out0[p as int].0 == out@[p as int].key);
            }
            p = p + 1;
        }
        let ghost pp = p as int;
        proof {
            assert(pp < out0.len() ==> rank_lt(x@.0, out0[pp].0, ascending));
        }
        out.insert(p, x);
        proof {
            broadcast use vstd::seq_lib::group_to_multiset_ensures;
            broadcast use vstd::multiset::group_multiset_axioms;

            assert(row_views(out@) =~= out0.insert(pp, x@));
            lemma_insert_multiset(out0, pp, x@);
            let ghost now = row_views(out@);
            // Sortedness around the insertion point.
            assert forall|i: int, j: int| 0 <= i < j < now.len() implies !rank_lt(
                now[j].0,
                now[i].0,
                ascending,
            ) by {
                if j < pp {
                    assert(now[i] == out0[i] && now[j] == out0[j]);
                } else if i > pp {
                    assert(now[i] == out0[i - 1] && now[j] == out0[j - 1]);
                } else if i == pp {
                    assert(now[i] == x@ && now[j] == out0[j - 1]);
                    if pp < out0.len() {
                        assert(rank_lt(x@.0, out0[pp].0, ascending));
                        assert(!rank_lt(out0[j - 1].0, out0[pp].0, ascending) || j - 1 == pp);
                    }
                } else if j == pp {
                    assert(now[i] == out0[i] && now[j] == x@);
                    assert(!rank_lt(x@.0, out0[i].0, ascending));
                } else {
                    // i < pp < j
                    assert(now[i] == out0[i] && now[j] == out0[j - 1]);
                }
            }
            assert(row_views(out@).to_multiset().add(row_views(rest@).to_multiset())
                == total.to_multiset()) by {
                assert(row_views(out@).to_multiset() == out0.to_multiset().insert(x@));
                assert(row_views(rest@).to_multiset() == rest0.to_multiset().remove(x@));
            }
        }
    }
    proof {
        assert(row_views(rest@).to_multiset() =~= Multiset::<RowView>::empty());
        assert(row_views(out@).to_multiset() =~= total.to_multiset());
    }
    out
}

/// Pairwise distinct keys: any two rows at different positions are strictly
/// ordered one way or the other — no ties, not even between two missing keys.
pub open spec fn distinct_keys(s: Seq<RowView>, ascending: bool) -> bool {
    forall|i: int, j: int|
        0 <= i < s.len() && 0 <= j < s.len() && i != j ==> (rank_lt(
            (#[trigger] s[i]).0,
            (#[trigger] s[j]).0,
            ascending,
        ) || rank_lt(s[j].0, s[i].0, ascending))
}

/// Ranking is canonical under input permutation when keys are pairwise
/// distinct: two sorted sequences holding the same rows are equal, so
/// shuffling the members before ranking cannot change the output order.
/// (With tied keys — two members sharing a score, or two without one — the
/// tied rows keep their input order instead, and a shuffle can swap them.)
pub proof fn lemma_rank_permutation_invariant(x: Seq<RowView>, y: Seq<RowView>, ascending: bool)
    requires
        rank_sorted(x, ascending),
        rank_sorted(y, ascending),
        x.to_multiset() == y.to_multiset(),
        distinct_keys(x, ascending),
    ensures
        x == y,
    decreases x.len(),
{
    broadcast use vstd::seq_lib::group_to_multiset_ensures;
    broadcast use vstd::multiset::group_multiset_axioms;

    if x.to_multiset().len() == 0 {
        assert(x.len() == 0 && y.len() == 0);
        assert(x =~= y);
    } else {
        assert(x.len() > 0 && y.len() > 0);
        assert(x.to_multiset().contains(x[0]));
        assert(y.to_multiset().contains(y[0]));
        assert(x.to_multiset().contains(y[0]));
        assert(x.contains(y[0]));
        let i = choose|i: int| 0 <= i < x.len() && x[i] == y[0];
        assert(y.contains(x[0]));
        let k = choose|k: int| 0 <= k < y.len() && y[k] == x[0];
        // Sortedness gives both "x[0] no later than x[i]" and the reverse
        // through y; distinctness then forces i == 0.
        assert(!rank_lt(x[i].0, x[0].0, ascending) || i == 0);
        assert(!rank_lt(y[k].0, y[0].0, ascending) || k == 0);
        assert(x[0] == y[0]) by {
            if i != 0 {
                assert(rank_lt(x[0].0, x[i].0, ascending) || rank_lt(x[i].0, x[0].0, ascending));
                assert(rank_lt(x[0].0, x[i].0, ascending));
                if k != 0 {
                    assert(!rank_lt(x[0].0, y[0].0, ascending));
                    assert(rank_lt(x[0].0, y[0].0, ascending));
                } else {
                    assert(y[0] == x[0]);
                    assert(rank_lt(x[0].0, x[0].0, ascending));
                }
            }
        }
        assert(x.drop_first().to_multiset() =~= x.to_multiset().remove(x[0])) by {
            assert(x.drop_first() =~= x.remove(0));
        }
        assert(y.drop_first().to_multiset() =~= y.to_multiset().remove(y[0])) by {
            assert(y.drop_first() =~= y.remove(0));
        }
        assert(rank_sorted(x.drop_first(), ascending)) by {
            assert(forall|a: int|
                0 <= a < x.drop_first().len() ==> #[trigger] x.drop_first()[a] == x[a + 1]);
        }
        assert(rank_sorted(y.drop_first(), ascending)) by {
            assert(forall|a: int|
                0 <= a < y.drop_first().len() ==> #[trigger] y.drop_first()[a] == y[a + 1]);
        }
        assert(distinct_keys(x.drop_first(), ascending)) by {
            assert(forall|a: int|
                0 <= a < x.drop_first().len() ==> #[trigger] x.drop_first()[a] == x[a + 1]);
        }
        lemma_rank_permutation_invariant(x.drop_first(), y.drop_first(), ascending);
        assert(x =~= Seq::<RowView>::empty().push(x[0]) + x.drop_first());
        assert(y =~= Seq::<RowView>::empty().push(y[0]) + y.drop_first());
        assert(x =~= y);
    }
}

/// The ranking key a stored metric provides: booleans order false before
/// true, integers order as themselves. A float metric carries its literal
/// text; its numeric ordering is the caller's, outside the verified core.
pub fn metric_rank_key(value: &crate::rules::MetricValue) -> (r: Option<i64>)
    ensures
        match *value {
            crate::rules::MetricValue::Bool(b) => r == Some(
                if b {
                    1i64
                } else {
                    0i64
                },
            ),
            crate::rules::MetricValue::Int(n) => r == Some(n),
            crate::rules::MetricValue::Float(_) => r is None,
        },
{
    match value {
        crate::rules::MetricValue::Bool(b) => Some(
            if *b {
                1
            } else {
                0
            },
        ),
        crate::rules::MetricValue::Int(n) => Some(*n),
        crate::rules::MetricValue::Float(_) => None,
    }
}

} // verus!
