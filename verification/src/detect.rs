//! Boxes around detected objects: which predictions count, and which hide others.

use crate::backend::topk::choose_top;
use crate::text::same_text;
use vstd::prelude::*;

verus! {

/// Values of a prediction: centre, extents, confidence, and a score for each class.
pub const ATTRIBUTES: usize = 85;

/// A box around an object.
#[derive(Clone, Copy, PartialEq, Eq, Debug)]
pub struct Candidate {
    /// Left edge.
    pub x1: u32,
    /// Upper edge.
    pub y1: u32,
    /// Right edge.
    pub x2: u32,
    /// Lower edge.
    pub y2: u32,
    /// Class of the object.
    pub class: usize,
    /// Bits of the score.
    pub score: u32,
}

/// Extents of two boxes and of what they share.
#[derive(Clone, Copy, PartialEq, Eq, Debug)]
pub struct Overlap {
    /// Width of what they share.
    pub shared_width: u32,
    /// Height of what they share.
    pub shared_height: u32,
    /// Width of the first.
    pub width: u32,
    /// Height of the first.
    pub height: u32,
    /// Width of the second.
    pub kept_width: u32,
    /// Height of the second.
    pub kept_height: u32,
}

/// The arithmetic of predictions, on bit patterns.
pub struct Scoring<B, M, K, L, H> {
    /// Whether a class score is a number above another.
    pub better: B,
    /// The product of two scores.
    pub multiply: M,
    /// Whether a score is high enough and the four numbers of a box are numbers.
    pub keep: K,
    /// Half an extent below a centre, within zero and a limit.
    pub low: L,
    /// Half an extent above a centre, within zero and a limit.
    pub high: H,
}

/// The best class among the first `n` class scores of a row, and its score.
pub open spec fn best_class<B: Fn(u32, u32) -> bool>(
    row: Seq<u32>,
    better: &B,
    n: int,
    class: int,
    score: u32,
) -> bool
    decreases n,
{
    if n <= 0 {
        class == 0 && score == 0
    } else {
        exists|c: int, s: u32|
            {
                &&& best_class(row, better, n - 1, c, s)
                &&& #[trigger] class_taken(better, (c, s), n - 1, row[5 + n - 1], (class, score))
            }
    }
}

/// The best class after one more: the new one where its score is better.
pub open spec fn class_taken<B: Fn(u32, u32) -> bool>(
    better: &B,
    before: (int, u32),
    index: int,
    value: u32,
    after: (int, u32),
) -> bool {
    ||| better.ensures((value, before.1), true) && after == (index, value)
    ||| better.ensures((value, before.1), false) && after == before
}

/// Every pattern can be handed to the arithmetic.
pub open spec fn scoring_ready<
    B: Fn(u32, u32) -> bool,
    M: Fn(u32, u32) -> u32,
    K: Fn(u32, [u32; 4]) -> bool,
    L: Fn(u32, u32, u32) -> u32,
    H: Fn(u32, u32, u32) -> u32,
>(scoring: &Scoring<B, M, K, L, H>) -> bool {
    &&& forall|a: u32, b: u32| #[trigger] scoring.better.requires((a, b))
    &&& forall|a: u32, b: u32| #[trigger] scoring.multiply.requires((a, b))
    &&& forall|score: u32, place: [u32; 4]| #[trigger] scoring.keep.requires((score, place))
    &&& forall|a: u32, b: u32, limit: u32| #[trigger] scoring.low.requires((a, b, limit))
    &&& forall|a: u32, b: u32, limit: u32| #[trigger] scoring.high.requires((a, b, limit))
}

/// What a row gives: nothing where its score is too low or its box is empty.
pub open spec fn row_gives<
    B: Fn(u32, u32) -> bool,
    M: Fn(u32, u32) -> u32,
    K: Fn(u32, [u32; 4]) -> bool,
    L: Fn(u32, u32, u32) -> u32,
    H: Fn(u32, u32, u32) -> u32,
>(
    row: Seq<u32>,
    max_x: u32,
    max_y: u32,
    scoring: &Scoring<B, M, K, L, H>,
    r: Option<Candidate>,
) -> bool {
    exists|class: int, class_score: u32, score: u32|
        {
            &&& #[trigger] best_class(row, &scoring.better, 80, class, class_score)
            &&& #[trigger] scoring.multiply.ensures((row[4], class_score), score)
            &&& box_given(row, max_x, max_y, scoring, class, score, r)
        }
}

/// What a row with the given class and score gives.
pub open spec fn box_given<
    B: Fn(u32, u32) -> bool,
    M: Fn(u32, u32) -> u32,
    K: Fn(u32, [u32; 4]) -> bool,
    L: Fn(u32, u32, u32) -> u32,
    H: Fn(u32, u32, u32) -> u32,
>(
    row: Seq<u32>,
    max_x: u32,
    max_y: u32,
    scoring: &Scoring<B, M, K, L, H>,
    class: int,
    score: u32,
    r: Option<Candidate>,
) -> bool {
    let place = [row[0], row[1], row[2], row[3]];
    ||| r is None && scoring.keep.ensures((score, place), false)
    ||| scoring.keep.ensures((score, place), true) && exists|x1: u32, y1: u32, x2: u32, y2: u32|
        {
            &&& #[trigger] scoring.low.ensures((row[0], row[2], max_x), x1)
            &&& #[trigger] scoring.low.ensures((row[1], row[3], max_y), y1)
            &&& #[trigger] scoring.high.ensures((row[0], row[2], max_x), x2)
            &&& #[trigger] scoring.high.ensures((row[1], row[3], max_y), y2)
            &&& if x1 < x2 && y1 < y2 {
                r == Some(Candidate { x1, y1, x2, y2, class: class as usize, score })
            } else {
                r is None
            }
        }
}

/// Reads a row of predictions.
pub fn read_row<
    B: Fn(u32, u32) -> bool,
    M: Fn(u32, u32) -> u32,
    K: Fn(u32, [u32; 4]) -> bool,
    L: Fn(u32, u32, u32) -> u32,
    H: Fn(u32, u32, u32) -> u32,
>(row: &[u32], max_x: u32, max_y: u32, scoring: &Scoring<B, M, K, L, H>) -> (r: Option<Candidate>)
    requires
        row@.len() == ATTRIBUTES,
        scoring_ready(scoring),
    ensures
        row_gives(row@, max_x, max_y, scoring, r),
        r matches Some(found) ==> found.x1 < found.x2 && found.y1 < found.y2 && found.class < 80,
{
    let mut class: usize = 0;
    let mut class_score: u32 = 0;
    let mut index: usize = 0;
    while index < 80
        invariant
            index <= 80,
            class < 80,
            row@.len() == ATTRIBUTES,
            scoring_ready(scoring),
            best_class(row@, &scoring.better, index as int, class as int, class_score),
        decreases 80 - index,
    {
        let score: u32 = row[5 + index];
        let ghost c = class as int;
        let ghost s = class_score;
        let ghost n = index + 1;
        let wins: bool = (scoring.better)(score, class_score);
        assert(score == row@[5 + n - 1]);
        if wins {
            class = index;
            class_score = score;
        }
        proof {
            assert(class_taken(
                &scoring.better,
                (c, s),
                n - 1,
                row@[5 + n - 1],
                (class as int, class_score),
            ));
            assert(best_class(row@, &scoring.better, n, class as int, class_score));
        }
        index = index + 1;
    }
    let score: u32 = (scoring.multiply)(row[4], class_score);
    let place: [u32; 4] = [row[0], row[1], row[2], row[3]];
    assert(place == [row@[0], row@[1], row@[2], row@[3]]);
    let kept: bool = (scoring.keep)(score, place);
    if !kept {
        assert(box_given(row@, max_x, max_y, scoring, class as int, score, None));
        return None;
    }
    let x1: u32 = (scoring.low)(row[0], row[2], max_x);
    let y1: u32 = (scoring.low)(row[1], row[3], max_y);
    let x2: u32 = (scoring.high)(row[0], row[2], max_x);
    let y2: u32 = (scoring.high)(row[1], row[3], max_y);
    let found: Option<Candidate> = if x1 < x2 && y1 < y2 {
        Some(Candidate { x1, y1, x2, y2, class, score })
    } else {
        None
    };
    assert(box_given(row@, max_x, max_y, scoring, class as int, score, found));
    found
}

/// What two boxes share, and their extents.
pub open spec fn overlap_of(a: Candidate, b: Candidate) -> Overlap {
    let right = if a.x2 < b.x2 {
        a.x2
    } else {
        b.x2
    };
    let left = if a.x1 > b.x1 {
        a.x1
    } else {
        b.x1
    };
    let below = if a.y2 < b.y2 {
        a.y2
    } else {
        b.y2
    };
    let above = if a.y1 > b.y1 {
        a.y1
    } else {
        b.y1
    };
    Overlap {
        shared_width: if right > left {
            (right - left) as u32
        } else {
            0
        },
        shared_height: if below > above {
            (below - above) as u32
        } else {
            0
        },
        width: (a.x2 - a.x1) as u32,
        height: (a.y2 - a.y1) as u32,
        kept_width: (b.x2 - b.x1) as u32,
        kept_height: (b.y2 - b.y1) as u32,
    }
}

/// The box is not empty.
pub open spec fn box_ok(candidate: Candidate) -> bool {
    candidate.x1 < candidate.x2 && candidate.y1 < candidate.y2
}

fn measure(a: &Candidate, b: &Candidate) -> (r: Overlap)
    requires
        box_ok(*a),
        box_ok(*b),
    ensures
        r == overlap_of(*a, *b),
{
    let right: u32 = if a.x2 < b.x2 {
        a.x2
    } else {
        b.x2
    };
    let left: u32 = if a.x1 > b.x1 {
        a.x1
    } else {
        b.x1
    };
    let below: u32 = if a.y2 < b.y2 {
        a.y2
    } else {
        b.y2
    };
    let above: u32 = if a.y1 > b.y1 {
        a.y1
    } else {
        b.y1
    };
    Overlap {
        shared_width: if right > left {
            right - left
        } else {
            0
        },
        shared_height: if below > above {
            below - above
        } else {
            0
        },
        width: a.x2 - a.x1,
        height: a.y2 - a.y1,
        kept_width: b.x2 - b.x1,
        kept_height: b.y2 - b.y1,
    }
}

/// A kept box hides a candidate: it is of the same class, and they overlap too much.
pub open spec fn hides<F: Fn(Overlap) -> bool>(
    candidates: Seq<Candidate>,
    too_much: &F,
    kept: usize,
    other: int,
) -> bool {
    &&& candidates[kept as int].class == candidates[other].class
    &&& too_much.ensures((overlap_of(candidates[other], candidates[kept as int]),), true)
}

/// A kept box leaves a candidate alone.
pub open spec fn spares<F: Fn(Overlap) -> bool>(
    candidates: Seq<Candidate>,
    too_much: &F,
    kept: usize,
    other: int,
) -> bool {
    ||| candidates[kept as int].class != candidates[other].class
    ||| too_much.ensures((overlap_of(candidates[other], candidates[kept as int]),), false)
}

/// The kept among the first `n` candidates in order: each is spared by those kept before
/// it, and each that is not kept is hidden by one.
pub open spec fn thinned<F: Fn(Overlap) -> bool>(
    candidates: Seq<Candidate>,
    order: Seq<usize>,
    too_much: &F,
    n: int,
    kept: Seq<usize>,
) -> bool
    decreases n,
{
    if n <= 0 {
        kept.len() == 0
    } else {
        let next = order[n - 1];
        ||| {
            &&& kept.len() > 0 && kept.last() == next
            &&& thinned(candidates, order, too_much, n - 1, kept.drop_last())
            &&& forall|k: int|
                0 <= k < kept.len() - 1 ==> #[trigger] spares(
                    candidates,
                    too_much,
                    kept[k],
                    next as int,
                )
        }
        ||| {
            &&& thinned(candidates, order, too_much, n - 1, kept)
            &&& exists|k: int|
                0 <= k < kept.len() && #[trigger] hides(
                    candidates,
                    too_much,
                    kept[k],
                    next as int,
                )
        }
    }
}

/// Goes through the candidates in order and keeps each that no box kept before hides.
pub fn thin_out<F: Fn(Overlap) -> bool>(
    candidates: &Vec<Candidate>,
    order: &Vec<usize>,
    too_much: &F,
) -> (r: Vec<usize>)
    requires
        forall|i: int| 0 <= i < candidates@.len() ==> box_ok(#[trigger] candidates@[i]),
        forall|i: int| 0 <= i < order@.len() ==> #[trigger] order@[i] < candidates@.len(),
        forall|o: Overlap| #[trigger] too_much.requires((o,)),
    ensures
        thinned(candidates@, order@, too_much, order@.len() as int, r@),
        forall|i: int| 0 <= i < r@.len() ==> #[trigger] r@[i] < candidates@.len(),
{
    let mut kept: Vec<usize> = Vec::new();
    let mut n: usize = 0;
    while n < order.len()
        invariant
            n <= order@.len(),
            forall|i: int| 0 <= i < candidates@.len() ==> box_ok(#[trigger] candidates@[i]),
            forall|i: int| 0 <= i < order@.len() ==> #[trigger] order@[i] < candidates@.len(),
            forall|i: int| 0 <= i < kept@.len() ==> #[trigger] kept@[i] < candidates@.len(),
            forall|o: Overlap| #[trigger] too_much.requires((o,)),
            thinned(candidates@, order@, too_much, n as int, kept@),
        decreases order@.len() - n,
    {
        let next: usize = order[n];
        let mut hidden: bool = false;
        let mut k: usize = 0;
        while k < kept.len() && !hidden
            invariant
                k <= kept@.len(),
                next < candidates@.len(),
                forall|i: int| 0 <= i < candidates@.len() ==> box_ok(#[trigger] candidates@[i]),
                forall|i: int| 0 <= i < kept@.len() ==> #[trigger] kept@[i] < candidates@.len(),
                forall|o: Overlap| #[trigger] too_much.requires((o,)),
                !hidden ==> forall|j: int|
                    0 <= j < k ==> #[trigger] spares(candidates@, too_much, kept@[j], next as int),
                hidden ==> exists|j: int|
                    0 <= j < kept@.len() && #[trigger] hides(
                        candidates@,
                        too_much,
                        kept@[j],
                        next as int,
                    ),
            decreases kept@.len() - k,
        {
            let other: usize = kept[k];
            if candidates[other].class == candidates[next].class {
                let shared: Overlap = measure(&candidates[next], &candidates[other]);
                hidden = too_much(shared);
                if hidden {
                    assert(hides(candidates@, too_much, kept@[k as int], next as int));
                } else {
                    assert(spares(candidates@, too_much, kept@[k as int], next as int));
                }
            }
            k = k + 1;
        }
        let ghost before = kept@;
        if !hidden {
            kept.push(next);
            assert(kept@.drop_last() =~= before);
        }
        assert(thinned(candidates@, order@, too_much, n + 1, kept@));
        n = n + 1;
    }
    kept
}

/// What the rows give, one by one.
pub open spec fn rows_give<
    B: Fn(u32, u32) -> bool,
    M: Fn(u32, u32) -> u32,
    K: Fn(u32, [u32; 4]) -> bool,
    L: Fn(u32, u32, u32) -> u32,
    H: Fn(u32, u32, u32) -> u32,
>(
    predictions: Seq<u32>,
    max_x: u32,
    max_y: u32,
    scoring: &Scoring<B, M, K, L, H>,
    n: int,
    found: Seq<Candidate>,
) -> bool
    decreases n,
{
    if n <= 0 {
        found.len() == 0
    } else {
        let row = predictions.subrange(85 * (n - 1), 85 * n);
        ||| {
            &&& rows_give(predictions, max_x, max_y, scoring, n - 1, found)
            &&& row_gives(row, max_x, max_y, scoring, None)
        }
        ||| {
            &&& found.len() > 0
            &&& rows_give(predictions, max_x, max_y, scoring, n - 1, found.drop_last())
            &&& row_gives(row, max_x, max_y, scoring, Some(found.last()))
        }
    }
}

/// Reads every row of predictions; nothing comes back where the last one is cut short.
pub fn read_rows<
    B: Fn(u32, u32) -> bool,
    M: Fn(u32, u32) -> u32,
    K: Fn(u32, [u32; 4]) -> bool,
    L: Fn(u32, u32, u32) -> u32,
    H: Fn(u32, u32, u32) -> u32,
>(predictions: &[u32], max_x: u32, max_y: u32, scoring: &Scoring<B, M, K, L, H>) -> (r: Option<
    Vec<Candidate>,
>)
    requires
        scoring_ready(scoring),
    ensures
        match r {
            Some(found) => {
                &&& predictions@.len() % 85 == 0
                &&& rows_give(
                    predictions@,
                    max_x,
                    max_y,
                    scoring,
                    predictions@.len() as int / 85,
                    found@,
                )
                &&& forall|i: int| 0 <= i < found@.len() ==> box_ok(#[trigger] found@[i])
            },
            None => predictions@.len() % 85 != 0,
        },
{
    let total: usize = predictions.len();
    if total % ATTRIBUTES != 0 {
        return None;
    }
    let rows: usize = total / ATTRIBUTES;
    let mut found: Vec<Candidate> = Vec::new();
    let mut n: usize = 0;
    while n < rows
        invariant
            n <= rows,
            total == predictions@.len(),
            total == 85 * rows,
            scoring_ready(scoring),
            rows_give(predictions@, max_x, max_y, scoring, n as int, found@),
            forall|i: int| 0 <= i < found@.len() ==> box_ok(#[trigger] found@[i]),
        decreases rows - n,
    {
        let start: usize = ATTRIBUTES * n;
        let row: &[u32] = vstd::slice::slice_subrange(predictions, start, start + ATTRIBUTES);
        let ghost before = found@;
        let given: Option<Candidate> = read_row(row, max_x, max_y, scoring);
        match given {
            Some(candidate) => {
                found.push(candidate);
                assert(found@.drop_last() =~= before);
            },
            None => {},
        }
        assert(row@ == predictions@.subrange(85 * ((n + 1) - 1), 85 * (n + 1)));
        assert(rows_give(predictions@, max_x, max_y, scoring, n + 1, found@));
        n = n + 1;
    }
    Some(found)
}

/// The scores of the candidates.
pub open spec fn scores_of(candidates: Seq<Candidate>) -> Seq<u32> {
    Seq::new(candidates.len(), |i: int| candidates[i].score)
}

/// The candidates in order: the highest score first, and of equal ones the earlier.
pub fn by_score(candidates: &Vec<Candidate>) -> (r: Vec<usize>)
    ensures
        r@.len() == candidates@.len(),
        crate::backend::topk::ranked(
            scores_of(candidates@),
            true,
            r@,
            candidates@.len() as int,
        ),
        forall|j: int|
            0 <= j < candidates@.len() ==> #[trigger] crate::backend::topk::is_chosen(r@, j),
{
    let mut scores: Vec<u32> = Vec::new();
    let mut i: usize = 0;
    while i < candidates.len()
        invariant
            i <= candidates@.len(),
            scores@ =~= scores_of(candidates@).take(i as int),
        decreases candidates@.len() - i,
    {
        scores.push(candidates[i].score);
        i = i + 1;
    }
    assert(scores@ =~= scores_of(candidates@));
    choose_top(&scores, scores.len(), true)
}

/// Of the boxes that are kept, none hides a later one.
pub proof fn kept_boxes_spare_each_other<F: Fn(Overlap) -> bool>(
    candidates: Seq<Candidate>,
    order: Seq<usize>,
    too_much: &F,
    n: int,
    kept: Seq<usize>,
    i: int,
    j: int,
)
    requires
        thinned(candidates, order, too_much, n, kept),
        0 <= i < j < kept.len(),
    ensures
        spares(candidates, too_much, kept[i], kept[j] as int),
    decreases n,
{
    if n > 0 {
        let next = order[n - 1];
        if kept.last() == next && thinned(candidates, order, too_much, n - 1, kept.drop_last())
            && (forall|k: int|
            0 <= k < kept.len() - 1 ==> #[trigger] spares(
                candidates,
                too_much,
                kept[k],
                next as int,
            )) {
            let shorter = kept.drop_last();
            if j < kept.len() - 1 {
                kept_boxes_spare_each_other(candidates, order, too_much, n - 1, shorter, i, j);
                assert(shorter[i] == kept[i] && shorter[j] == kept[j]);
            }
        } else {
            kept_boxes_spare_each_other(candidates, order, too_much, n - 1, kept, i, j);
        }
    }
}

/// A kept box stands among the first `n` candidates in order.
proof fn kept_boxes_are_candidates<F: Fn(Overlap) -> bool>(
    candidates: Seq<Candidate>,
    order: Seq<usize>,
    too_much: &F,
    n: int,
    kept: Seq<usize>,
    k: int,
)
    requires
        thinned(candidates, order, too_much, n, kept),
        0 <= k < kept.len(),
    ensures
        exists|p: int| 0 <= p < n && #[trigger] order[p] == kept[k],
    decreases n,
{
    if n > 0 {
        if thinned(candidates, order, too_much, n - 1, kept) {
            kept_boxes_are_candidates(candidates, order, too_much, n - 1, kept, k);
        } else if k < kept.len() - 1 {
            let shorter = kept.drop_last();
            kept_boxes_are_candidates(candidates, order, too_much, n - 1, shorter, k);
            assert(shorter[k] == kept[k]);
        } else {
            assert(order[n - 1] == kept[k]);
        }
    }
}

/// A box that is not kept is hidden by one of its class that stands before it and is.
pub proof fn dropped_boxes_are_hidden<F: Fn(Overlap) -> bool>(
    candidates: Seq<Candidate>,
    order: Seq<usize>,
    too_much: &F,
    n: int,
    kept: Seq<usize>,
    i: int,
)
    requires
        thinned(candidates, order, too_much, n, kept),
        0 <= i < n,
        !kept.contains(order[i]),
    ensures
        exists|k: int, p: int|
            {
                &&& 0 <= k < kept.len()
                &&& 0 <= p < i
                &&& #[trigger] order[p] == kept[k]
                &&& #[trigger] hides(candidates, too_much, kept[k], order[i] as int)
            },
    decreases n,
{
    let next = order[n - 1];
    if kept.len() > 0 && kept.last() == next && thinned(
        candidates,
        order,
        too_much,
        n - 1,
        kept.drop_last(),
    ) {
        let shorter = kept.drop_last();
        assert(kept[kept.len() - 1] == next);
        if shorter.contains(order[i]) {
            let k = choose|k: int| 0 <= k < shorter.len() && shorter[k] == order[i];
            assert(kept[k] == order[i]);
        }
        dropped_boxes_are_hidden(candidates, order, too_much, n - 1, shorter, i);
        let (k, p) = choose|k: int, p: int|
            {
                &&& 0 <= k < shorter.len()
                &&& 0 <= p < i
                &&& #[trigger] order[p] == shorter[k]
                &&& #[trigger] hides(candidates, too_much, shorter[k], order[i] as int)
            };
        assert(kept[k] == shorter[k]);
        assert(hides(candidates, too_much, kept[k], order[i] as int));
    } else if i == n - 1 {
        let k = choose|k: int|
            0 <= k < kept.len() && #[trigger] hides(candidates, too_much, kept[k], next as int);
        kept_boxes_are_candidates(candidates, order, too_much, n - 1, kept, k);
        let p = choose|p: int| 0 <= p < n - 1 && #[trigger] order[p] == kept[k];
        assert(hides(candidates, too_much, kept[k], order[i] as int));
    } else {
        dropped_boxes_are_hidden(candidates, order, too_much, n - 1, kept, i);
    }
}

/// The boxes that predictions give: the candidates of the rows, the highest score first,
/// without those that a box kept before hides.
pub open spec fn boxes_found<
    B: Fn(u32, u32) -> bool,
    M: Fn(u32, u32) -> u32,
    K: Fn(u32, [u32; 4]) -> bool,
    L: Fn(u32, u32, u32) -> u32,
    H: Fn(u32, u32, u32) -> u32,
    F: Fn(Overlap) -> bool,
>(
    predictions: Seq<u32>,
    max_x: u32,
    max_y: u32,
    scoring: &Scoring<B, M, K, L, H>,
    too_much: &F,
    boxes: Seq<Candidate>,
) -> bool {
    exists|found: Seq<Candidate>, order: Seq<usize>, kept: Seq<usize>|
        {
            &&& rows_give(
                predictions,
                max_x,
                max_y,
                scoring,
                predictions.len() as int / 85,
                found,
            )
            &&& order.len() == found.len()
            &&& crate::backend::topk::ranked(scores_of(found), true, order, found.len() as int)
            &&& forall|j: int|
                0 <= j < found.len() ==> #[trigger] crate::backend::topk::is_chosen(order, j)
            &&& #[trigger] thinned(found, order, too_much, order.len() as int, kept)
            &&& boxes == Seq::new(kept.len(), |i: int| found[kept[i] as int])
        }
}

/// Finds the boxes that predictions give; nothing comes back where the last row is cut
/// short.
pub fn find_boxes<
    B: Fn(u32, u32) -> bool,
    M: Fn(u32, u32) -> u32,
    K: Fn(u32, [u32; 4]) -> bool,
    L: Fn(u32, u32, u32) -> u32,
    H: Fn(u32, u32, u32) -> u32,
    F: Fn(Overlap) -> bool,
>(
    predictions: &[u32],
    max_x: u32,
    max_y: u32,
    scoring: &Scoring<B, M, K, L, H>,
    too_much: &F,
) -> (r: Option<Vec<Candidate>>)
    requires
        scoring_ready(scoring),
        forall|o: Overlap| #[trigger] too_much.requires((o,)),
    ensures
        match r {
            Some(boxes) => {
                &&& predictions@.len() % 85 == 0
                &&& boxes_found(predictions@, max_x, max_y, scoring, too_much, boxes@)
                &&& forall|i: int| 0 <= i < boxes@.len() ==> box_ok(#[trigger] boxes@[i])
            },
            None => predictions@.len() % 85 != 0,
        },
{
    let found: Vec<Candidate> = read_rows(predictions, max_x, max_y, scoring)?;
    let order: Vec<usize> = by_score(&found);
    let kept: Vec<usize> = thin_out(&found, &order, too_much);
    let mut boxes: Vec<Candidate> = Vec::new();
    let mut i: usize = 0;
    while i < kept.len()
        invariant
            i <= kept@.len(),
            forall|j: int| 0 <= j < kept@.len() ==> #[trigger] kept@[j] < found@.len(),
            forall|j: int| 0 <= j < found@.len() ==> box_ok(#[trigger] found@[j]),
            forall|j: int| 0 <= j < boxes@.len() ==> box_ok(#[trigger] boxes@[j]),
            boxes@ =~= Seq::new(i as nat, |j: int| found@[kept@[j] as int]),
        decreases kept@.len() - i,
    {
        boxes.push(found[kept[i]]);
        i = i + 1;
    }
    assert(thinned(found@, order@, too_much, order@.len() as int, kept@));
    Some(boxes)
}

/// A pixel on the border of a box.
pub open spec fn on_border(frame: Candidate, x: u32, y: u32) -> bool {
    ||| frame.x1 <= x <= frame.x2 && (y == frame.y1 || y == frame.y2)
    ||| frame.y1 <= y <= frame.y2 && (x == frame.x1 || x == frame.x2)
}

/// The pixels of both edges in a column are there.
spec fn holds_column(pixels: Seq<(u32, u32)>, frame: Candidate, x: u32) -> bool {
    pixels.contains((x, frame.y1)) && pixels.contains((x, frame.y2))
}

/// The pixels of both edges in a line are there.
spec fn holds_line(pixels: Seq<(u32, u32)>, frame: Candidate, y: u32) -> bool {
    pixels.contains((frame.x1, y)) && pixels.contains((frame.x2, y))
}

/// The pixels on the border of a box.
pub fn border(frame: &Candidate) -> (r: Vec<(u32, u32)>)
    requires
        box_ok(*frame),
    ensures
        forall|x: u32, y: u32| #[trigger] r@.contains((x, y)) <==> on_border(*frame, x, y),
{
    let mut pixels: Vec<(u32, u32)> = Vec::new();
    let mut x: u32 = frame.x1;
    loop
        invariant
            frame.x1 <= x <= frame.x2,
            box_ok(*frame),
            forall|i: int|
                0 <= i < pixels@.len() ==> on_border(
                    *frame,
                    (#[trigger] pixels@[i]).0,
                    pixels@[i].1,
                ),
            forall|a: u32|
                frame.x1 <= a < x ==> #[trigger] holds_column(pixels@, *frame, a),
        ensures
            forall|i: int|
                0 <= i < pixels@.len() ==> on_border(
                    *frame,
                    (#[trigger] pixels@[i]).0,
                    pixels@[i].1,
                ),
            forall|a: u32|
                frame.x1 <= a <= frame.x2 ==> #[trigger] holds_column(pixels@, *frame, a),
        decreases frame.x2 - x,
    {
        let ghost before = pixels@;
        pixels.push((x, frame.y1));
        pixels.push((x, frame.y2));
        proof {
            pushed_pair(before, (x, frame.y1), (x, frame.y2));
            assert forall|a: u32| frame.x1 <= a <= x implies #[trigger] holds_column(
                pixels@,
                *frame,
                a,
            ) by {
                if a < x {
                    assert(holds_column(before, *frame, a));
                }
            }
        }
        if x == frame.x2 {
            break;
        }
        x = x + 1;
    }
    let ghost across = pixels@;
    let mut y: u32 = frame.y1;
    loop
        invariant
            frame.y1 <= y <= frame.y2,
            box_ok(*frame),
            forall|i: int|
                0 <= i < pixels@.len() ==> on_border(
                    *frame,
                    (#[trigger] pixels@[i]).0,
                    pixels@[i].1,
                ),
            forall|p: (u32, u32)| across.contains(p) ==> #[trigger] pixels@.contains(p),
            forall|b: u32|
                frame.y1 <= b < y ==> #[trigger] holds_line(pixels@, *frame, b),
        ensures
            forall|i: int|
                0 <= i < pixels@.len() ==> on_border(
                    *frame,
                    (#[trigger] pixels@[i]).0,
                    pixels@[i].1,
                ),
            forall|p: (u32, u32)| across.contains(p) ==> #[trigger] pixels@.contains(p),
            forall|b: u32|
                frame.y1 <= b <= frame.y2 ==> #[trigger] holds_line(pixels@, *frame, b),
        decreases frame.y2 - y,
    {
        let ghost before = pixels@;
        pixels.push((frame.x1, y));
        pixels.push((frame.x2, y));
        proof {
            pushed_pair(before, (frame.x1, y), (frame.x2, y));
            assert forall|b: u32| frame.y1 <= b <= y implies #[trigger] holds_line(
                pixels@,
                *frame,
                b,
            ) by {
                if b < y {
                    assert(holds_line(before, *frame, b));
                }
            }
        }
        if y == frame.y2 {
            break;
        }
        y = y + 1;
    }
    assert forall|a: u32, b: u32| #[trigger] pixels@.contains((a, b)) <==> on_border(
        *frame,
        a,
        b,
    ) by {
        if on_border(*frame, a, b) {
            if frame.x1 <= a <= frame.x2 && (b == frame.y1 || b == frame.y2) {
                assert(holds_column(across, *frame, a));
            } else {
                assert(holds_line(pixels@, *frame, b));
            }
        }
    }
    pixels
}

proof fn pushed_pair(before: Seq<(u32, u32)>, first: (u32, u32), second: (u32, u32))
    ensures
        forall|p: (u32, u32)|
            before.contains(p) ==> #[trigger] before.push(first).push(second).contains(p),
        before.push(first).push(second).contains(first),
        before.push(first).push(second).contains(second),
{
    let after = before.push(first).push(second);
    assert(after[before.len() as int] == first);
    assert(after[before.len() as int + 1] == second);
    assert forall|p: (u32, u32)| before.contains(p) implies #[trigger] after.contains(p) by {
        let i = choose|i: int| 0 <= i < before.len() && before[i] == p;
        assert(after[i] == p);
    }
}

/// What the arguments ask for.
#[derive(Clone, Copy, PartialEq, Eq, Debug)]
pub enum Demand {
    /// Detect objects, or join two tensors where `join` is set.
    Run {
        /// Join two tensors.
        join: bool,
    },
    /// Say how the program is used.
    Help,
    /// The numbered argument is not known.
    Unknown(usize),
}

/// What the arguments from `at` on ask for.
pub open spec fn demand_from(args: Seq<Seq<char>>, at: int, join: bool) -> Demand
    decreases args.len() - at,
{
    if at >= args.len() {
        Demand::Run { join }
    } else if args[at] == "-t"@ {
        demand_from(args, at + 1, true)
    } else if args[at] == "-h"@ || args[at] == "--help"@ {
        Demand::Help
    } else {
        Demand::Unknown(at as usize)
    }
}

/// Reads the arguments.
pub fn parse_test_flag(args: &Vec<String>) -> (r: Demand)
    ensures
        r == demand_from(Seq::new(args@.len(), |i: int| args@[i]@), 0, false),
{
    let ghost texts = Seq::new(args@.len(), |i: int| args@[i]@);
    let mut join: bool = false;
    let mut at: usize = 0;
    while at < args.len()
        invariant
            at <= args@.len(),
            texts == Seq::new(args@.len(), |i: int| args@[i]@),
            demand_from(texts, 0, false) == demand_from(texts, at as int, join),
        decreases args@.len() - at,
    {
        let arg: &str = args[at].as_str();
        assert(texts[at as int] == arg@);
        if same_text(arg, "-t") {
            join = true;
        } else if same_text(arg, "-h") || same_text(arg, "--help") {
            return Demand::Help;
        } else {
            return Demand::Unknown(at);
        }
        at = at + 1;
    }
    Demand::Run { join }
}

/// The pixels of a box: its right and lower edges do not belong to it.
pub open spec fn pixels(frame: Candidate) -> Set<(int, int)> {
    Set::new(|p: (int, int)| frame.x1 <= p.0 < frame.x2 && frame.y1 <= p.1 < frame.y2)
}

/// Whole lines from `y1` to `y2`, and the first `k` pixels of the line below.
spec fn bricks(x1: int, x2: int, y1: int, y2: int, k: int) -> Set<(int, int)> {
    Set::new(
        |p: (int, int)|
            x1 <= p.0 < x2 && y1 <= p.1 && (p.1 < y2 || (p.1 == y2 && p.0 < x1 + k)),
    )
}

proof fn bricks_counted(x1: int, x2: int, y1: int, y2: int, k: int)
    requires
        x1 <= x2,
        y1 <= y2,
        0 <= k <= x2 - x1,
    ensures
        bricks(x1, x2, y1, y2, k).finite(),
        bricks(x1, x2, y1, y2, k).len() == (x2 - x1) * (y2 - y1) + k,
    decreases y2 - y1, k,
{
    let all = bricks(x1, x2, y1, y2, k);
    if k > 0 {
        bricks_counted(x1, x2, y1, y2, k - 1);
        let last = (x1 + k - 1, y2);
        assert(all =~= bricks(x1, x2, y1, y2, k - 1).insert(last));
    } else if y1 < y2 {
        bricks_counted(x1, x2, y1, y2 - 1, x2 - x1);
        assert(all =~= bricks(x1, x2, y1, y2 - 1, x2 - x1));
        assert((x2 - x1) * (y2 - y1) == (x2 - x1) * (y2 - 1 - y1) + (x2 - x1))
            by (nonlinear_arith);
    } else {
        assert(all =~= Set::empty());
        assert((x2 - x1) * 0 == 0) by (nonlinear_arith);
    }
}

/// What is measured of two boxes is what their pixels say: the columns and the lines that
/// both have, and the number of pixels in both and in each.
pub proof fn overlap_counts_pixels(a: Candidate, b: Candidate)
    requires
        box_ok(a),
        box_ok(b),
    ensures
        overlap_of(a, b).shared_width == vstd::set_lib::set_int_range(
            a.x1 as int,
            a.x2 as int,
        ).intersect(vstd::set_lib::set_int_range(b.x1 as int, b.x2 as int)).len(),
        overlap_of(a, b).shared_height == vstd::set_lib::set_int_range(
            a.y1 as int,
            a.y2 as int,
        ).intersect(vstd::set_lib::set_int_range(b.y1 as int, b.y2 as int)).len(),
        overlap_of(a, b).shared_width * overlap_of(a, b).shared_height == pixels(a).intersect(
            pixels(b),
        ).len(),
        overlap_of(a, b).width * overlap_of(a, b).height == pixels(a).len(),
        overlap_of(a, b).kept_width * overlap_of(a, b).kept_height == pixels(b).len(),
        pixels(a).finite() && pixels(b).finite(),
{
    range_shared(a.x1 as int, a.x2 as int, b.x1 as int, b.x2 as int);
    range_shared(a.y1 as int, a.y2 as int, b.y1 as int, b.y2 as int);
    let left = larger_of(a.x1 as int, b.x1 as int);
    let right = larger_of(left, smaller_of(a.x2 as int, b.x2 as int));
    let above = larger_of(a.y1 as int, b.y1 as int);
    let below = larger_of(above, smaller_of(a.y2 as int, b.y2 as int));
    bricks_counted(left, right, above, below, 0);
    assert(pixels(a).intersect(pixels(b)) =~= bricks(left, right, above, below, 0));
    bricks_counted(a.x1 as int, a.x2 as int, a.y1 as int, a.y2 as int, 0);
    assert(pixels(a) =~= bricks(a.x1 as int, a.x2 as int, a.y1 as int, a.y2 as int, 0));
    bricks_counted(b.x1 as int, b.x2 as int, b.y1 as int, b.y2 as int, 0);
    assert(pixels(b) =~= bricks(b.x1 as int, b.x2 as int, b.y1 as int, b.y2 as int, 0));
}

spec fn larger_of(a: int, b: int) -> int {
    if a > b {
        a
    } else {
        b
    }
}

spec fn smaller_of(a: int, b: int) -> int {
    if a < b {
        a
    } else {
        b
    }
}

proof fn range_shared(a1: int, a2: int, b1: int, b2: int)
    ensures
        vstd::set_lib::set_int_range(a1, a2).intersect(vstd::set_lib::set_int_range(b1, b2)).len()
            == larger_of(0, smaller_of(a2, b2) - larger_of(a1, b1)),
{
    let low = larger_of(a1, b1);
    let high = larger_of(low, smaller_of(a2, b2));
    vstd::set_lib::lemma_int_range(low, high);
    assert(vstd::set_lib::set_int_range(a1, a2).intersect(vstd::set_lib::set_int_range(b1, b2))
        =~= vstd::set_lib::set_int_range(low, high));
}

/// Boxes apart on one axis share nothing, a box shares all of itself with itself, and it
/// does not matter which of two boxes comes first.
pub proof fn overlap_is_shared_evenly(a: Candidate, b: Candidate)
    requires
        box_ok(a),
        box_ok(b),
    ensures
        a.x2 <= b.x1 || b.x2 <= a.x1 || a.y2 <= b.y1 || b.y2 <= a.y1 <==> overlap_of(
            a,
            b,
        ).shared_width * overlap_of(a, b).shared_height == 0,
        overlap_of(a, a).shared_width == a.x2 - a.x1,
        overlap_of(a, a).shared_height == a.y2 - a.y1,
        overlap_of(a, b).shared_width == overlap_of(b, a).shared_width,
        overlap_of(a, b).shared_height == overlap_of(b, a).shared_height,
        overlap_of(a, b).width == overlap_of(b, a).kept_width,
        overlap_of(a, b).height == overlap_of(b, a).kept_height,
{
    let w = overlap_of(a, b).shared_width as int;
    let h = overlap_of(a, b).shared_height as int;
    assert(w * h == 0 <==> w == 0 || h == 0) by (nonlinear_arith)
        requires
            w >= 0,
            h >= 0,
    ;
}

/// The decision about two boxes goes by how many pixels they share and how many each has.
pub open spec fn decides_by_pixels<F: Fn(Overlap) -> bool>(
    too_much: &F,
    limit: spec_fn(int, int, int) -> bool,
) -> bool {
    forall|o: Overlap, r: bool| #[trigger]
        too_much.ensures((o,), r) ==> r == limit(
            o.shared_width * o.shared_height,
            o.width * o.height,
            o.kept_width * o.kept_height,
        )
}

/// A box and another that share too many pixels.
pub open spec fn crowd(limit: spec_fn(int, int, int) -> bool, a: Candidate, b: Candidate) -> bool {
    limit(
        pixels(a).intersect(pixels(b)).len() as int,
        pixels(a).len() as int,
        pixels(b).len() as int,
    )
}

/// What is found in predictions: of each class, boxes that do not share too many pixels
/// with one another, the highest score first; and every candidate that is not among them
/// shares too many with one of its class that is, and that scores as high or higher.
pub proof fn found_boxes_do_not_crowd<
    B: Fn(u32, u32) -> bool,
    M: Fn(u32, u32) -> u32,
    K: Fn(u32, [u32; 4]) -> bool,
    L: Fn(u32, u32, u32) -> u32,
    H: Fn(u32, u32, u32) -> u32,
    F: Fn(Overlap) -> bool,
>(
    predictions: Seq<u32>,
    max_x: u32,
    max_y: u32,
    scoring: &Scoring<B, M, K, L, H>,
    too_much: &F,
    limit: spec_fn(int, int, int) -> bool,
    boxes: Seq<Candidate>,
) -> (found: Seq<Candidate>)
    requires
        boxes_found(predictions, max_x, max_y, scoring, too_much, boxes),
        decides_by_pixels(too_much, limit),
    ensures
        rows_give(predictions, max_x, max_y, scoring, predictions.len() as int / 85, found),
        forall|j: int| 0 <= j < boxes.len() ==> found.contains(#[trigger] boxes[j]),
        forall|i: int, j: int|
            0 <= i < j < boxes.len() ==> crate::backend::topk::ordinal((#[trigger] boxes[i]).score)
                >= crate::backend::topk::ordinal((#[trigger] boxes[j]).score) && (boxes[i].class
                == boxes[j].class ==> !crowd(limit, boxes[j], boxes[i])),
        forall|k: int|
            0 <= k < found.len() ==> boxes.contains(#[trigger] found[k]) || exists|j: int|
                {
                    &&& 0 <= j < boxes.len()
                    &&& (#[trigger] boxes[j]).class == found[k].class
                    &&& crate::backend::topk::ordinal(boxes[j].score)
                        >= crate::backend::topk::ordinal(found[k].score)
                    &&& crowd(limit, found[k], boxes[j])
                },
{
    let (found, order, kept) = choose|found: Seq<Candidate>, order: Seq<usize>, kept: Seq<usize>|
        {
            &&& rows_give(
                predictions,
                max_x,
                max_y,
                scoring,
                predictions.len() as int / 85,
                found,
            )
            &&& order.len() == found.len()
            &&& crate::backend::topk::ranked(scores_of(found), true, order, found.len() as int)
            &&& forall|j: int|
                0 <= j < found.len() ==> #[trigger] crate::backend::topk::is_chosen(order, j)
            &&& #[trigger] thinned(found, order, too_much, order.len() as int, kept)
            &&& boxes == Seq::new(kept.len(), |i: int| found[kept[i] as int])
        };
    let n = order.len() as int;
    candidates_are_boxes(
        predictions,
        max_x,
        max_y,
        scoring,
        predictions.len() as int / 85,
        found,
    );
    assert forall|j: int| 0 <= j < boxes.len() implies found.contains(#[trigger] boxes[j])
        && kept[j] < found.len() by {
        kept_boxes_are_candidates(found, order, too_much, n, kept, j);
        let p = choose|p: int| 0 <= p < n && #[trigger] order[p] == kept[j];
        assert(order[p] < found.len());
        assert(boxes[j] == found[kept[j] as int]);
    }
    assert forall|i: int, j: int| 0 <= i < j < boxes.len() implies crate::backend::topk::ordinal(
        (#[trigger] boxes[i]).score,
    ) >= crate::backend::topk::ordinal((#[trigger] boxes[j]).score) && (boxes[i].class
        == boxes[j].class ==> !crowd(limit, boxes[j], boxes[i])) by {
        kept_boxes_spare_each_other(found, order, too_much, n, kept, i, j);
        kept_in_order(found, order, too_much, n, kept, i, j);
        let (p, q) = choose|p: int, q: int|
            0 <= p < q < n && #[trigger] order[p] == kept[i] && #[trigger] order[q] == kept[j];
        assert(order[p] < found.len() && order[q] < found.len());
        assert(crate::backend::topk::precedes(
            scores_of(found),
            true,
            order[p] as int,
            order[q] as int,
        ));
        assert(boxes[i] == found[kept[i] as int] && boxes[j] == found[kept[j] as int]);
        overlap_counts_pixels(boxes[j], boxes[i]);
    }
    assert forall|k: int| 0 <= k < found.len() implies boxes.contains(#[trigger] found[k])
        || exists|j: int|
        {
            &&& 0 <= j < boxes.len()
            &&& (#[trigger] boxes[j]).class == found[k].class
            &&& crate::backend::topk::ordinal(boxes[j].score) >= crate::backend::topk::ordinal(
                found[k].score,
            )
            &&& crowd(limit, found[k], boxes[j])
        } by {
        assert(crate::backend::topk::is_chosen(order, k));
        let i = choose|i: int| 0 <= i < order.len() && #[trigger] order[i] == k;
        if kept.contains(order[i]) {
            let j = choose|j: int| 0 <= j < kept.len() && kept[j] == order[i];
            assert(boxes[j] == found[k]);
        } else {
            dropped_boxes_are_hidden(found, order, too_much, n, kept, i);
            let (j, p) = choose|j: int, p: int|
                {
                    &&& 0 <= j < kept.len()
                    &&& 0 <= p < i
                    &&& #[trigger] order[p] == kept[j]
                    &&& #[trigger] hides(found, too_much, kept[j], order[i] as int)
                };
            assert(boxes[j] == found[kept[j] as int]);
            assert(order[p] < found.len());
            assert(crate::backend::topk::precedes(
                scores_of(found),
                true,
                order[p] as int,
                order[i] as int,
            ));
            overlap_counts_pixels(found[k], boxes[j]);
            assert(crowd(limit, found[k], boxes[j]));
        }
    }
    found
}

/// Kept boxes stand in the order of the candidates.
proof fn kept_in_order<F: Fn(Overlap) -> bool>(
    candidates: Seq<Candidate>,
    order: Seq<usize>,
    too_much: &F,
    n: int,
    kept: Seq<usize>,
    i: int,
    j: int,
)
    requires
        thinned(candidates, order, too_much, n, kept),
        0 <= i < j < kept.len(),
    ensures
        exists|p: int, q: int|
            0 <= p < q < n && #[trigger] order[p] == kept[i] && #[trigger] order[q] == kept[j],
    decreases n,
{
    if n > 0 {
        if thinned(candidates, order, too_much, n - 1, kept) {
            kept_in_order(candidates, order, too_much, n - 1, kept, i, j);
        } else {
            let shorter = kept.drop_last();
            assert(shorter[i] == kept[i]);
            if j < kept.len() - 1 {
                assert(shorter[j] == kept[j]);
                kept_in_order(candidates, order, too_much, n - 1, shorter, i, j);
            } else {
                kept_boxes_are_candidates(candidates, order, too_much, n - 1, shorter, i);
                let p = choose|p: int| 0 <= p < n - 1 && #[trigger] order[p] == shorter[i];
                assert(order[p] == kept[i] && order[n - 1] == kept[j]);
            }
        }
    }
}

/// Candidates are boxes that are not empty.
proof fn candidates_are_boxes<
    B: Fn(u32, u32) -> bool,
    M: Fn(u32, u32) -> u32,
    K: Fn(u32, [u32; 4]) -> bool,
    L: Fn(u32, u32, u32) -> u32,
    H: Fn(u32, u32, u32) -> u32,
>(
    predictions: Seq<u32>,
    max_x: u32,
    max_y: u32,
    scoring: &Scoring<B, M, K, L, H>,
    n: int,
    found: Seq<Candidate>,
)
    requires
        rows_give(predictions, max_x, max_y, scoring, n, found),
    ensures
        forall|i: int| 0 <= i < found.len() ==> box_ok(#[trigger] found[i]),
    decreases n,
{
    if n > 0 {
        if rows_give(predictions, max_x, max_y, scoring, n - 1, found) {
            candidates_are_boxes(predictions, max_x, max_y, scoring, n - 1, found);
        } else {
            let shorter = found.drop_last();
            candidates_are_boxes(predictions, max_x, max_y, scoring, n - 1, shorter);
            assert forall|i: int| 0 <= i < found.len() implies box_ok(#[trigger] found[i]) by {
                if i < found.len() - 1 {
                    assert(shorter[i] == found[i]);
                }
            }
        }
    }
}

/// Where a class score counts by its value, the best class is the first with the highest
/// score that counts, or the first of all where none is above zero.
pub proof fn best_class_is_highest<B: Fn(u32, u32) -> bool>(
    row: Seq<u32>,
    better: &B,
    counts: spec_fn(u32) -> bool,
    value: spec_fn(u32) -> int,
    n: int,
    class: int,
    score: u32,
)
    requires
        forall|a: u32, b: u32, r: bool| #[trigger]
            better.ensures((a, b), r) ==> r == (counts(a) && value(a) > value(b)),
        best_class(row, better, n, class, score),
        n >= 0,
    ensures
        value(score) >= value(0),
        forall|c: int|
            0 <= c < n && counts(#[trigger] row[5 + c]) ==> value(row[5 + c]) <= value(score),
        (class == 0 && score == 0) || {
            &&& 0 <= class < n
            &&& score == row[5 + class]
            &&& counts(score)
            &&& value(score) > value(0)
            &&& forall|c: int|
                0 <= c < class && counts(#[trigger] row[5 + c]) ==> value(row[5 + c])
                    < value(score)
        },
    decreases n,
{
    if n > 0 {
        let (c, s) = choose|c: int, s: u32|
            {
                &&& best_class(row, better, n - 1, c, s)
                &&& #[trigger] class_taken(better, (c, s), n - 1, row[5 + n - 1], (class, score))
            };
        best_class_is_highest(row, better, counts, value, n - 1, c, s);
        assert(row[5 + (n - 1)] == row[5 + n - 1]);
    }
}

/// The box of a row lies around the centre that the row names: left and right edge follow
/// from the first and the third number, upper and lower edge from the second and the fourth.
/// Its score is the confidence, the fifth number, times the score of its class.
pub proof fn row_box_lies_around_its_centre<
    B: Fn(u32, u32) -> bool,
    M: Fn(u32, u32) -> u32,
    K: Fn(u32, [u32; 4]) -> bool,
    L: Fn(u32, u32, u32) -> u32,
    H: Fn(u32, u32, u32) -> u32,
>(
    row: Seq<u32>,
    max_x: u32,
    max_y: u32,
    scoring: &Scoring<B, M, K, L, H>,
    times: spec_fn(u32, u32) -> u32,
    edge: spec_fn(u32, u32, u32, bool) -> u32,
    found: Candidate,
) -> (class_score: u32)
    requires
        row.len() == ATTRIBUTES,
        row_gives(row, max_x, max_y, scoring, Some(found)),
        forall|a: u32, b: u32, r: u32| #[trigger]
            scoring.multiply.ensures((a, b), r) ==> r == times(a, b),
        forall|centre: u32, extent: u32, limit: u32, r: u32| #[trigger]
            scoring.low.ensures((centre, extent, limit), r) ==> r == edge(
                centre,
                extent,
                limit,
                false,
            ),
        forall|centre: u32, extent: u32, limit: u32, r: u32| #[trigger]
            scoring.high.ensures((centre, extent, limit), r) ==> r == edge(
                centre,
                extent,
                limit,
                true,
            ),
    ensures
        found.x1 == edge(row[0], row[2], max_x, false),
        found.x2 == edge(row[0], row[2], max_x, true),
        found.y1 == edge(row[1], row[3], max_y, false),
        found.y2 == edge(row[1], row[3], max_y, true),
        found.score == times(row[4], class_score),
        found.class < 80,
        best_class(row, &scoring.better, 80, found.class as int, class_score),
        scoring.keep.ensures((found.score, [row[0], row[1], row[2], row[3]]), true),
{
    let (class, class_score, score) = choose|class: int, class_score: u32, score: u32|
        {
            &&& #[trigger] best_class(row, &scoring.better, 80, class, class_score)
            &&& #[trigger] scoring.multiply.ensures((row[4], class_score), score)
            &&& box_given(row, max_x, max_y, scoring, class, score, Some(found))
        };
    class_in_range(row, &scoring.better, 80, class, class_score);
    class_score
}

proof fn class_in_range<B: Fn(u32, u32) -> bool>(
    row: Seq<u32>,
    better: &B,
    n: int,
    class: int,
    score: u32,
)
    requires
        best_class(row, better, n, class, score),
        n >= 0,
    ensures
        class == 0 || 0 <= class < n,
    decreases n,
{
    if n > 0 {
        let (c, s) = choose|c: int, s: u32|
            {
                &&& best_class(row, better, n - 1, c, s)
                &&& #[trigger] class_taken(better, (c, s), n - 1, row[5 + n - 1], (class, score))
            };
        class_in_range(row, better, n - 1, c, s);
    }
}


/// Row `k` of the predictions: 85 numbers.
pub open spec fn row_of(predictions: Seq<u32>, k: int) -> Seq<u32> {
    Seq::new(85, |i: int| predictions[85 * k + i])
}

/// Rows are read one after another, and none is passed over: the candidates come from rows in
/// order, and every row without one gives none.
pub proof fn rows_are_read_in_turn<
    B: Fn(u32, u32) -> bool,
    M: Fn(u32, u32) -> u32,
    K: Fn(u32, [u32; 4]) -> bool,
    L: Fn(u32, u32, u32) -> u32,
    H: Fn(u32, u32, u32) -> u32,
>(
    predictions: Seq<u32>,
    max_x: u32,
    max_y: u32,
    scoring: &Scoring<B, M, K, L, H>,
    n: int,
    found: Seq<Candidate>,
) -> (from: Seq<int>)
    requires
        0 <= n,
        85 * n <= predictions.len(),
        rows_give(predictions, max_x, max_y, scoring, n, found),
    ensures
        from.len() == found.len(),
        forall|p: int|
            0 <= p < from.len() ==> 0 <= #[trigger] from[p] < n && row_gives(
                row_of(predictions, from[p]),
                max_x,
                max_y,
                scoring,
                Some(found[p]),
            ),
        forall|p: int, q: int|
            0 <= p < q < from.len() ==> #[trigger] from[p] < #[trigger] from[q],
        forall|k: int|
            0 <= k < n && !from.contains(k) ==> row_gives(
                #[trigger] row_of(predictions, k),
                max_x,
                max_y,
                scoring,
                None,
            ),
    decreases n,
{
    if n <= 0 {
        Seq::empty()
    } else {
        let row = predictions.subrange(85 * (n - 1), 85 * n);
        assert(row =~= row_of(predictions, n - 1));
        if rows_give(predictions, max_x, max_y, scoring, n - 1, found) && row_gives(
            row,
            max_x,
            max_y,
            scoring,
            None,
        ) {
            rows_are_read_in_turn(predictions, max_x, max_y, scoring, n - 1, found)
        } else {
            let before = rows_are_read_in_turn(
                predictions,
                max_x,
                max_y,
                scoring,
                n - 1,
                found.drop_last(),
            );
            let from = before.push(n - 1);
            assert forall|p: int| 0 <= p < from.len() implies 0 <= #[trigger] from[p] < n
                && row_gives(
                row_of(predictions, from[p]),
                max_x,
                max_y,
                scoring,
                Some(found[p]),
            ) by {
                if p < before.len() {
                    assert(before[p] == from[p]);
                    assert(found.drop_last()[p] == found[p]);
                }
            }
            assert forall|p: int, q: int| 0 <= p < q < from.len() implies #[trigger] from[p]
                < #[trigger] from[q] by {
                assert(before[p] == from[p]);
                if q < before.len() {
                    assert(before[q] == from[q]);
                }
            }
            assert forall|k: int| 0 <= k < n && !from.contains(k) implies row_gives(
                #[trigger] row_of(predictions, k),
                max_x,
                max_y,
                scoring,
                None,
            ) by {
                assert(from[from.len() - 1] == n - 1);
                if before.contains(k) {
                    let p = choose|p: int| 0 <= p < before.len() && before[p] == k;
                    assert(from[p] == k);
                }
            }
            from
        }
    }
}

/// The border of a box is what of the box does not lie strictly within it.
pub proof fn border_is_around_the_inside(frame: Candidate, x: u32, y: u32)
    requires
        box_ok(frame),
    ensures
        on_border(frame, x, y) <==> (frame.x1 <= x <= frame.x2 && frame.y1 <= y <= frame.y2)
            && !(frame.x1 < x < frame.x2 && frame.y1 < y < frame.y2),
{
}


/// The first argument that is not `-t` decides: help is given, or the argument is unknown.
/// Without such an argument the program runs, and `-t` may stand any number of times.
pub proof fn first_other_argument_decides(args: Seq<Seq<char>>, at: int, join: bool, first: int)
    requires
        0 <= at <= first <= args.len(),
        forall|i: int| at <= i < first ==> #[trigger] args[i] == "-t"@,
        first < args.len() ==> args[first] != "-t"@,
    ensures
        demand_from(args, at, join) == (if first == args.len() {
            Demand::Run { join: join || at < first }
        } else if args[first] == "-h"@ || args[first] == "--help"@ {
            Demand::Help
        } else {
            Demand::Unknown(first as usize)
        }),
    decreases first - at,
{
    if at < first {
        assert(args[at] == "-t"@);
        first_other_argument_decides(args, at + 1, true, first);
    }
}

} // verus!
