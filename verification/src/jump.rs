//! Finding the partner of a loop bracket.
//!
//! A loop is written `t` body `u`. Loops nest as parentheses do, so the
//! partner of a `t` is the first later `u` that is not used up by a `t` in
//! between, and the other way round.

use vstd::prelude::*;

verus! {

/// What a character adds to the nesting depth: `t` opens a loop, `u` closes one.
pub open spec fn weight(c: char) -> int {
    if c == 't' {
        1
    } else if c == 'u' {
        -1
    } else {
        0
    }
}

/// The number of `t` minus the number of `u` among the positions `lo <= i < hi`.
pub open spec fn net_opens(prog: Seq<char>, lo: int, hi: int) -> int
    decreases hi - lo,
{
    if hi <= lo {
        0
    } else {
        net_opens(prog, lo, hi - 1) + weight(prog[hi - 1])
    }
}

/// The nesting depth right after position `k`, counted from just behind `t_pos`.
pub open spec fn forward_depth(prog: Seq<char>, t_pos: int, k: int) -> int {
    net_opens(prog, t_pos + 1, k + 1)
}

/// The nesting depth right before position `k`, counted backwards from `u_pos`.
pub open spec fn backward_depth(prog: Seq<char>, u_pos: int, k: int) -> int {
    -net_opens(prog, k, u_pos)
}

/// Position `j` closes the loop opened at `t_pos`: it is the first position
/// behind `t_pos` at which the depth falls below where it started.
pub open spec fn closes(prog: Seq<char>, t_pos: int, j: int) -> bool {
    &&& 0 <= t_pos < j < prog.len()
    &&& forward_depth(prog, t_pos, j) == -1
    &&& forall|k: int| t_pos < k < j ==> #[trigger] forward_depth(prog, t_pos, k) >= 0
}

/// Position `i` opens the loop closed at `u_pos`: it is the last position
/// before `u_pos` at which the backward depth falls below where it started.
pub open spec fn opens(prog: Seq<char>, u_pos: int, i: int) -> bool {
    &&& 0 <= i < u_pos < prog.len()
    &&& backward_depth(prog, u_pos, i) == -1
    &&& forall|k: int| i < k < u_pos ==> #[trigger] backward_depth(prog, u_pos, k) >= 0
}

/// No position behind `t_pos` closes its loop.
pub open spec fn unclosed(prog: Seq<char>, t_pos: int) -> bool {
    forall|k: int| t_pos < k < prog.len() ==> #[trigger] forward_depth(prog, t_pos, k) >= 0
}

/// No position before `u_pos` opens its loop.
pub open spec fn unopened(prog: Seq<char>, u_pos: int) -> bool {
    forall|k: int| 0 <= k < u_pos ==> #[trigger] backward_depth(prog, u_pos, k) >= 0
}

/// Where a forward jump from `t_pos` lands: on the closing position, or on
/// the last position of the program when the loop is never closed.
pub open spec fn matching_close(prog: Seq<char>, t_pos: int) -> int {
    if exists|j: int| closes(prog, t_pos, j) {
        choose|j: int| closes(prog, t_pos, j)
    } else {
        prog.len() - 1
    }
}

/// Where a backward jump from `u_pos` lands: on the opening position, or on
/// position 0 when the loop was never opened.
pub open spec fn matching_open(prog: Seq<char>, u_pos: int) -> int {
    if exists|i: int| opens(prog, u_pos, i) {
        choose|i: int| opens(prog, u_pos, i)
    } else {
        0
    }
}

/// Counting over two adjoining ranges adds up.
pub proof fn lemma_net_opens_split(prog: Seq<char>, lo: int, mid: int, hi: int)
    requires
        lo <= mid <= hi,
    ensures
        net_opens(prog, lo, hi) == net_opens(prog, lo, mid) + net_opens(prog, mid, hi),
    decreases hi - mid,
{
    if mid < hi {
        lemma_net_opens_split(prog, lo, mid, hi - 1);
    }
}

/// A range of one position counts that position's weight.
pub proof fn lemma_net_opens_first(prog: Seq<char>, lo: int, hi: int)
    requires
        lo < hi,
    ensures
        net_opens(prog, lo, hi) == weight(prog[lo]) + net_opens(prog, lo + 1, hi),
{
    lemma_net_opens_split(prog, lo, lo + 1, hi);
    assert(net_opens(prog, lo, lo + 1) == net_opens(prog, lo, lo) + weight(prog[lo]));
}

/// A loop has at most one closing position.
pub proof fn lemma_closes_unique(prog: Seq<char>, t_pos: int, i: int, j: int)
    requires
        closes(prog, t_pos, i),
        closes(prog, t_pos, j),
    ensures
        i == j,
{
    if i < j {
        assert(forward_depth(prog, t_pos, i) >= 0);
    }
    if j < i {
        assert(forward_depth(prog, t_pos, j) >= 0);
    }
}

/// A loop has at most one opening position.
pub proof fn lemma_opens_unique(prog: Seq<char>, u_pos: int, i: int, j: int)
    requires
        opens(prog, u_pos, i),
        opens(prog, u_pos, j),
    ensures
        i == j,
{
    if i < j {
        assert(backward_depth(prog, u_pos, j) >= 0);
    }
    if j < i {
        assert(backward_depth(prog, u_pos, i) >= 0);
    }
}

/// The closing position of a loop holds a `u`, and is where the forward jump lands.
pub proof fn lemma_closing_position(prog: Seq<char>, t_pos: int, j: int)
    requires
        closes(prog, t_pos, j),
    ensures
        prog[j] == 'u',
        forward_depth(prog, t_pos, j - 1) == 0,
        matching_close(prog, t_pos) == j,
{
    if t_pos < j - 1 {
        assert(forward_depth(prog, t_pos, j - 1) >= 0);
    }
    assert(forward_depth(prog, t_pos, j) == forward_depth(prog, t_pos, j - 1) + weight(prog[j]));
    let found = choose|k: int| closes(prog, t_pos, k);
    lemma_closes_unique(prog, t_pos, found, j);
}

/// The opening position of a loop holds a `t`, and is where the backward jump lands.
pub proof fn lemma_opening_position(prog: Seq<char>, u_pos: int, i: int)
    requires
        opens(prog, u_pos, i),
    ensures
        prog[i] == 't',
        backward_depth(prog, u_pos, i + 1) == 0,
        matching_open(prog, u_pos) == i,
{
    lemma_net_opens_first(prog, i, u_pos);
    if i + 1 < u_pos {
        assert(backward_depth(prog, u_pos, i + 1) >= 0);
    }
    let found = choose|k: int| opens(prog, u_pos, k);
    lemma_opens_unique(prog, u_pos, found, i);
}

/// Matching is mutual: when the loop opened by the `t` at `t_pos` is closed
/// at `u_pos`, then the loop closed by that `u` is opened at `t_pos`, so a
/// jump forward from the `t` and a jump back from the `u` land on each other.
pub proof fn lemma_close_then_open(prog: Seq<char>, t_pos: int, u_pos: int)
    requires
        prog[t_pos] == 't',
        closes(prog, t_pos, u_pos),
    ensures
        prog[u_pos] == 'u',
        opens(prog, u_pos, t_pos),
        matching_close(prog, t_pos) == u_pos,
        matching_open(prog, u_pos) == t_pos,
{
    lemma_closing_position(prog, t_pos, u_pos);
    lemma_net_opens_first(prog, t_pos, u_pos);
    assert forall|k: int| t_pos < k < u_pos implies #[trigger] backward_depth(prog, u_pos, k)
        >= 0 by {
        lemma_net_opens_split(prog, t_pos + 1, k, u_pos);
        if t_pos + 1 < k {
            assert(forward_depth(prog, t_pos, k - 1) >= 0);
        }
    }
    lemma_opening_position(prog, u_pos, t_pos);
}

/// The same from the other side: when the loop closed by the `u` at `u_pos`
/// is opened at `t_pos`, then the loop opened by that `t` is closed at `u_pos`.
pub proof fn lemma_open_then_close(prog: Seq<char>, u_pos: int, t_pos: int)
    requires
        prog[u_pos] == 'u',
        opens(prog, u_pos, t_pos),
    ensures
        prog[t_pos] == 't',
        closes(prog, t_pos, u_pos),
        matching_open(prog, u_pos) == t_pos,
        matching_close(prog, t_pos) == u_pos,
{
    lemma_opening_position(prog, u_pos, t_pos);
    assert forall|k: int| t_pos < k < u_pos implies #[trigger] forward_depth(prog, t_pos, k)
        >= 0 by {
        lemma_net_opens_split(prog, t_pos + 1, k + 1, u_pos);
        if k + 1 < u_pos {
            assert(backward_depth(prog, u_pos, k + 1) >= 0);
        }
    }
    lemma_closing_position(prog, t_pos, u_pos);
}

/// The position of the `u` that closes the loop opened at `t_pos`, or the
/// last position of the program when there is none.
pub fn find_corresponding_u(prog_str: &Vec<char>, t_pos: usize) -> (r: usize)
    requires
        t_pos < prog_str.len(),
    ensures
        r == matching_close(prog_str@, t_pos as int),
        t_pos <= r < prog_str.len(),
        closes(prog_str@, t_pos as int, r as int) || (unclosed(prog_str@, t_pos as int) && r
            == prog_str.len() - 1),
{
    let ghost prog = prog_str@;
    let ghost start = t_pos as int;
    let mut found_ts: usize = 0;
    let mut idx: usize = t_pos + 1;
    while idx < prog_str.len()
        invariant
            prog == prog_str@,
            start == t_pos,
            t_pos < idx <= prog_str.len(),
            found_ts == forward_depth(prog, start, idx - 1),
            found_ts <= idx - 1 - t_pos,
            forall|k: int| start < k < idx ==> #[trigger] forward_depth(prog, start, k) >= 0,
        decreases prog_str.len() - idx,
    {
        let ch = prog_str[idx];
        assert(forward_depth(prog, start, idx as int) == forward_depth(prog, start, idx - 1)
            + weight(prog[idx as int]));
        if ch == 't' {
            found_ts += 1;
        } else if ch == 'u' {
            if found_ts == 0 {
                proof {
                    lemma_closing_position(prog, start, idx as int);
                }
                return idx;
            }
            found_ts -= 1;
        }
        idx += 1;
    }
    proof {
        if exists|j: int| closes(prog, start, j) {
            let j = choose|j: int| closes(prog, start, j);
            assert(forward_depth(prog, start, j) >= 0);
        }
    }
    prog_str.len() - 1
}

/// The position of the `t` that opens the loop closed at `u_pos`, or 0 when
/// there is none.
pub fn find_corresponding_t(prog_str: &Vec<char>, u_pos: usize) -> (r: usize)
    requires
        u_pos < prog_str.len(),
    ensures
        r == matching_open(prog_str@, u_pos as int),
        r <= u_pos,
        opens(prog_str@, u_pos as int, r as int) || (unopened(prog_str@, u_pos as int) && r == 0),
{
    let ghost prog = prog_str@;
    let ghost end = u_pos as int;
    let mut found_us: usize = 0;
    let mut idx: usize = u_pos;
    while idx > 0
        invariant
            prog == prog_str@,
            end == u_pos,
            idx <= u_pos < prog_str.len(),
            found_us == backward_depth(prog, end, idx as int),
            found_us <= u_pos - idx,
            forall|k: int| idx <= k < end ==> #[trigger] backward_depth(prog, end, k) >= 0,
        decreases idx,
    {
        idx -= 1;
        let ch = prog_str[idx];
        proof {
            lemma_net_opens_first(prog, idx as int, end);
        }
        if ch == 't' {
            if found_us == 0 {
                proof {
                    lemma_opening_position(prog, end, idx as int);
                }
                return idx;
            }
            found_us -= 1;
        } else if ch == 'u' {
            found_us += 1;
        }
    }
    proof {
        if exists|i: int| opens(prog, end, i) {
            let i = choose|i: int| opens(prog, end, i);
            assert(backward_depth(prog, end, i) >= 0);
        }
    }
    0
}

} // verus!
