//! The leaderboard: how many matches each name has won, and who ranks
//! first.

use vstd::prelude::*;
use vstd::seq_lib::seq_to_set_is_finite;
use vstd::set_lib::{lemma_int_range, lemma_len_subset, set_int_range};

verus! {

/// The game-over screen lists this many winners at most.
pub const LEADERBOARD_ROWS: usize = 5;

/// One line of the leaderboard.
#[derive(Clone, Debug, PartialEq, Eq)]
pub struct Entry {
    pub name: String,
    pub wins: u32,
}

/// A line of the leaderboard as a mathematical value.
pub struct Standing {
    pub name: Seq<char>,
    pub wins: nat,
}

impl View for Entry {
    type V = Standing;

    open spec fn view(&self) -> Standing {
        Standing { name: self.name@, wins: self.wins as nat }
    }
}

/// Names with their wins, in the order in which each name first won.
#[derive(Clone, Debug, PartialEq, Eq)]
pub struct Leaderboard {
    pub entries: Vec<Entry>,
}

impl View for Leaderboard {
    type V = Seq<Standing>;

    open spec fn view(&self) -> Seq<Standing> {
        Seq::new(self.entries@.len(), |i: int| self.entries@[i]@)
    }
}

/// The index of the first line at or after `from` that bears `name`, or
/// the number of lines if there is none.
pub open spec fn line_of(board: Seq<Standing>, name: Seq<char>, from: int) -> int
    decreases board.len() - from,
{
    if from < 0 || from >= board.len() {
        board.len() as int
    } else if board[from].name == name {
        from
    } else {
        line_of(board, name, from + 1)
    }
}

/// How many wins the board holds for `name`.
pub open spec fn wins_of(board: Seq<Standing>, name: Seq<char>) -> nat {
    let i = line_of(board, name, 0);
    if i < board.len() {
        board[i].wins
    } else {
        0
    }
}

/// One more win, as far as a line can count.
pub open spec fn one_more(wins: nat) -> nat {
    if wins < u32::MAX {
        wins + 1
    } else {
        wins
    }
}

/// The board after one more win for `name`: its line counts one more, or
/// a new line with one win is added at the end.
pub open spec fn recorded(board: Seq<Standing>, name: Seq<char>) -> Seq<Standing> {
    let i = line_of(board, name, 0);
    if i < board.len() {
        board.update(i, Standing { name, wins: one_more(board[i].wins) })
    } else {
        board.push(Standing { name, wins: 1 })
    }
}

/// No name has two lines.
pub open spec fn distinct_names(board: Seq<Standing>) -> bool {
    forall|i: int, j: int|
        0 <= i < j < board.len() ==> (#[trigger] board[i]).name != (#[trigger] board[j]).name
}

/// Line `i` ranks before line `j`: it has more wins, or as many and
/// stands earlier on the board.
pub open spec fn ranks_before(board: Seq<Standing>, i: int, j: int) -> bool {
    board[i].wins > board[j].wins || (board[i].wins == board[j].wins && i < j)
}

/// Line `j` may come next in rank after `last`: anything may come first.
pub open spec fn follows(board: Seq<Standing>, last: Option<usize>, j: int) -> bool {
    match last {
        Some(i) => ranks_before(board, i as int, j),
        None => true,
    }
}

/// Line `j` is among those that `order` lists.
pub open spec fn lists(order: Seq<usize>, j: int) -> bool {
    exists|a: int| 0 <= a < order.len() && #[trigger] order[a] as int == j
}

/// `order` lists the first `rows` lines of the board by rank, or all
/// lines if the board has fewer: its lines stand in ranking order, and
/// every line that it leaves out ranks after each line that it lists.
pub open spec fn is_ranking(board: Seq<Standing>, order: Seq<usize>, rows: nat) -> bool {
    &&& order.len() <= rows
    &&& forall|a: int| 0 <= a < order.len() ==> 0 <= #[trigger] order[a] < board.len()
    &&& forall|a: int, b: int|
        0 <= a < b < order.len() ==> ranks_before(
            board,
            #[trigger] order[a] as int,
            #[trigger] order[b] as int,
        )
    &&& forall|a: int, j: int|
        0 <= a < order.len() && 0 <= j < board.len() && !lists(order, j)
            ==> #[trigger] ranks_before(board, order[a] as int, j)
    &&& order.len() < rows ==> forall|j: int| 0 <= j < board.len() ==> #[trigger] lists(order, j)
}

impl Leaderboard {
    pub open spec fn wf(&self) -> bool {
        distinct_names(self@)
    }

    /// A leaderboard without lines.
    pub fn new() -> (board: Leaderboard)
        ensures
            board@ == Seq::<Standing>::empty(),
            board.wf(),
    {
        let board = Leaderboard { entries: Vec::new() };
        assert(board@ =~= Seq::<Standing>::empty());
        board
    }

    /// The number of wins on record for `name`; 0 for a name that has no
    /// line.
    pub fn wins(&self, name: &String) -> (wins: u32)
        ensures
            wins == wins_of(self@, name@),
    {
        let i = self.find(name);
        if i < self.entries.len() {
            self.entries[i].wins
        } else {
            0
        }
    }

    fn find(&self, name: &String) -> (i: usize)
        ensures
            i == line_of(self@, name@, 0),
            i <= self.entries.len(),
    {
        let mut i: usize = 0;
        while i < self.entries.len() && !(self.entries[i].name == *name)
            invariant
                i <= self.entries.len(),
                self@.len() == self.entries.len(),
                line_of(self@, name@, i as int) == line_of(self@, name@, 0),
            decreases self.entries.len() - i,
        {
            i += 1;
        }
        i
    }

    fn outranks(&self, i: usize, j: usize) -> (before: bool)
        requires
            i < self.entries.len(),
            j < self.entries.len(),
        ensures
            before == ranks_before(self@, i as int, j as int),
    {
        let a: u32 = self.entries[i].wins;
        let b: u32 = self.entries[j].wins;
        a > b || (a == b && i < j)
    }

    /// The line that ranks first among those that rank after `last`.
    fn next_in_rank(&self, last: Option<usize>) -> (next: Option<usize>)
        requires
            last.is_some() ==> last.unwrap() < self.entries.len(),
        ensures
            match next {
                Some(j) => {
                    &&& j < self.entries.len()
                    &&& follows(self@, last, j as int)
                    &&& forall|c: int|
                        0 <= c < self@.len() && c != j && follows(self@, last, c)
                            ==> #[trigger] ranks_before(self@, j as int, c)
                },
                None => forall|c: int| 0 <= c < self@.len() ==> !#[trigger] follows(self@, last, c),
            },
    {
        let n: usize = self.entries.len();
        let mut best: Option<usize> = None;
        let mut c: usize = 0;
        while c < n
            invariant
                n == self.entries.len(),
                n == self@.len(),
                c <= n,
                last.is_some() ==> last.unwrap() < n,
                match best {
                    Some(j) => {
                        &&& j < c
                        &&& follows(self@, last, j as int)
                        &&& forall|d: int|
                            0 <= d < c && d != j && follows(self@, last, d)
                                ==> #[trigger] ranks_before(self@, j as int, d)
                    },
                    None => forall|d: int| 0 <= d < c ==> !#[trigger] follows(self@, last, d),
                },
            decreases n - c,
        {
            let eligible = match last {
                Some(i) => self.outranks(i, c),
                None => true,
            };
            let ghost earlier = best;
            if eligible {
                let better = match best {
                    Some(j) => self.outranks(c, j),
                    None => true,
                };
                if better {
                    best = Some(c);
                }
            }
            proof {
                if best.is_some() {
                    let j = best.unwrap();
                    assert forall|d: int|
                        0 <= d < c + 1 && d != j && follows(self@, last, d)
                        implies #[trigger] ranks_before(self@, j as int, d) by {
                        if earlier.is_some() && d != earlier.unwrap() && d < c {
                            assert(ranks_before(self@, earlier.unwrap() as int, d));
                        }
                    }
                } else {
                    assert forall|d: int| 0 <= d < c + 1
                        implies !#[trigger] follows(self@, last, d) by {
                        if d < c {
                            assert(!follows(self@, last, d));
                        }
                    }
                }
            }
            c += 1;
        }
        best
    }

    /// The first `rows` lines of the board by rank, as indices into
    /// `entries`: most wins first, and among equals the line that stands
    /// earlier on the board.
    pub fn ranking(&self, rows: usize) -> (order: Vec<usize>)
        ensures
            is_ranking(self@, order@, rows as nat),
            order@.len() == vstd::math::min(rows as int, self@.len() as int),
    {
        let mut order: Vec<usize> = Vec::new();
        let mut last: Option<usize> = None;
        let mut complete = false;
        while order.len() < rows && !complete
            invariant
                order.len() <= rows,
                last.is_some() == (order.len() > 0),
                last.is_some() ==> last.unwrap() == order@.last(),
                forall|a: int| 0 <= a < order.len() ==> 0 <= #[trigger] order[a] < self@.len(),
                forall|a: int, b: int|
                    0 <= a < b < order.len() ==> ranks_before(
                        self@,
                        #[trigger] order[a] as int,
                        #[trigger] order[b] as int,
                    ),
                forall|j: int|
                    0 <= j < self@.len() && !follows(self@, last, j) ==> #[trigger] lists(
                        order@,
                        j,
                    ),
                complete ==> forall|j: int| 0 <= j < self@.len() ==> #[trigger] lists(order@, j),
            decreases rows - order.len() + if complete { 0int } else { 1int },
        {
            let ghost before = order@;
            match self.next_in_rank(last) {
                Some(next) => {
                    order.push(next);
                    proof {
                        assert(order@.last() == next);
                        assert forall|j: int|
                            0 <= j < self@.len() && !follows(self@, Some(next), j)
                            implies #[trigger] lists(order@, j) by {
                            if j == next {
                                assert(order@[order@.len() - 1] as int == j);
                            } else {
                                if follows(self@, last, j) {
                                    assert(ranks_before(self@, next as int, j));
                                }
                                assert(lists(before, j));
                                let a = choose|a: int|
                                    0 <= a < before.len() && #[trigger] before[a] as int == j;
                                assert(order@[a] as int == j);
                            }
                        }
                        assert forall|a: int, b: int| 0 <= a < b < order.len()
                            implies ranks_before(
                            self@,
                            #[trigger] order[a] as int,
                            #[trigger] order[b] as int,
                        ) by {
                            if b == order.len() - 1 {
                                assert(order[a] == before[a]);
                                if a < before.len() - 1 {
                                    assert(ranks_before(
                                        self@,
                                        before[a] as int,
                                        before[before.len() - 1] as int,
                                    ));
                                }
                            } else {
                                assert(order[a] == before[a]);
                                assert(order[b] == before[b]);
                            }
                        }
                    }
                    last = Some(next);
                },
                None => {
                    complete = true;
                },
            }
        }
        proof {
            assert forall|a: int, j: int|
                0 <= a < order.len() && 0 <= j < self@.len() && !lists(order@, j)
                implies #[trigger] ranks_before(self@, order@[a] as int, j) by {
                assert(follows(self@, last, j));
                if a < order.len() - 1 {
                    assert(ranks_before(self@, order[a] as int, order[order.len() - 1] as int));
                }
            }
            lemma_ranking_length(self@, order@, rows as nat);
        }
        order
    }

    /// Records one more win for `name`.
    pub fn record_win(&mut self, name: &String)
        ensures
            final(self)@ == recorded(old(self)@, name@),
            old(self).wf() ==> final(self).wf(),
    {
        let i = self.find(name);
        if i < self.entries.len() {
            let wins: u32 = self.entries[i].wins;
            let more: u32 = if wins < u32::MAX {
                wins + 1
            } else {
                wins
            };
            self.entries.set(i, Entry { name: name.clone(), wins: more });
        } else {
            self.entries.push(Entry { name: name.clone(), wins: 1 });
        }
        proof {
            assert(self@ =~= recorded(old(self)@, name@));
            if old(self).wf() {
                lemma_recorded_keeps_names_distinct(old(self)@, name@);
            }
        }
    }
}

/// A line found by name bears that name, and no earlier line from `from`
/// on does.
pub proof fn lemma_line_of(board: Seq<Standing>, name: Seq<char>, from: int)
    requires
        0 <= from <= board.len(),
    ensures
        from <= line_of(board, name, from) <= board.len(),
        line_of(board, name, from) < board.len() ==> board[line_of(board, name, from)].name
            == name,
        forall|k: int|
            from <= k < line_of(board, name, from) ==> (#[trigger] board[k]).name != name,
    decreases board.len() - from,
{
    if from < board.len() && board[from].name != name {
        lemma_line_of(board, name, from + 1);
    }
}

/// Recording a win keeps the names on the board distinct.
pub proof fn lemma_recorded_keeps_names_distinct(board: Seq<Standing>, name: Seq<char>)
    requires
        distinct_names(board),
    ensures
        distinct_names(recorded(board, name)),
{
    lemma_line_of(board, name, 0);
    let after = recorded(board, name);
    let i = line_of(board, name, 0);
    assert forall|a: int, b: int| 0 <= a < b < after.len()
        implies (#[trigger] after[a]).name != (#[trigger] after[b]).name by {
        if i < board.len() {
            assert(after[a].name == board[a].name);
            assert(after[b].name == board[b].name);
        } else {
            if b < board.len() {
                assert(after[a] == board[a]);
                assert(after[b] == board[b]);
            } else {
                assert(after[a] == board[a]);
                assert(board[a].name != name);
            }
        }
    }
}

/// A ranking lists its lines by descending number of wins.
pub proof fn lemma_ranking_descends(board: Seq<Standing>, order: Seq<usize>, rows: nat)
    requires
        is_ranking(board, order, rows),
    ensures
        forall|a: int, b: int|
            0 <= a <= b < order.len() ==> board[#[trigger] order[a] as int].wins
                >= board[#[trigger] order[b] as int].wins,
{
    assert forall|a: int, b: int| 0 <= a <= b < order.len()
        implies board[#[trigger] order[a] as int].wins >= board[#[trigger] order[b] as int].wins by {
        if a < b {
            assert(ranks_before(board, order[a] as int, order[b] as int));
        }
    }
}

/// A ranking lists no line twice.
pub proof fn lemma_ranking_lists_once(board: Seq<Standing>, order: Seq<usize>, rows: nat)
    requires
        is_ranking(board, order, rows),
    ensures
        order.no_duplicates(),
{
    assert forall|a: int, b: int| 0 <= a < order.len() && 0 <= b < order.len() && a != b
        implies order[a] != order[b] by {
        if a < b {
            assert(ranks_before(board, order[a] as int, order[b] as int));
        } else {
            assert(ranks_before(board, order[b] as int, order[a] as int));
        }
    }
}

/// A ranking has as many lines as were asked for, or as the board has if
/// those are fewer.
pub proof fn lemma_ranking_length(board: Seq<Standing>, order: Seq<usize>, rows: nat)
    requires
        is_ranking(board, order, rows),
    ensures
        order.len() == if rows <= board.len() {
            rows
        } else {
            board.len()
        },
{
    lemma_ranking_lists_once(board, order, rows);
    let lines = order.map_values(|j: usize| j as int);
    let all = set_int_range(0, board.len() as int);
    assert forall|a: int, b: int| 0 <= a < lines.len() && 0 <= b < lines.len() && a != b
        implies lines[a] != lines[b] by {
        assert(order[a] != order[b]);
    }
    lines.unique_seq_to_set();
    lemma_int_range(0, board.len() as int);
    assert forall|j: int| lines.to_set().contains(j) implies all.contains(j) by {
        let a = choose|a: int| 0 <= a < lines.len() && lines[a] == j;
        assert(0 <= order[a] < board.len());
    }
    lemma_len_subset(lines.to_set(), all);
    if order.len() < rows {
        assert forall|j: int| all.contains(j) implies lines.to_set().contains(j) by {
            assert(lists(order, j));
            let a = choose|a: int| 0 <= a < order.len() && #[trigger] order[a] as int == j;
            assert(lines[a] == j);
        }
        seq_to_set_is_finite(lines);
        lemma_len_subset(all, lines.to_set());
    }
}

/// A board has one ranking of each length.
pub proof fn lemma_ranking_unique(
    board: Seq<Standing>,
    first: Seq<usize>,
    second: Seq<usize>,
    rows: nat,
)
    requires
        is_ranking(board, first, rows),
        is_ranking(board, second, rows),
    ensures
        first == second,
{
    lemma_ranking_length(board, first, rows);
    lemma_ranking_length(board, second, rows);
    lemma_rankings_agree(board, first, second, rows, first.len() as int);
    assert(first =~= second);
}

/// Two rankings of one length agree on their first `upto` lines.
proof fn lemma_rankings_agree(
    board: Seq<Standing>,
    first: Seq<usize>,
    second: Seq<usize>,
    rows: nat,
    upto: int,
)
    requires
        is_ranking(board, first, rows),
        is_ranking(board, second, rows),
        first.len() == second.len(),
        0 <= upto <= first.len(),
    ensures
        forall|a: int| 0 <= a < upto ==> first[a] == second[a],
    decreases upto,
{
    if upto > 0 {
        lemma_rankings_agree(board, first, second, rows, upto - 1);
        let a = upto - 1;
        if first[a] != second[a] {
            if ranks_before(board, first[a] as int, second[a] as int) {
                lemma_outranked_is_listed(board, second, first, rows, a);
            } else {
                lemma_outranked_is_listed(board, first, second, rows, a);
            }
        }
    }
}

/// If two rankings agree before line `a`, the line that `other` lists
/// there cannot rank before the line that `order` lists there.
proof fn lemma_outranked_is_listed(
    board: Seq<Standing>,
    order: Seq<usize>,
    other: Seq<usize>,
    rows: nat,
    a: int,
)
    requires
        is_ranking(board, order, rows),
        is_ranking(board, other, rows),
        order.len() == other.len(),
        0 <= a < order.len(),
        forall|b: int| 0 <= b < a ==> order[b] == other[b],
    ensures
        !ranks_before(board, other[a] as int, order[a] as int),
{
    let j = other[a] as int;
    if !ranks_before(board, j, order[a] as int) {
    } else if lists(order, j) {
        let c = choose|c: int| 0 <= c < order.len() && #[trigger] order[c] as int == j;
        if c < a {
            assert(other[c] == other[a]);
            assert(ranks_before(board, other[c] as int, other[a] as int));
        } else if c > a {
            assert(ranks_before(board, order[a] as int, order[c] as int));
        }
    } else {
        assert(0 <= j < board.len());
        assert(ranks_before(board, order[a] as int, j));
    }
}

/// A win for `name` adds one to the wins of `name`, as far as a line can
/// count, and leaves the wins of every other name as they were.
pub proof fn lemma_recorded_wins(board: Seq<Standing>, name: Seq<char>, other: Seq<char>)
    ensures
        wins_of(recorded(board, name), name) == one_more(wins_of(board, name)),
        other != name ==> wins_of(recorded(board, name), other) == wins_of(board, other),
{
    let after = recorded(board, name);
    let i = line_of(board, name, 0);
    lemma_line_of(board, name, 0);
    lemma_line_of(after, name, 0);
    lemma_line_of(board, other, 0);
    lemma_line_of(after, other, 0);
    let k = line_of(after, name, 0);
    if k < i {
        assert(board[k].name != name);
    }
    if k > i {
        assert(after[i].name != name);
    }
    if other != name {
        let p = line_of(board, other, 0);
        let q = line_of(after, other, 0);
        if q < after.len() {
            assert(after[q].name == other);
            if q < board.len() {
                assert(after[q].name == board[q].name || after[q].name == name);
                assert(board[q].name == other);
                assert(p <= q);
            }
        }
        if p < board.len() {
            assert(board[p].name == other);
            assert(after[p] == board[p]);
            assert(q <= p);
        }
    }
}

/// The board after the matches whose winners `winners` lists in order,
/// starting from an empty board.
pub open spec fn after_wins(winners: Seq<Seq<char>>) -> Seq<Standing>
    decreases winners.len(),
{
    if winners.len() == 0 {
        Seq::empty()
    } else {
        recorded(after_wins(winners.drop_last()), winners.last())
    }
}

/// How many of the matches `name` has won.
pub open spec fn tally(winners: Seq<Seq<char>>, name: Seq<char>) -> nat
    decreases winners.len(),
{
    if winners.len() == 0 {
        0
    } else {
        tally(winners.drop_last(), name) + if winners.last() == name {
            1nat
        } else {
            0nat
        }
    }
}

/// After any run of matches the board holds for each name the number of
/// matches that it has won, as long as a line can count that high, and
/// no name has two lines.
pub proof fn lemma_board_counts_wins(winners: Seq<Seq<char>>, name: Seq<char>)
    requires
        tally(winners, name) <= u32::MAX,
    ensures
        wins_of(after_wins(winners), name) == tally(winners, name),
        distinct_names(after_wins(winners)),
    decreases winners.len(),
{
    if winners.len() > 0 {
        lemma_board_counts_wins(winners.drop_last(), name);
        lemma_recorded_wins(after_wins(winners.drop_last()), winners.last(), name);
        lemma_recorded_keeps_names_distinct(after_wins(winners.drop_last()), winners.last());
    }
}

} // verus!
