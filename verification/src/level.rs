//! Level data, the platform-merging pass, and the per-step hazard and exit
//! resolution.
//!
//! A level is a set of grid tiles, each a platform or a spike cell, plus a
//! spawn and an exit cell. For collision the platform tiles are merged into
//! maximal horizontal runs, one collider per run instead of one per tile;
//! `merge_platform_runs` promises that the runs exactly partition the set of
//! platform cells. Spikes keep per-cell sensors, since hazard identity must
//! stay per cell. While play runs, `check_exit` and `check_spikes` turn the
//! physics engine's overlap reports into level progression and respawns.

use vstd::prelude::*;
use vstd::relations::injective_on;
use vstd::seq_lib::seq_to_set_is_finite;
use vstd::set_lib::lemma_int_range;
use vstd::set_lib::lemma_len_subset;
use vstd::set_lib::lemma_map_size;
use vstd::set_lib::set_int_range;

use crate::player::DeathCounter;
use crate::progress::unlock;
use crate::progress::unlocked_after;
use crate::progress::PlayerProgress;
use crate::states::GameState;

verus! {

/// How many levels the game ships with.
pub const LEVEL_COUNT: usize = 5;

/// Width and height of one grid cell in world units.
pub const TILE_SIZE: i64 = 32;

/// What one grid cell of level geometry is.
#[derive(Clone, Copy, PartialEq, Eq, Structural, Debug)]
pub enum TileKind {
    Platform,
    Spikes,
}

/// One tile of a level description: a grid cell and its kind. Duplicate
/// entries at the same cell are tolerated and collapse during merging.
#[derive(Clone, Copy, PartialEq, Eq, Structural, Debug)]
pub struct TileEntry {
    pub x: i32,
    pub y: i32,
    pub kind: TileKind,
}

/// A grid cell, used for the spawn and exit positions.
#[derive(Clone, Copy, PartialEq, Eq, Structural, Debug)]
pub struct GridPos {
    pub x: i32,
    pub y: i32,
}

/// A level as loaded from its file: display name, spawn and exit cells, and
/// the tiles.
#[derive(Debug)]
pub struct LevelData {
    pub name: String,
    pub spawn: GridPos,
    pub exit: GridPos,
    pub tiles: Vec<TileEntry>,
}

/// A maximal horizontal run of contiguous platform cells at row `y`,
/// covering columns `start_x ..< start_x + length`.
#[derive(Clone, Copy, PartialEq, Eq, Structural, Debug)]
pub struct PlatformRun {
    pub start_x: i32,
    pub y: i32,
    pub length: usize,
}

/// The 0-based index of the level being played; equal to `LEVEL_COUNT` once
/// every level has been cleared.
#[derive(Clone, Copy, Debug)]
pub struct CurrentLevel(pub usize);

/// The set of grid cells that carry a platform tile.
pub open spec fn platform_cells(tiles: Seq<TileEntry>) -> Set<(int, int)> {
    Set::new(
        |c: (int, int)|
            exists|i: int|
                #![auto]
                0 <= i < tiles.len() && tiles[i].kind == TileKind::Platform && tiles[i].x as int
                    == c.0 && tiles[i].y as int == c.1,
    )
}

/// The platform cells among the first `n` tiles only.
pub open spec fn platform_cells_prefix(tiles: Seq<TileEntry>, n: int) -> Set<(int, int)> {
    Set::new(
        |c: (int, int)|
            exists|i: int|
                #![auto]
                0 <= i < n && i < tiles.len() && tiles[i].kind == TileKind::Platform && tiles[i].x
                    as int == c.0 && tiles[i].y as int == c.1,
    )
}

/// Whether the cell `c` occurs in the sequence of collected cells.
pub open spec fn cell_seq_contains(cells: Seq<(i32, i32)>, c: (int, int)) -> bool {
    exists|i: int|
        #![auto]
        0 <= i < cells.len() && cells[i].0 as int == c.0 && cells[i].1 as int == c.1
}

/// No cell occurs twice.
pub open spec fn cells_distinct(cells: Seq<(i32, i32)>) -> bool {
    forall|a: int, b: int| #![auto] 0 <= a < b < cells.len() ==> cells[a] != cells[b]
}

/// Run `k` of `runs` starts at one of the first `i` collected cells.
pub open spec fn run_start_recorded(runs: Seq<PlatformRun>, k: int, cells: Seq<(i32, i32)>, i: int) -> bool {
    exists|j: int|
        #![auto]
        0 <= j < i && cells[j].0 == runs[k].start_x && cells[j].1 == runs[k].y
}

/// Whether run `r` covers the cell `c`.
pub open spec fn run_covers(r: PlatformRun, c: (int, int)) -> bool {
    c.1 == r.y as int && r.start_x <= c.0 < r.start_x + r.length
}

/// Whether any of `runs` covers the cell `c`.
pub open spec fn covered_by(runs: Seq<PlatformRun>, c: (int, int)) -> bool {
    exists|i: int| 0 <= i < runs.len() && #[trigger] run_covers(runs[i], c)
}

/// No cell is covered by two different runs.
pub open spec fn runs_disjoint(runs: Seq<PlatformRun>) -> bool {
    forall|i: int, j: int, c: (int, int)|
        #![trigger run_covers(runs[i], c), run_covers(runs[j], c)]
        0 <= i < j < runs.len() ==> !(run_covers(runs[i], c) && run_covers(runs[j], c))
}

/// Every cell the run covers is a collected cell.
pub open spec fn run_in_cells(r: PlatformRun, cells: Seq<(i32, i32)>) -> bool {
    forall|c: (int, int)| #[trigger] run_covers(r, c) ==> cell_seq_contains(cells, c)
}

/// The run can be extended neither left nor right within the collected
/// cells: it is maximal.
pub open spec fn run_maximal_in(r: PlatformRun, cells: Seq<(i32, i32)>) -> bool {
    &&& !cell_seq_contains(cells, (r.start_x - 1, r.y as int))
    &&& !cell_seq_contains(cells, (r.start_x + r.length, r.y as int))
}

/// Every cell the run covers lies in the set `s`.
pub open spec fn run_in_set(r: PlatformRun, s: Set<(int, int)>) -> bool {
    forall|c: (int, int)| #[trigger] run_covers(r, c) ==> s.contains(c)
}

/// The run is maximal within the set `s`.
pub open spec fn run_maximal(r: PlatformRun, s: Set<(int, int)>) -> bool {
    &&& !s.contains((r.start_x - 1, r.y as int))
    &&& !s.contains((r.start_x + r.length, r.y as int))
}

/// All the promises of `merge_platform_runs` in one predicate: the runs
/// cover exactly the platform cells, pairwise disjointly, each non-empty,
/// inside the set and maximal within it.
pub open spec fn runs_partition(runs: Seq<PlatformRun>, tiles: Seq<TileEntry>) -> bool {
    &&& forall|c: (int, int)| #[trigger] covered_by(runs, c) ==> platform_cells(tiles).contains(c)
    &&& forall|c: (int, int)| #[trigger] platform_cells(tiles).contains(c) ==> covered_by(runs, c)
    &&& runs_disjoint(runs)
    &&& forall|k: int| 0 <= k < runs.len() ==> (#[trigger] runs[k]).length >= 1
    &&& forall|k: int| 0 <= k < runs.len() ==> run_in_set(#[trigger] runs[k], platform_cells(tiles))
    &&& forall|k: int| 0 <= k < runs.len() ==> run_maximal(#[trigger] runs[k], platform_cells(tiles))
}

/// Linear scan for one cell.
fn cells_contain(cells: &Vec<(i32, i32)>, x: i128, y: i128) -> (b: bool)
    ensures
        b == cell_seq_contains(cells@, (x as int, y as int)),
{
    let mut i: usize = 0;
    while i < cells.len()
        invariant
            i <= cells@.len(),
            forall|k: int|
                #![auto]
                0 <= k < i ==> !(cells@[k].0 as int == x as int && cells@[k].1 as int == y as int),
        decreases cells@.len() - i,
    {
        let c = cells[i];
        if c.0 as i128 == x && c.1 as i128 == y {
            assert(cell_seq_contains(cells@, (x as int, y as int))) by {
                assert(cells@[i as int].0 as int == x as int && cells@[i as int].1 as int
                    == y as int);
            }
            return true;
        }
        i = i + 1;
    }
    false
}

/// Collect the distinct platform cells of a tile list, in first-occurrence
/// order; duplicates and spike tiles are dropped.
fn collect_platform_cells(tiles: &Vec<TileEntry>) -> (cells: Vec<(i32, i32)>)
    ensures
        cells_distinct(cells@),
        forall|c: (int, int)|
            #![auto]
            cell_seq_contains(cells@, c) <==> platform_cells(tiles@).contains(c),
{
    let mut cells: Vec<(i32, i32)> = Vec::new();
    let mut i: usize = 0;
    while i < tiles.len()
        invariant
            i <= tiles@.len(),
            cells_distinct(cells@),
            forall|c: (int, int)|
                #![auto]
                cell_seq_contains(cells@, c) <==> platform_cells_prefix(tiles@, i as int).contains(
                    c,
                ),
        decreases tiles@.len() - i,
    {
        let t = tiles[i];
        let is_platform = match t.kind {
            TileKind::Platform => true,
            TileKind::Spikes => false,
        };
        if is_platform && !cells_contain(&cells, t.x as i128, t.y as i128) {
            let ghost cells0 = cells@;
            cells.push((t.x, t.y));
            proof {
                assert forall|c: (int, int)|
                    cell_seq_contains(cells@, c) <==> platform_cells_prefix(
                        tiles@,
                        i + 1,
                    ).contains(c) by {
                    if cell_seq_contains(cells@, c) {
                        let k = choose|k: int|
                            #![auto]
                            0 <= k < cells@.len() && cells@[k].0 as int == c.0 && cells@[k].1 as int
                                == c.1;
                        if k < cells0.len() {
                            assert(cells0[k] == cells@[k]);
                            assert(cell_seq_contains(cells0, c));
                            assert(platform_cells_prefix(tiles@, i as int).contains(c));
                        } else {
                            assert(cells@[k] == (t.x, t.y));
                            assert(tiles@[i as int].kind == TileKind::Platform
                                && tiles@[i as int].x as int == c.0 && tiles@[i as int].y as int
                                == c.1);
                        }
                        assert(platform_cells_prefix(tiles@, i + 1).contains(c));
                    }
                    if platform_cells_prefix(tiles@, i + 1).contains(c) {
                        let a = choose|a: int|
                            #![auto]
                            0 <= a < i + 1 && a < tiles@.len() && tiles@[a].kind
                                == TileKind::Platform && tiles@[a].x as int == c.0
                                && tiles@[a].y as int == c.1;
                        if a < i {
                            assert(platform_cells_prefix(tiles@, i as int).contains(c));
                            assert(cell_seq_contains(cells0, c));
                            let k = choose|k: int|
                                #![auto]
                                0 <= k < cells0.len() && cells0[k].0 as int == c.0 && cells0[k].1
                                    as int == c.1;
                            assert(cells@[k] == cells0[k]);
                        } else {
                            assert(c.0 == t.x as int && c.1 == t.y as int);
                            assert(cells@[cells0.len() as int] == (t.x, t.y));
                        }
                        assert(cell_seq_contains(cells@, c));
                    }
                }
                assert(cells_distinct(cells@)) by {
                    assert forall|a: int, b: int|
                        #![auto]
                        0 <= a < b < cells@.len() implies cells@[a] != cells@[b] by {
                        if b < cells0.len() {
                            assert(cells@[a] == cells0[a] && cells@[b] == cells0[b]);
                        } else {
                            assert(cells@[b] == (t.x, t.y));
                            assert(cells@[a] == cells0[a]);
                            if cells@[a] == cells@[b] {
                                assert(cells0[a].0 as int == t.x as int && cells0[a].1 as int
                                    == t.y as int);
                                assert(cell_seq_contains(cells0, (t.x as int, t.y as int)));
                            }
                        }
                    }
                }
            }
        } else {
            proof {
                assert forall|c: (int, int)|
                    cell_seq_contains(cells@, c) <==> platform_cells_prefix(
                        tiles@,
                        i + 1,
                    ).contains(c) by {
                    if platform_cells_prefix(tiles@, i + 1).contains(c) {
                        let a = choose|a: int|
                            #![auto]
                            0 <= a < i + 1 && a < tiles@.len() && tiles@[a].kind
                                == TileKind::Platform && tiles@[a].x as int == c.0
                                && tiles@[a].y as int == c.1;
                        if a == i {
                            assert(is_platform);
                            assert(cell_seq_contains(cells@, (t.x as int, t.y as int)));
                        } else {
                            assert(platform_cells_prefix(tiles@, i as int).contains(c));
                        }
                        assert(cell_seq_contains(cells@, c));
                    }
                    if cell_seq_contains(cells@, c) {
                        assert(platform_cells_prefix(tiles@, i as int).contains(c));
                        let a = choose|a: int|
                            #![auto]
                            0 <= a < i && a < tiles@.len() && tiles@[a].kind == TileKind::Platform
                                && tiles@[a].x as int == c.0 && tiles@[a].y as int == c.1;
                        assert(platform_cells_prefix(tiles@, i + 1).contains(c));
                    }
                }
            }
        }
        i = i + 1;
    }
    proof {
        assert forall|c: (int, int)|
            #![auto]
            cell_seq_contains(cells@, c) <==> platform_cells(tiles@).contains(c) by {
            assert(cell_seq_contains(cells@, c) <==> platform_cells_prefix(
                tiles@,
                tiles@.len() as int,
            ).contains(c));
            if platform_cells(tiles@).contains(c) {
                let a = choose|a: int|
                    #![auto]
                    0 <= a < tiles@.len() && tiles@[a].kind == TileKind::Platform && tiles@[a].x
                        as int == c.0 && tiles@[a].y as int == c.1;
                assert(platform_cells_prefix(tiles@, tiles@.len() as int).contains(c));
            }
            if platform_cells_prefix(tiles@, tiles@.len() as int).contains(c) {
                let a = choose|a: int|
                    #![auto]
                    0 <= a < tiles@.len() && tiles@[a].kind == TileKind::Platform && tiles@[a].x
                        as int == c.0 && tiles@[a].y as int == c.1;
                assert(platform_cells(tiles@).contains(c));
            }
        }
    }
    cells
}

/// A contiguous row segment whose cells all occur in `cells` cannot be
/// longer than `cells` itself: its cells are that many distinct entries.
proof fn lemma_run_length_bounded(cells: Seq<(i32, i32)>, x: int, y: int, len: int)
    requires
        0 <= len,
        forall|t: int| x <= t < x + len ==> cell_seq_contains(cells, (t, y)),
    ensures
        len <= cells.len(),
{
    broadcast use seq_to_set_is_finite;

    let f = |t: int| (t, y);
    let range = set_int_range(x, x + len);
    lemma_int_range(x, x + len);
    assert(injective_on(f, range)) by {
        assert forall|t1: int, t2: int|
            range.contains(t1) && range.contains(t2) && #[trigger] f(t1) == #[trigger] f(
                t2,
            ) implies t1 == t2 by {
            assert(f(t1).0 == t1 && f(t2).0 == t2);
        }
    }
    let mapped = range.map(f);
    lemma_map_size(range, mapped, f);
    let g = |p: (i32, i32)| (p.0 as int, p.1 as int);
    let cset = cells.to_set().map(g);
    assert(injective_on(g, cells.to_set())) by {
        assert forall|p1: (i32, i32), p2: (i32, i32)|
            cells.to_set().contains(p1) && cells.to_set().contains(p2) && #[trigger] g(p1)
                == #[trigger] g(p2) implies p1 == p2 by {
            assert(g(p1).0 == p1.0 as int && g(p1).1 == p1.1 as int);
        }
    }
    lemma_map_size(cells.to_set(), cset, g);
    cells.lemma_cardinality_of_set();
    assert(mapped.subset_of(cset)) by {
        assert forall|c: (int, int)| mapped.contains(c) implies cset.contains(c) by {
            let t = choose|t: int| range.contains(t) && c == f(t);
            assert(cell_seq_contains(cells, (t, y)));
            let k = choose|k: int|
                #![auto]
                0 <= k < cells.len() && cells[k].0 as int == t && cells[k].1 as int == y;
            assert(cells.to_set().contains(cells[k]));
            assert(g(cells[k]) == c);
        }
    }
    lemma_len_subset(mapped, cset);
}

/// Every cell of `cells` has a leftmost contiguous neighbour: some start
/// column `s` from which cells run unbroken to it, with no cell to the left
/// of `s`.
proof fn lemma_start_exists(cells: Seq<(i32, i32)>, cx: int, cy: int)
    requires
        cell_seq_contains(cells, (cx, cy)),
    ensures
        exists|s: int|
            #![trigger cell_seq_contains(cells, (s, cy))]
            s <= cx && cell_seq_contains(cells, (s, cy)) && !cell_seq_contains(cells, (s - 1, cy))
                && (forall|t: int| s <= t <= cx ==> cell_seq_contains(cells, (t, cy))),
    decreases cx - i32::MIN,
{
    let k = choose|k: int|
        #![auto]
        0 <= k < cells.len() && cells[k].0 as int == cx && cells[k].1 as int == cy;
    assert(cx >= i32::MIN);
    if !cell_seq_contains(cells, (cx - 1, cy)) {
        assert(cx <= cx && cell_seq_contains(cells, (cx, cy)) && !cell_seq_contains(
            cells,
            (cx - 1, cy),
        ) && (forall|t: int| cx <= t <= cx ==> cell_seq_contains(cells, (t, cy))));
    } else {
        let k2 = choose|k2: int|
            #![auto]
            0 <= k2 < cells.len() && cells[k2].0 as int == cx - 1 && cells[k2].1 as int == cy;
        assert(cx - 1 >= i32::MIN);
        lemma_start_exists(cells, cx - 1, cy);
        let s = choose|s: int|
            #![trigger cell_seq_contains(cells, (s, cy))]
            s <= cx - 1 && cell_seq_contains(cells, (s, cy)) && !cell_seq_contains(
                cells,
                (s - 1, cy),
            ) && (forall|t: int| s <= t <= cx - 1 ==> cell_seq_contains(cells, (t, cy)));
        assert(forall|t: int| s <= t <= cx ==> cell_seq_contains(cells, (t, cy)));
    }
}

/// Two maximal runs over the same cells that share a cell are the same run.
proof fn lemma_overlapping_maximal_runs_equal(
    r1: PlatformRun,
    r2: PlatformRun,
    cells: Seq<(i32, i32)>,
    c: (int, int),
)
    requires
        run_covers(r1, c),
        run_covers(r2, c),
        run_in_cells(r1, cells),
        run_in_cells(r2, cells),
        run_maximal_in(r1, cells),
        run_maximal_in(r2, cells),
    ensures
        r1 == r2,
{
    let y = r1.y as int;
    assert(r1.y == r2.y);
    if r1.start_x < r2.start_x {
        assert(run_covers(r1, (r2.start_x - 1, y)));
        assert(false);
    }
    if r2.start_x < r1.start_x {
        assert(run_covers(r2, (r1.start_x - 1, y)));
        assert(false);
    }
    if r1.start_x + r1.length < r2.start_x + r2.length {
        assert(run_covers(r2, (r1.start_x + r1.length, y)));
        assert(false);
    }
    if r2.start_x + r2.length < r1.start_x + r1.length {
        assert(run_covers(r1, (r2.start_x + r2.length, y)));
        assert(false);
    }
    assert(r1.length == r2.length);
}

/// Pushing a new maximal run whose start cell was not the start of any
/// earlier run keeps the runs disjoint.
proof fn lemma_push_disjoint(
    runs: Seq<PlatformRun>,
    n: PlatformRun,
    cells: Seq<(i32, i32)>,
    i: int,
)
    requires
        cells_distinct(cells),
        0 <= i < cells.len(),
        n.start_x == cells[i].0,
        n.y == cells[i].1,
        run_in_cells(n, cells),
        run_maximal_in(n, cells),
        runs_disjoint(runs),
        forall|k: int|
            #![auto]
            0 <= k < runs.len() ==> run_in_cells(runs[k], cells) && run_maximal_in(runs[k], cells),
        forall|k: int| 0 <= k < runs.len() ==> #[trigger] run_start_recorded(runs, k, cells, i),
    ensures
        runs_disjoint(runs.push(n)),
{
    let pushed = runs.push(n);
    assert forall|a: int, b: int, c: (int, int)|
        #![trigger run_covers(pushed[a], c), run_covers(pushed[b], c)]
        0 <= a < b < pushed.len() implies !(run_covers(pushed[a], c) && run_covers(
        pushed[b],
        c,
    )) by {
        if b < runs.len() {
            assert(pushed[a] == runs[a] && pushed[b] == runs[b]);
            assert(!(run_covers(runs[a], c) && run_covers(runs[b], c)));
        } else {
            assert(pushed[b] == n && pushed[a] == runs[a]);
            if run_covers(runs[a], c) && run_covers(n, c) {
                lemma_overlapping_maximal_runs_equal(runs[a], n, cells, c);
                assert(run_start_recorded(runs, a, cells, i));
                let j = choose|j: int|
                    #![auto]
                    0 <= j < i && cells[j].0 == runs[a].start_x && cells[j].1 == runs[a].y;
                assert(cells[j] == cells[i]);
                assert(false);
            }
        }
    }
}

/// Merge the platform tiles of a level into maximal horizontal runs.
///
/// The returned runs exactly partition the set of platform cells: every
/// platform cell is covered by exactly one run, every covered cell is a
/// platform cell, and no run can be extended to either side. Those
/// properties determine the runs uniquely; only their order in the vector is
/// left open.
pub fn merge_platform_runs(tiles: &Vec<TileEntry>) -> (runs: Vec<PlatformRun>)
    ensures
        runs_partition(runs@, tiles@),
{
    let cells = collect_platform_cells(tiles);
    let mut runs: Vec<PlatformRun> = Vec::new();
    let mut i: usize = 0;
    while i < cells.len()
        invariant
            i <= cells@.len(),
            cells_distinct(cells@),
            forall|c: (int, int)|
                #![auto]
                cell_seq_contains(cells@, c) <==> platform_cells(tiles@).contains(c),
            runs_disjoint(runs@),
            forall|k: int| 0 <= k < runs@.len() ==> (#[trigger] runs@[k]).length >= 1,
            forall|k: int|
                #![auto]
                0 <= k < runs@.len() ==> run_in_cells(runs@[k], cells@) && run_maximal_in(
                    runs@[k],
                    cells@,
                ),
            forall|k: int|
                0 <= k < runs@.len() ==> #[trigger] run_start_recorded(runs@, k, cells@, i as int),
            forall|j: int|
                #![auto]
                0 <= j < i && !cell_seq_contains(cells@, (cells@[j].0 - 1, cells@[j].1 as int))
                    ==> covered_by(runs@, (cells@[j].0 as int, cells@[j].1 as int)),
        decreases cells@.len() - i,
    {
        let c = cells[i];
        let x = c.0;
        let y = c.1;
        if !cells_contain(&cells, x as i128 - 1, y as i128) {
            let mut len: usize = 1;
            proof {
                assert(cells@[i as int].0 as int == x as int && cells@[i as int].1 as int
                    == y as int);
                assert(cell_seq_contains(cells@, (x as int, y as int)));
                lemma_run_length_bounded(cells@, x as int, y as int, 1);
            }
            loop
                invariant
                    1 <= len <= cells@.len(),
                    forall|t: int|
                        x <= t < x + len ==> cell_seq_contains(cells@, (t, y as int)),
                ensures
                    1 <= len <= cells@.len(),
                    forall|t: int|
                        x <= t < x + len ==> cell_seq_contains(cells@, (t, y as int)),
                    !cell_seq_contains(cells@, (x + len, y as int)),
                decreases cells@.len() - len,
            {
                if !cells_contain(&cells, x as i128 + len as i128, y as i128) {
                    break ;
                }
                proof {
                    assert forall|t: int|
                        x <= t < x + len + 1 implies cell_seq_contains(cells@, (t, y as int)) by {
                        if t < x + len {
                        } else {
                            assert(t == x + len);
                        }
                    }
                    lemma_run_length_bounded(cells@, x as int, y as int, len + 1);
                }
                len = len + 1;
            }
            let run = PlatformRun { start_x: x, y, length: len };
            proof {
                assert(run_in_cells(run, cells@)) by {
                    assert forall|cc: (int, int)| #[trigger]
                        run_covers(run, cc) implies cell_seq_contains(cells@, cc) by {
                        assert(cc.1 == y as int && x <= cc.0 < x + len);
                    }
                }
                assert(run_maximal_in(run, cells@));
                lemma_push_disjoint(runs@, run, cells@, i as int);
            }
            let ghost runs0 = runs@;
            runs.push(run);
            proof {
                assert(runs@ == runs0.push(run));
                assert forall|k: int|
                    0 <= k < runs@.len() implies #[trigger] run_start_recorded(
                    runs@,
                    k,
                    cells@,
                    i + 1,
                ) by {
                    if k < runs0.len() {
                        assert(run_start_recorded(runs0, k, cells@, i as int));
                        let j = choose|j: int|
                            #![auto]
                            0 <= j < i && cells@[j].0 == runs0[k].start_x && cells@[j].1
                                == runs0[k].y;
                        assert(runs@[k] == runs0[k]);
                        assert(0 <= j < i + 1 && cells@[j].0 == runs@[k].start_x && cells@[j].1
                            == runs@[k].y);
                    } else {
                        assert(runs@[k] == run);
                        assert(0 <= i < i + 1 && cells@[i as int].0 == run.start_x
                            && cells@[i as int].1 == run.y);
                    }
                }
                assert forall|j: int|
                    #![auto]
                    0 <= j < i + 1 && !cell_seq_contains(
                        cells@,
                        (cells@[j].0 - 1, cells@[j].1 as int),
                    ) implies covered_by(runs@, (cells@[j].0 as int, cells@[j].1 as int)) by {
                    if j < i {
                        let k = choose|k: int|
                            0 <= k < runs0.len() && #[trigger] run_covers(
                                runs0[k],
                                (cells@[j].0 as int, cells@[j].1 as int),
                            );
                        assert(runs@[k] == runs0[k]);
                        assert(run_covers(runs@[k], (cells@[j].0 as int, cells@[j].1 as int)));
                    } else {
                        assert(run_covers(run, (x as int, y as int)));
                        assert(runs@[runs0.len() as int] == run);
                    }
                }
            }
        } else {
            proof {
                assert(cells@[i as int].0 as int == x as int && cells@[i as int].1 as int
                    == y as int);
                assert forall|k: int|
                    0 <= k < runs@.len() implies #[trigger] run_start_recorded(
                    runs@,
                    k,
                    cells@,
                    i + 1,
                ) by {
                    assert(run_start_recorded(runs@, k, cells@, i as int));
                    let j = choose|j: int|
                        #![auto]
                        0 <= j < i && cells@[j].0 == runs@[k].start_x && cells@[j].1 == runs@[k].y;
                    assert(0 <= j < i + 1 && cells@[j].0 == runs@[k].start_x && cells@[j].1
                        == runs@[k].y);
                }
            }
        }
        i = i + 1;
    }
    proof {
        assert forall|c: (int, int)| #[trigger]
            covered_by(runs@, c) implies platform_cells(tiles@).contains(c) by {
            let k = choose|k: int| 0 <= k < runs@.len() && #[trigger] run_covers(runs@[k], c);
            assert(cell_seq_contains(cells@, c));
        }
        assert forall|c: (int, int)| #[trigger]
            platform_cells(tiles@).contains(c) implies covered_by(runs@, c) by {
            assert(cell_seq_contains(cells@, c));
            lemma_start_exists(cells@, c.0, c.1);
            let s = choose|s: int|
                #![trigger cell_seq_contains(cells@, (s, c.1))]
                s <= c.0 && cell_seq_contains(cells@, (s, c.1)) && !cell_seq_contains(
                    cells@,
                    (s - 1, c.1),
                ) && (forall|t: int| s <= t <= c.0 ==> cell_seq_contains(cells@, (t, c.1)));
            let j = choose|j: int|
                #![auto]
                0 <= j < cells@.len() && cells@[j].0 as int == s && cells@[j].1 as int == c.1;
            assert(!cell_seq_contains(cells@, (cells@[j].0 - 1, cells@[j].1 as int)));
            assert(covered_by(runs@, (s, c.1)));
            let k = choose|k: int|
                0 <= k < runs@.len() && #[trigger] run_covers(runs@[k], (s, c.1));
            let r = runs@[k];
            assert(run_covers(r, (c.0, c.1))) by {
                if r.start_x + r.length <= c.0 {
                    let e = r.start_x + r.length;
                    assert(s <= e <= c.0);
                    assert(cell_seq_contains(cells@, (e, c.1)));
                    assert(r.y as int == c.1);
                    assert(false);
                }
            }
            assert(covered_by(runs@, c)) by {
                assert(run_covers(runs@[k], c));
            }
        }
        assert forall|k: int|
            0 <= k < runs@.len() implies run_in_set(
            #[trigger] runs@[k],
            platform_cells(tiles@),
        ) by {
            assert forall|c: (int, int)| #[trigger]
                run_covers(runs@[k], c) implies platform_cells(tiles@).contains(c) by {
                assert(cell_seq_contains(cells@, c));
            }
        }
        assert forall|k: int|
            0 <= k < runs@.len() implies run_maximal(#[trigger] runs@[k], platform_cells(tiles@)) by {
            assert(run_maximal_in(runs@[k], cells@));
        }
    }
    runs
}

/// A run that lies inside the platform-cell set of a tile list stays inside
/// the grid's coordinate range.
pub proof fn lemma_run_bounds(r: PlatformRun, tiles: Seq<TileEntry>)
    requires
        r.length >= 1,
        run_in_set(r, platform_cells(tiles)),
    ensures
        i32::MIN <= r.start_x + r.length - 1 <= i32::MAX,
{
    assert(run_covers(r, (r.start_x + r.length - 1, r.y as int)));
    assert(platform_cells(tiles).contains((r.start_x + r.length - 1, r.y as int)));
    let i = choose|i: int|
        #![auto]
        0 <= i < tiles.len() && tiles[i].kind == TileKind::Platform && tiles[i].x as int
            == r.start_x + r.length - 1 && tiles[i].y as int == r.y as int;
}

/// One static collision rectangle, in world units.
#[derive(Clone, Copy, PartialEq, Eq, Structural, Debug)]
pub struct ColliderRect {
    pub center_x: i64,
    pub center_y: i64,
    pub width: i64,
    pub height: i64,
}

/// Scale a grid coordinate to world units.
pub fn grid_to_world(c: i32) -> (w: i64)
    ensures
        w == TILE_SIZE * c,
{
    (c as i64) * TILE_SIZE
}

/// The collider of a merged run: one tile high, `length` tiles wide,
/// centred on the run's midpoint. A run of length 1 yields a collider
/// exactly one tile wide.
pub fn run_collider(r: &PlatformRun) -> (rect: ColliderRect)
    requires
        1 <= r.length,
        r.start_x + r.length - 1 <= i32::MAX,
    ensures
        rect.width == TILE_SIZE * r.length,
        rect.height == TILE_SIZE,
        rect.center_x == TILE_SIZE * r.start_x + (rect.width - TILE_SIZE) / 2,
        rect.center_y == TILE_SIZE * r.y,
{
    let width = (r.length as i64) * TILE_SIZE;
    let center_x = (r.start_x as i64) * TILE_SIZE + (width - TILE_SIZE) / 2;
    let center_y = (r.y as i64) * TILE_SIZE;
    ColliderRect { center_x, center_y, width, height: TILE_SIZE }
}

/// The collider a run must get, as a value.
pub open spec fn collider_spec(r: PlatformRun) -> ColliderRect {
    ColliderRect {
        center_x: (TILE_SIZE * r.start_x + (TILE_SIZE * r.length - TILE_SIZE) / 2) as i64,
        center_y: (TILE_SIZE * r.y) as i64,
        width: (TILE_SIZE * r.length) as i64,
        height: TILE_SIZE,
    }
}

/// Merge a level's platform tiles and build the collider of every run: the
/// collision side of loading a level. The runs partition the platform cells
/// and each collider is exactly the one its run asks for.
pub fn level_colliders(tiles: &Vec<TileEntry>) -> (r: (Vec<PlatformRun>, Vec<ColliderRect>))
    ensures
        runs_partition(r.0@, tiles@),
        r.1@.len() == r.0@.len(),
        forall|k: int| 0 <= k < r.0@.len() ==> r.1@[k] == collider_spec(#[trigger] r.0@[k]),
{
    let runs = merge_platform_runs(tiles);
    let mut rects: Vec<ColliderRect> = Vec::new();
    let mut i: usize = 0;
    while i < runs.len()
        invariant
            i <= runs@.len(),
            rects@.len() == i,
            runs_partition(runs@, tiles@),
            forall|k: int| 0 <= k < i ==> rects@[k] == collider_spec(#[trigger] runs@[k]),
        decreases runs@.len() - i,
    {
        proof {
            lemma_run_bounds(runs@[i as int], tiles@);
        }
        let rect = run_collider(&runs[i]);
        proof {
            assert(rect == collider_spec(runs@[i as int]));
        }
        rects.push(rect);
        i = i + 1;
    }
    (runs, rects)
}

/// What the engine must do after the exit check: switch screens and, on a
/// fresh unlock, write the progress file.
#[derive(Clone, Copy, Debug)]
pub struct ExitOutcome {
    pub next_state: Option<GameState>,
    pub save_progress: bool,
}

/// The screen that follows a cleared level: the pass-through transition
/// while levels remain, the victory screen after the last one.
pub open spec fn exit_next_state(new_level: usize, level_count: usize) -> GameState {
    if new_level < level_count {
        GameState::LevelTransition
    } else {
        GameState::Victory
    }
}

/// The exit check of one simulation step. When the player overlaps the exit
/// region, the level counter advances, a genuine unlock raises the saved
/// progress (and asks for exactly one write), and the game moves on: to the
/// next level through `LevelTransition`, or to `Victory` after the last.
/// Without an overlap nothing changes.
pub fn check_exit(
    player_on_exit: bool,
    current_level: &mut CurrentLevel,
    progress: &mut PlayerProgress,
) -> (outcome: ExitOutcome)
    requires
        old(current_level).0 < LEVEL_COUNT,
    ensures
        !player_on_exit ==> final(current_level).0 == old(current_level).0 && *final(progress)
            == *old(progress) && outcome.next_state is None && !outcome.save_progress,
        player_on_exit ==> {
            &&& final(current_level).0 == old(current_level).0 + 1
            &&& *final(progress) == unlocked_after(*old(progress), (old(current_level).0 + 1) as usize)
            &&& (outcome.save_progress <==> old(current_level).0 + 1 > old(
                progress,
            ).max_unlocked_level)
            &&& outcome.next_state == Some(
                exit_next_state((old(current_level).0 + 1) as usize, LEVEL_COUNT),
            )
        },
        final(progress).max_unlocked_level >= old(progress).max_unlocked_level,
{
    if !player_on_exit {
        return ExitOutcome { next_state: None, save_progress: false };
    }
    current_level.0 = current_level.0 + 1;
    let wrote = unlock(progress, current_level.0);
    let next = if current_level.0 < LEVEL_COUNT {
        GameState::LevelTransition
    } else {
        GameState::Victory
    };
    ExitOutcome { next_state: Some(next), save_progress: wrote }
}

/// `LevelTransition` passes straight back into `Playing`, forcing the level
/// to be rebuilt.
pub fn transition_to_playing() -> (s: GameState)
    ensures
        s == GameState::Playing,
{
    GameState::Playing
}

/// The hazard check of one simulation step. When the player overlaps a
/// spike cell, both death counters go up by one and the player must be put
/// back at the spawn point with zeroed velocity (the returned flag); the
/// screen does not change. Without an overlap nothing changes.
pub fn check_spikes(player_on_spikes: bool, counter: &mut DeathCounter) -> (respawn: bool)
    requires
        old(counter).total < usize::MAX,
        old(counter).current_level < usize::MAX,
    ensures
        respawn == player_on_spikes,
        player_on_spikes ==> final(counter).current_level == old(counter).current_level + 1
            && final(counter).total == old(counter).total + 1,
        !player_on_spikes ==> *final(counter) == *old(counter),
{
    if !player_on_spikes {
        return false;
    }
    counter.current_level = counter.current_level + 1;
    counter.total = counter.total + 1;
    true
}

/// Everything one simulation step of play may demand of the engine.
#[derive(Clone, Copy, Debug)]
pub struct PlayingOutcome {
    pub next_state: Option<GameState>,
    pub save_progress: bool,
    pub respawn: bool,
}

/// One simulation step of the hazard/exit resolver: the exit check runs
/// first and decides the screen, then the hazard check counts a death and
/// asks for a respawn. Each behaves exactly as `check_exit` and
/// `check_spikes` do on their own.
pub fn playing_step(
    player_on_exit: bool,
    player_on_spikes: bool,
    current_level: &mut CurrentLevel,
    progress: &mut PlayerProgress,
    counter: &mut DeathCounter,
) -> (o: PlayingOutcome)
    requires
        old(current_level).0 < LEVEL_COUNT,
        old(counter).total < usize::MAX,
        old(counter).current_level < usize::MAX,
    ensures
        !player_on_exit ==> final(current_level).0 == old(current_level).0 && *final(progress)
            == *old(progress) && o.next_state is None && !o.save_progress,
        player_on_exit ==> {
            &&& final(current_level).0 == old(current_level).0 + 1
            &&& *final(progress) == unlocked_after(
                *old(progress),
                (old(current_level).0 + 1) as usize,
            )
            &&& (o.save_progress <==> old(current_level).0 + 1 > old(
                progress,
            ).max_unlocked_level)
            &&& o.next_state == Some(
                exit_next_state((old(current_level).0 + 1) as usize, LEVEL_COUNT),
            )
        },
        o.respawn == player_on_spikes,
        player_on_spikes ==> final(counter).current_level == old(counter).current_level + 1
            && final(counter).total == old(counter).total + 1,
        !player_on_spikes ==> *final(counter) == *old(counter),
        final(progress).max_unlocked_level >= old(progress).max_unlocked_level,
{
    let exit_outcome = check_exit(player_on_exit, current_level, progress);
    let respawn = check_spikes(player_on_spikes, counter);
    PlayingOutcome {
        next_state: exit_outcome.next_state,
        save_progress: exit_outcome.save_progress,
        respawn,
    }
}

} // verus!
