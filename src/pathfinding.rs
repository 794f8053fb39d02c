use crate::cache::{bumped, copy_path, PathfindingCache};
use crate::components::{dist_sq, is_floor_sqrt, terrain_cost, Position};
use crate::resources::MapData;
use vstd::prelude::*;

verus! {

/// Largest number of tiles a searched map may have, so that path costs fit in `u32`.
pub const MAX_SEARCH_TILES: u64 = 4_000_000;

/// `b` is one of the eight cells around `a`.
pub open spec fn is_neighbor(a: Position, b: Position) -> bool {
    &&& a != b
    &&& -1 <= b.x - a.x <= 1
    &&& -1 <= b.y - a.y <= 1
}

/// Cost of one move from `a` to `b`: the terrain cost of `b`, scaled by 141/100 on a diagonal.
/// `None` where the move is not allowed.
pub open spec fn step_cost(map: MapData, a: Position, b: Position) -> Option<nat> {
    if is_neighbor(a, b) {
        match map.tile(b.x as int, b.y as int) {
            Some(t) => match terrain_cost(t.tile_type) {
                Some(c) => Some(
                    if a.x != b.x && a.y != b.y {
                        c * 141 / 100
                    } else {
                        c * 100 / 100
                    },
                ),
                None => None,
            },
            None => None,
        }
    } else {
        None
    }
}

/// A non-empty sequence of cells, each reachable from the previous one by an allowed move.
pub open spec fn is_walk(map: MapData, w: Seq<Position>) -> bool {
    &&& w.len() >= 1
    &&& forall|i: int| 0 <= i < w.len() - 1 ==> #[trigger] step_cost(map, w[i], w[i + 1]) is Some
}

/// Total cost of the moves of a walk.
pub open spec fn walk_cost(map: MapData, w: Seq<Position>) -> nat
    decreases w.len(),
{
    if w.len() <= 1 {
        0
    } else {
        walk_cost(map, w.drop_last()) + step_cost(map, w[w.len() - 2], w[w.len() - 1]).unwrap()
    }
}

/// A walk that starts at `from` and ends at `to`.
pub open spec fn is_route(map: MapData, w: Seq<Position>, from: Position, to: Position) -> bool {
    is_walk(map, w) && w[0] == from && w.last() == to
}

pub open spec fn reachable(map: MapData, from: Position, to: Position) -> bool {
    exists|w: Seq<Position>| is_route(map, w, from, to)
}

/// A route no other route between the same cells undercuts.
pub open spec fn is_shortest_route(map: MapData, w: Seq<Position>, from: Position, to: Position) -> bool {
    &&& is_route(map, w, from, to)
    &&& forall|v: Seq<Position>| #[trigger] is_route(map, v, from, to) ==> walk_cost(map, w) <= walk_cost(map, v)
}

/// Every path in the cache is a route between its key's cells on `map`.
pub open spec fn cache_matches(cache: PathfindingCache, map: MapData) -> bool {
    forall|a: Position, b: Position|
        #[trigger] cache.cached(a, b) is Some ==> is_shortest_route(map, cache.cached(a, b).unwrap(), a, b)
            && cache.cached(a, b).unwrap().no_duplicates()
}

/// A map small enough to search.
pub open spec fn searchable(map: MapData) -> bool {
    &&& map.wf()
    &&& map.width as nat * map.height as nat <= MAX_SEARCH_TILES
}

/// The cells that can be entered from `pos`, each with the cost of the move.
pub fn get_neighbors(map: &MapData, pos: Position) -> (r: Vec<(Position, u32)>)
    requires
        map.wf(),
    ensures
        forall|i: int| 0 <= i < r@.len() ==> step_cost(*map, pos, #[trigger] r@[i].0) == Some(r@[i].1 as nat),
        forall|q: Position| #[trigger] step_cost(*map, pos, q) is Some ==> exists|i: int| 0 <= i < r@.len() && r@[i].0 == q,
{
    let mut neighbors: Vec<(Position, u32)> = Vec::new();
    let mut dx: i64 = -1;
    while dx <= 1
        invariant
            map.wf(),
            -1 <= dx <= 2,
            forall|i: int| 0 <= i < neighbors@.len() ==> step_cost(*map, pos, #[trigger] neighbors@[i].0) == Some(neighbors@[i].1 as nat),
            forall|q: Position| #[trigger] step_cost(*map, pos, q) is Some && q.x - pos.x < dx
                ==> exists|i: int| 0 <= i < neighbors@.len() && neighbors@[i].0 == q,
        decreases 2 - dx,
    {
        let mut dy: i64 = -1;
        while dy <= 1
            invariant
                map.wf(),
                -1 <= dx <= 1,
                -1 <= dy <= 2,
                forall|i: int| 0 <= i < neighbors@.len() ==> step_cost(*map, pos, #[trigger] neighbors@[i].0) == Some(neighbors@[i].1 as nat),
                forall|q: Position| #[trigger] step_cost(*map, pos, q) is Some && (q.x - pos.x < dx || (q.x - pos.x == dx && q.y - pos.y < dy))
                    ==> exists|i: int| 0 <= i < neighbors@.len() && neighbors@[i].0 == q,
            decreases 2 - dy,
        {
            let ghost before = neighbors@;
            let nx: i64 = pos.x as i64 + dx;
            let ny: i64 = pos.y as i64 + dy;
            if (dx != 0 || dy != 0) && i32::MIN as i64 <= nx && nx <= i32::MAX as i64 && i32::MIN as i64 <= ny && ny
                <= i32::MAX as i64 {
                let new_pos = Position::new(nx as i32, ny as i32);
                if let Some(tile) = map.get_tile(new_pos.x, new_pos.y) {
                    if let Some(cost) = tile.movement_cost() {
                        let diagonal_cost: u32 = if dx != 0 && dy != 0 { 141 } else { 100 };
                        let step = cost * diagonal_cost / 100;
                        neighbors.push((new_pos, step));
                    }
                }
            }
            proof {
                assert forall|q: Position| #[trigger] step_cost(*map, pos, q) is Some && (q.x - pos.x < dx || (q.x - pos.x
                    == dx && q.y - pos.y < dy + 1)) implies exists|i: int| 0 <= i < neighbors@.len() && neighbors@[i].0 == q by {
                    if q.x - pos.x == dx && q.y - pos.y == dy {
                        assert(q.x == nx && q.y == ny);
                        assert(neighbors@[neighbors@.len() - 1].0 == q);
                    } else {
                        let i = choose|i: int| 0 <= i < before.len() && before[i].0 == q;
                        assert(neighbors@[i] == before[i]);
                    }
                }
            }
            dy = dy + 1;
        }
        dx = dx + 1;
    }
    neighbors
}

/// Estimate of the remaining cost: the Euclidean distance in whole tiles.
fn heuristic(p: &Position, goal: &Position) -> (r: u32)
    ensures
        exists|d: nat| is_floor_sqrt(dist_sq(*p, *goal), d) && r == (if d <= u32::MAX { d } else { u32::MAX as nat }),
{
    let d = p.distance_to(goal);
    if d <= u32::MAX as u64 {
        d as u32
    } else {
        u32::MAX
    }
}

fn at_goal(p: &Position, goal: &Position) -> (r: bool)
    ensures
        r == (*p == *goal),
{
    p.x == goal.x && p.y == goal.y
}

/// Relies on pathfinding::directed::astar::astar: it returns a cheapest path from `from` to a cell
/// where the goal test holds, given costs that are not negative and an estimate that never
/// exceeds the true remaining cost (the straight-line distance in tiles is below the cost of any
/// move, which is at least 50); the path holds no cell twice, and `None` means no such path exists.
/// Costs stay below `u32::MAX` on a searchable map.
#[verifier::external_body]
fn astar_search(map: &MapData, from: Position, to: Position) -> (r: Option<(Vec<Position>, u32)>)
    requires
        searchable(*map),
        map.in_bounds(to.x as int, to.y as int),
    ensures
        r matches Some((p, c)) ==> is_shortest_route(*map, p@, from, to) && c as nat == walk_cost(*map, p@)
            && p@.no_duplicates(),
        r is None ==> !reachable(*map, from, to),
{
    pathfinding::prelude::astar(
        &from,
        |p| get_neighbors(map, *p),
        |p| heuristic(p, &to),
        |p| at_goal(p, &to),
    )
}

/// Result of a path lookup as plain sequences.
pub open spec fn path_view(r: Option<Vec<Position>>) -> Option<Seq<Position>> {
    match r {
        Some(p) => Some(p@),
        None => None,
    }
}

/// What a call of `find_path` on `map` from `from` to `to` guarantees, relating the cache before
/// (`c0`) and after (`c1`) to the result `r`.
pub open spec fn find_path_post(
    c0: PathfindingCache,
    c1: PathfindingCache,
    map: MapData,
    from: Position,
    to: Position,
    r: Option<Seq<Position>>,
) -> bool {
    &&& c1.wf()
    &&& cache_matches(c1, map)
    &&& c1.max_cache_size == c0.max_cache_size
    &&& (r matches Some(p) ==> is_shortest_route(map, p, from, to) && p.no_duplicates())
    &&& (r is None <==> !reachable(map, from, to))
    &&& match c0.cached(from, to) {
        Some(p) => {
            &&& r == Some(p)
            &&& c1.entries@ == c0.entries@
            &&& c1.cache_hits == bumped(c0.cache_hits)
            &&& c1.cache_misses == c0.cache_misses
        },
        None => {
            &&& c1.cache_hits == c0.cache_hits
            &&& c1.cache_misses == bumped(c0.cache_misses)
            &&& (r matches Some(p) ==> is_shortest_route(map, p, from, to))
            &&& (r is Some && c0.max_cache_size > 0 ==> c1.cached(from, to) == r)
            &&& (r is None ==> c1.entries@ == c0.entries@)
        },
    }
}

/// A route from `from` to `to`, taken from the cache or searched for and then cached.
/// `None` exactly when no route exists.
pub fn find_path(cache: &mut PathfindingCache, map: &MapData, from: Position, to: Position) -> (r: Option<
    Vec<Position>,
>)
    requires
        old(cache).wf(),
        searchable(*map),
        cache_matches(*old(cache), *map),
    ensures
        find_path_post(*old(cache), *final(cache), *map, from, to, path_view(r)),
{
    let ghost c0 = *cache;
    if let Some(cached_path) = cache.get(from, to) {
        proof {
            let p = cached_path@;
            assert(is_route(*map, p, from, to));
            assert(reachable(*map, from, to));
            assert(cache.cached(from, to) == c0.cached(from, to));
            assert forall|a: Position, b: Position| #[trigger] cache.cached(a, b) is Some implies is_shortest_route(
                *map,
                cache.cached(a, b).unwrap(),
                a,
                b,
            ) && cache.cached(a, b).unwrap().no_duplicates() by {
                assert(cache.cached(a, b) == c0.cached(a, b));
            }
        }
        return Some(cached_path);
    }
    let ghost c1 = *cache;
    assert(cache_matches(c1, *map)) by {
        assert forall|a: Position, b: Position| #[trigger] c1.cached(a, b) is Some implies is_shortest_route(
            *map,
            c1.cached(a, b).unwrap(),
            a,
            b,
        ) && c1.cached(a, b).unwrap().no_duplicates() by {
            assert(c1.cached(a, b) == c0.cached(a, b));
        }
    }
    let result: Option<(Vec<Position>, u32)> = if map.is_valid_position(to.x, to.y) {
        astar_search(map, from, to)
    } else if at_goal(&from, &to) {
        let mut single: Vec<Position> = Vec::new();
        single.push(from);
        proof {
            assert(is_route(*map, single@, from, to));
            assert forall|v: Seq<Position>| #[trigger] is_route(*map, v, from, to) implies walk_cost(*map, single@) <= walk_cost(*map, v) by {}
            assert(single@.no_duplicates());
        }
        Some((single, 0))
    } else {
        proof {
            assert forall|w: Seq<Position>| !is_route(*map, w, from, to) by {
                if is_route(*map, w, from, to) {
                    if w.len() >= 2 {
                        let i = w.len() - 2;
                        assert(step_cost(*map, w[i], w[i + 1]) is Some);
                    }
                }
            }
        }
        None
    };
    match result {
        Some((path, _cost)) => {
            let ghost p = path@;
            assert(reachable(*map, from, to)) by {
                assert(is_route(*map, p, from, to));
            }
            let stored = copy_path(&path);
            cache.insert(from, to, stored);
            proof {
                assert forall|a: Position, b: Position| #[trigger] cache.cached(a, b) is Some implies is_shortest_route(
                    *map,
                    cache.cached(a, b).unwrap(),
                    a,
                    b,
                ) && cache.cached(a, b).unwrap().no_duplicates() by {
                    if (a, b) != (from, to) {
                        assert(cache.cached(a, b) == c1.cached(a, b) || cache.cached(a, b) is None);
                        if cache.cached(a, b) is Some {
                            assert(c1.cached(a, b) == cache.cached(a, b));
                        }
                    } else if c1.max_cache_size == 0 {
                        assert(cache.entries@ == c1.entries@);
                    }
                }
            }
            Some(path)
        },
        None => None,
    }
}

/// Asking twice in a row for the same route on an unchanged map: when the first call found a
/// route and the cache can hold an entry, the second call is answered from the cache (one more
/// hit, no more misses) with the same path.
pub proof fn lemma_repeated_lookup_hits(
    c0: PathfindingCache,
    c1: PathfindingCache,
    c2: PathfindingCache,
    map: MapData,
    from: Position,
    to: Position,
    r1: Option<Seq<Position>>,
    r2: Option<Seq<Position>>,
)
    requires
        c0.max_cache_size > 0,
        find_path_post(c0, c1, map, from, to, r1),
        find_path_post(c1, c2, map, from, to, r2),
        r1 is Some,
    ensures
        c1.cached(from, to) == r1,
        r2 == r1,
        c2.cache_hits == bumped(c1.cache_hits),
        c2.cache_misses == c1.cache_misses,
        c2.entries@ == c1.entries@,
{
}

} // verus!
