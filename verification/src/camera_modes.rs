//! Choosing and ordering the capture modes a camera offers. A mode is a
//! `(width, height, fps)` triple.
use vstd::prelude::*;

verus! {

/// The distance between two frame rates.
pub open spec fn fps_gap(fps: u32, requested: u32) -> int {
    if fps >= requested {
        fps - requested
    } else {
        requested - fps
    }
}

/// How far a mode's shape is from 16:9, in millionths of its height.
pub open spec fn aspect_error(width: u32, height: u32) -> int {
    let w9 = width * 9;
    let h16 = height * 16;
    let gap = if w9 >= h16 {
        w9 - h16
    } else {
        h16 - w9
    };
    gap * 1_000_000 / (if height == 0 {
        1
    } else {
        height as int
    })
}

/// Whether mode `a` is a strictly worse preference than `b` for a request at
/// `requested` fps: a farther frame rate, then a farther shape from 16:9, then
/// fewer pixels.
pub open spec fn preference_worse(
    a: (u32, u32, u32),
    b: (u32, u32, u32),
    requested: u32,
) -> bool {
    let (aw, ah, af) = a;
    let (bw, bh, bf) = b;
    fps_gap(af, requested) > fps_gap(bf, requested) || (fps_gap(af, requested) == fps_gap(
        bf,
        requested,
    ) && (aspect_error(aw, ah) > aspect_error(bw, bh) || (aspect_error(aw, ah) == aspect_error(
        bw,
        bh,
    ) && aw * ah < bw * bh)))
}

/// `|a - b|` for frame rates.
fn fps_distance(fps: u32, requested: u32) -> (r: u32)
    ensures
        r == fps_gap(fps, requested),
{
    if fps >= requested {
        fps - requested
    } else {
        requested - fps
    }
}

/// The shape error of a mode, as `aspect_error` defines it.
fn mode_aspect_error(width: u32, height: u32) -> (r: u64)
    ensures
        r == aspect_error(width, height),
{
    let w9 = width as u64 * 9;
    let h16 = height as u64 * 16;
    let gap = if w9 >= h16 {
        w9 - h16
    } else {
        h16 - w9
    };
    assert(gap * 1_000_000 <= 0x10_0000_0000 * 1_000_000) by (nonlinear_arith)
        requires
            gap <= 0x10_0000_0000,
    ;
    let divisor = if height == 0 {
        1
    } else {
        height as u64
    };
    gap * 1_000_000 / divisor
}

/// Whether `a` is a strictly worse preference than `b`.
fn is_worse_preference(a: (u32, u32, u32), b: (u32, u32, u32), requested: u32) -> (r: bool)
    ensures
        r == preference_worse(a, b, requested),
{
    let (aw, ah, af) = a;
    let (bw, bh, bf) = b;
    let ga = fps_distance(af, requested);
    let gb = fps_distance(bf, requested);
    if ga != gb {
        return ga > gb;
    }
    let ea = mode_aspect_error(aw, ah);
    let eb = mode_aspect_error(bw, bh);
    if ea != eb {
        return ea > eb;
    }
    mode_area(aw, ah) < mode_area(bw, bh)
}

/// The pixel count of a mode.
fn mode_area(width: u32, height: u32) -> (r: u64)
    ensures
        r == width * height,
{
    let w = width as u64;
    let h = height as u64;
    assert(w * h <= 0xffff_ffff * 0xffff_ffff) by (nonlinear_arith)
        requires
            w <= 0xffff_ffff,
            h <= 0xffff_ffff,
    ;
    w * h
}

/// Whether `s[k]` is the preferred mode of `s`: no mode is a better
/// preference, and every mode before it is a worse one.
pub open spec fn is_first_preferred(s: Seq<(u32, u32, u32)>, k: int, requested: u32) -> bool {
    &&& 0 <= k < s.len()
    &&& forall|j: int| 0 <= j < s.len() ==> !preference_worse(s[k], #[trigger] s[j], requested)
    &&& forall|j: int| 0 <= j < k ==> preference_worse(#[trigger] s[j], s[k], requested)
}

/// The mode offered by default for a request at `requested_fps`: the closest
/// frame rate, then the shape closest to 16:9, then the most pixels; the first
/// such mode when several tie. No modes, no preference.
pub fn preferred_mode(modes: &[(u32, u32, u32)], requested_fps: u32) -> (r: Option<
    (u32, u32, u32),
>)
    ensures
        modes@.len() == 0 <==> r is None,
        r matches Some(m) ==> exists|k: int|
            #[trigger] is_first_preferred(modes@, k, requested_fps) && modes@[k] == m,
{
    if modes.len() == 0 {
        return None;
    }
    let mut best: usize = 0;
    let mut i: usize = 1;
    while i < modes.len()
        invariant
            0 < modes@.len(),
            best < i <= modes@.len(),
            forall|j: int|
                0 <= j < i ==> !preference_worse(modes@[best as int], #[trigger] modes@[j], requested_fps),
            forall|j: int|
                0 <= j < best ==> preference_worse(#[trigger] modes@[j], modes@[best as int], requested_fps),
        decreases modes@.len() - i,
    {
        if is_worse_preference(modes[best], modes[i], requested_fps) {
            proof {
                assert forall|j: int| 0 <= j < i implies !preference_worse(
                    modes@[i as int],
                    #[trigger] modes@[j],
                    requested_fps,
                ) by {
                    lemma_preference_order(modes@[best as int], modes@[i as int], modes@[j], requested_fps);
                }
                assert forall|j: int| 0 <= j < i implies preference_worse(
                    #[trigger] modes@[j],
                    modes@[i as int],
                    requested_fps,
                ) by {
                    lemma_preference_order(modes@[best as int], modes@[i as int], modes@[j], requested_fps);
                }
            }
            best = i;
        }
        i = i + 1;
    }
    assert(is_first_preferred(modes@, best as int, requested_fps));
    Some(modes[best])
}

/// Preference is a strict weak order: when `a` is worse than `b`, anything not
/// better than `a` is worse than `b`, anything worse than `a` is worse than `b`,
/// and `a` is worse than anything `b` is worse than.
proof fn lemma_preference_order(
    a: (u32, u32, u32),
    b: (u32, u32, u32),
    c: (u32, u32, u32),
    requested: u32,
)
    requires
        preference_worse(a, b, requested),
    ensures
        !preference_worse(a, c, requested) ==> preference_worse(c, b, requested),
        preference_worse(c, a, requested) ==> preference_worse(c, b, requested),
        preference_worse(b, c, requested) ==> preference_worse(a, c, requested),
{
}

/// The orientation rank of a mode in a listing: landscape, square, portrait.
pub open spec fn orientation_rank(width: u32, height: u32) -> int {
    if width > height {
        0
    } else if width == height {
        1
    } else {
        2
    }
}

/// The longer edge of a mode.
pub open spec fn long_edge(width: u32, height: u32) -> int {
    if width >= height {
        width as int
    } else {
        height as int
    }
}

/// Whether `a` is listed strictly after `b`: modes go largest long edge first,
/// then landscape before square before portrait, then more pixels first, then
/// the frame rate nearest the request first.
pub open spec fn listed_after(a: (u32, u32, u32), b: (u32, u32, u32), requested: u32) -> bool {
    let (aw, ah, af) = a;
    let (bw, bh, bf) = b;
    long_edge(aw, ah) < long_edge(bw, bh) || (long_edge(aw, ah) == long_edge(bw, bh) && (
    orientation_rank(aw, ah) > orientation_rank(bw, bh) || (orientation_rank(aw, ah)
        == orientation_rank(bw, bh) && (aw * ah < bw * bh || (aw * ah == bw * bh && fps_gap(
        af,
        requested,
    ) > fps_gap(bf, requested))))))
}

/// Where `m` goes in the sorted listing `s`: after every mode it is not listed
/// strictly before, so that modes that tie keep their order.
pub open spec fn insert_position(s: Seq<(u32, u32, u32)>, m: (u32, u32, u32), requested: u32) -> int
    decreases s.len(),
{
    if s.len() == 0 {
        0
    } else if listed_after(s.last(), m, requested) {
        insert_position(s.drop_last(), m, requested)
    } else {
        s.len() as int
    }
}

/// `s` with `m` inserted at its place.
pub open spec fn insert_listed(s: Seq<(u32, u32, u32)>, m: (u32, u32, u32), requested: u32) -> Seq<
    (u32, u32, u32),
> {
    let p = insert_position(s, m, requested);
    s.take(p).push(m) + s.skip(p)
}

/// The listing of `s`: its modes in listing order, ties in their input
/// order (a stable sort).
pub open spec fn listing(s: Seq<(u32, u32, u32)>, requested: u32) -> Seq<(u32, u32, u32)>
    decreases s.len(),
{
    if s.len() == 0 {
        s
    } else {
        insert_listed(listing(s.drop_last(), requested), s.last(), requested)
    }
}

/// Whether `a` is listed strictly after `b`.
fn is_listed_after(a: (u32, u32, u32), b: (u32, u32, u32), requested: u32) -> (r: bool)
    ensures
        r == listed_after(a, b, requested),
{
    let (aw, ah, af) = a;
    let (bw, bh, bf) = b;
    let la = if aw >= ah {
        aw
    } else {
        ah
    };
    let lb = if bw >= bh {
        bw
    } else {
        bh
    };
    if la != lb {
        return la < lb;
    }
    let oa: u8 = if aw > ah {
        0
    } else if aw == ah {
        1
    } else {
        2
    };
    let ob: u8 = if bw > bh {
        0
    } else if bw == bh {
        1
    } else {
        2
    };
    if oa != ob {
        return oa > ob;
    }
    let area_a = mode_area(aw, ah);
    let area_b = mode_area(bw, bh);
    if area_a != area_b {
        return area_a < area_b;
    }
    fps_distance(af, requested) > fps_distance(bf, requested)
}

proof fn lemma_insert_position_bound(s: Seq<(u32, u32, u32)>, m: (u32, u32, u32), requested: u32)
    ensures
        0 <= insert_position(s, m, requested) <= s.len(),
    decreases s.len(),
{
    if s.len() > 0 && listed_after(s.last(), m, requested) {
        lemma_insert_position_bound(s.drop_last(), m, requested);
    }
}

/// Orders camera modes for the picker: largest long edge first, then
/// landscape, square, portrait, then more pixels, then the frame rate nearest
/// the request. Modes that tie keep their order.
pub fn sort_camera_modes(modes: &mut Vec<(u32, u32, u32)>, requested_fps: u32)
    ensures
        final(modes)@ == listing(old(modes)@, requested_fps),
{
    let ghost given = modes@;
    let n = modes.len();
    let mut i: usize = 0;
    while i < n
        invariant
            n == given.len(),
            modes@.len() == n,
            i <= n,
            modes@.take(i as int) == listing(given.take(i as int), requested_fps),
            modes@.skip(i as int) == given.skip(i as int),
        decreases n - i,
    {
        let ghost sorted = modes@.take(i as int);
        let m = modes[i];
        assert(m == given[i as int]) by {
            assert(modes@.skip(i as int)[0] == given.skip(i as int)[0]);
        }
        proof {
            assert(sorted.take(i as int) =~= sorted);
            assert forall|k: int| i < k < n implies modes@[k] == given[k] by {
                assert(modes@.skip(i as int)[k - i] == given.skip(i as int)[k - i]);
            }
        }
        let mut j: usize = i;
        while j > 0 && is_listed_after(modes[j - 1], m, requested_fps)
            invariant
                modes@.len() == n,
                i < n,
                j <= i,
                sorted.len() == i,
                forall|k: int| 0 <= k < j ==> modes@[k] == sorted[k],
                forall|k: int| j < k <= i ==> modes@[k] == sorted[k - 1],
                forall|k: int| i < k < n ==> modes@[k] == given[k],
                insert_position(sorted, m, requested_fps) == insert_position(
                    sorted.take(j as int),
                    m,
                    requested_fps,
                ),
            decreases j,
        {
            let previous = modes[j - 1];
            modes.set(j, previous);
            proof {
                assert(sorted.take(j as int).drop_last() =~= sorted.take(j - 1));
                assert(sorted.take(j as int).last() == sorted[j - 1]);
            }
            j = j - 1;
        }
        modes.set(j, m);
        proof {
            assert(insert_position(sorted.take(j as int), m, requested_fps) == j) by {
                if j > 0 {
                    assert(sorted.take(j as int).last() == sorted[j - 1]);
                }
            }
            lemma_insert_position_bound(sorted, m, requested_fps);
            assert(given.take(i + 1).drop_last() =~= given.take(i as int));
            assert(given.take(i + 1).last() == m);
            assert(modes@.take(i + 1) =~= insert_listed(sorted, m, requested_fps));
            assert(modes@.skip(i + 1) =~= given.skip(i + 1)) by {
                assert forall|k: int| 0 <= k < n - (i + 1) implies #[trigger] modes@.skip(i + 1)[k]
                    == given.skip(i + 1)[k] by {
                    assert(modes@[i + 1 + k] == given[i + 1 + k]);
                }
            }
        }
        i = i + 1;
    }
    proof {
        assert(modes@.take(n as int) =~= modes@);
        assert(given.take(n as int) =~= given);
    }
}

/// A listing has as many modes as it was given.
pub proof fn lemma_listing_len(s: Seq<(u32, u32, u32)>, requested: u32)
    ensures
        listing(s, requested).len() == s.len(),
    decreases s.len(),
{
    if s.len() > 0 {
        lemma_listing_len(s.drop_last(), requested);
        lemma_insert_position_bound(listing(s.drop_last(), requested), s.last(), requested);
    }
}

/// Whether no mode in `s` is listed after a mode that follows it.
pub open spec fn is_listed_in_order(s: Seq<(u32, u32, u32)>, requested: u32) -> bool {
    forall|i: int, j: int|
        0 <= i < j < s.len() ==> !listed_after(#[trigger] s[i], #[trigger] s[j], requested)
}

/// Listing order is a strict weak order: never both ways round, and "not
/// after" chains.
proof fn lemma_listing_order(
    a: (u32, u32, u32),
    b: (u32, u32, u32),
    c: (u32, u32, u32),
    requested: u32,
)
    ensures
        listed_after(a, b, requested) ==> !listed_after(b, a, requested),
        !listed_after(a, b, requested) && !listed_after(b, c, requested) ==> !listed_after(
            a,
            c,
            requested,
        ),
{
}

/// Everything from the insert position on is listed after `m`, and the mode
/// just before it is not.
proof fn lemma_insert_position_splits(s: Seq<(u32, u32, u32)>, m: (u32, u32, u32), requested: u32)
    ensures
        0 <= insert_position(s, m, requested) <= s.len(),
        forall|k: int|
            insert_position(s, m, requested) <= k < s.len() ==> listed_after(
                #[trigger] s[k],
                m,
                requested,
            ),
        insert_position(s, m, requested) > 0 ==> !listed_after(
            s[insert_position(s, m, requested) - 1],
            m,
            requested,
        ),
    decreases s.len(),
{
    if s.len() > 0 && listed_after(s.last(), m, requested) {
        lemma_insert_position_splits(s.drop_last(), m, requested);
        let p = insert_position(s, m, requested);
        assert forall|k: int| p <= k < s.len() implies listed_after(#[trigger] s[k], m, requested) by {
            if k < s.len() - 1 {
                assert(s.drop_last()[k] == s[k]);
            }
        }
        if p > 0 {
            assert(s.drop_last()[p - 1] == s[p - 1]);
        }
    }
}

/// Inserting a mode into an ordered listing keeps it ordered.
proof fn lemma_insert_keeps_order(s: Seq<(u32, u32, u32)>, m: (u32, u32, u32), requested: u32)
    requires
        is_listed_in_order(s, requested),
    ensures
        is_listed_in_order(insert_listed(s, m, requested), requested),
{
    lemma_insert_position_splits(s, m, requested);
    let p = insert_position(s, m, requested);
    let t = insert_listed(s, m, requested);
    assert(t.len() == s.len() + 1);
    assert forall|k: int| 0 <= k < t.len() implies #[trigger] t[k] == (if k < p {
        s[k]
    } else if k == p {
        m
    } else {
        s[k - 1]
    }) by {}
    assert forall|i: int, j: int| 0 <= i < j < t.len() implies !listed_after(
        #[trigger] t[i],
        #[trigger] t[j],
        requested,
    ) by {
        if i < p && j == p {
            lemma_listing_order(s[i], s[p - 1], m, requested);
        } else if i == p && j > p {
            lemma_listing_order(s[j - 1], m, m, requested);
        } else if i < p && j > p {
            assert(!listed_after(s[i], s[j - 1], requested));
        } else if i > p {
            assert(!listed_after(s[i - 1], s[j - 1], requested));
        } else {
            assert(!listed_after(s[i], s[j], requested));
        }
    }
}

/// The camera picker's listing is in order: no mode is listed before one that
/// ranks ahead of it.
pub proof fn law_listing_is_in_order(s: Seq<(u32, u32, u32)>, requested: u32)
    ensures
        is_listed_in_order(listing(s, requested), requested),
    decreases s.len(),
{
    if s.len() > 0 {
        law_listing_is_in_order(s.drop_last(), requested);
        lemma_insert_keeps_order(listing(s.drop_last(), requested), s.last(), requested);
    }
}

/// Sorting the modes neither drops nor invents one: the listing holds exactly
/// the modes it was given.
pub proof fn law_listing_keeps_every_mode(s: Seq<(u32, u32, u32)>, requested: u32)
    ensures
        listing(s, requested).to_multiset() == s.to_multiset(),
    decreases s.len(),
{
    if s.len() > 0 {
        law_listing_keeps_every_mode(s.drop_last(), requested);
        let rest = listing(s.drop_last(), requested);
        lemma_insert_position_bound(rest, s.last(), requested);
        let p = insert_position(rest, s.last(), requested);
        assert(insert_listed(rest, s.last(), requested) =~= rest.insert(p, s.last()));
        vstd::seq_lib::to_multiset_insert(rest, p, s.last());
        vstd::seq_lib::to_multiset_build(s.drop_last(), s.last());
        assert(s.drop_last().push(s.last()) =~= s);
    }
}

/// Whether two modes have the same size.
pub open spec fn same_size(a: (u32, u32, u32), b: (u32, u32, u32)) -> bool {
    a.0 == b.0 && a.1 == b.1
}

/// Whether mode `a`'s size comes before `b`'s: by width, then by height.
pub open spec fn size_before(a: (u32, u32, u32), b: (u32, u32, u32)) -> bool {
    a.0 < b.0 || (a.0 == b.0 && a.1 < b.1)
}

/// Whether `modes[i]` is the mode kept for its size: no mode of that size has
/// a frame rate nearer `requested`, and every earlier one of that size is
/// farther.
pub open spec fn is_nearest_of_size(modes: Seq<(u32, u32, u32)>, i: int, requested: u32) -> bool {
    &&& 0 <= i < modes.len()
    &&& forall|j: int|
        0 <= j < modes.len() && #[trigger] same_size(modes[j], modes[i]) ==> fps_gap(
            modes[i].2,
            requested,
        ) <= fps_gap(modes[j].2, requested) && (j < i ==> fps_gap(modes[j].2, requested)
            > fps_gap(modes[i].2, requested))
}

/// Whether `kept` is ordered strictly by size.
pub open spec fn sorted_by_size(kept: Seq<(u32, u32, u32)>) -> bool {
    forall|a: int, b: int| 0 <= a < b < kept.len() ==> size_before(kept[a], kept[b])
}

/// Whether `source` says where in `modes` each mode of `kept` comes from, each
/// being the mode kept for its size.
pub open spec fn picks_nearest(
    modes: Seq<(u32, u32, u32)>,
    kept: Seq<(u32, u32, u32)>,
    source: Seq<int>,
    requested: u32,
) -> bool {
    &&& source.len() == kept.len()
    &&& forall|k: int|
        #![trigger source[k]]
        0 <= k < kept.len() ==> is_nearest_of_size(modes, source[k], requested) && modes[source[k]]
            == kept[k]
}

/// Whether `place` says, for each mode of `seen`, where in `kept` the mode of
/// its size stands.
pub open spec fn covers_sizes(
    seen: Seq<(u32, u32, u32)>,
    kept: Seq<(u32, u32, u32)>,
    place: Seq<int>,
) -> bool {
    &&& place.len() == seen.len()
    &&& forall|j: int|
        #![trigger place[j]]
        0 <= j < seen.len() ==> 0 <= place[j] < kept.len() && same_size(kept[place[j]], seen[j])
}

/// What the selection holds after the first modes: one mode per size seen,
/// ordered by size, each the nearest of its size so far.
pub open spec fn selection_inv(
    seen: Seq<(u32, u32, u32)>,
    kept: Seq<(u32, u32, u32)>,
    source: Seq<int>,
    place: Seq<int>,
    requested: u32,
) -> bool {
    &&& sorted_by_size(kept)
    &&& picks_nearest(seen, kept, source, requested)
    &&& covers_sizes(seen, kept, place)
}

/// Two modes kept for the same size are the same mode.
proof fn lemma_nearest_is_unique(modes: Seq<(u32, u32, u32)>, a: int, b: int, requested: u32)
    requires
        is_nearest_of_size(modes, a, requested),
        is_nearest_of_size(modes, b, requested),
        same_size(modes[a], modes[b]),
    ensures
        a == b,
{
    assert(same_size(modes[b], modes[a]));
    assert(same_size(modes[a], modes[b]));
}

/// A mode stays the nearest of its size when a mode is added that is of
/// another size, or is no nearer.
proof fn lemma_still_nearest(
    seen: Seq<(u32, u32, u32)>,
    m: (u32, u32, u32),
    idx: int,
    requested: u32,
)
    requires
        is_nearest_of_size(seen, idx, requested),
        same_size(m, seen[idx]) ==> fps_gap(seen[idx].2, requested) <= fps_gap(m.2, requested),
    ensures
        is_nearest_of_size(seen.push(m), idx, requested),
{
    let after = seen.push(m);
    assert forall|j: int|
        0 <= j < after.len() && #[trigger] same_size(after[j], after[idx]) implies fps_gap(
            after[idx].2,
            requested,
        ) <= fps_gap(after[j].2, requested) && (j < idx ==> fps_gap(after[j].2, requested)
            > fps_gap(after[idx].2, requested)) by {
        if j < seen.len() {
            assert(after[j] == seen[j]);
            assert(same_size(seen[j], seen[idx]));
        }
    }
}

/// An added mode is the nearest of its size when every earlier mode of its
/// size is farther.
proof fn lemma_new_nearest(seen: Seq<(u32, u32, u32)>, m: (u32, u32, u32), requested: u32)
    requires
        forall|j: int|
            0 <= j < seen.len() && #[trigger] same_size(seen[j], m) ==> fps_gap(seen[j].2, requested)
                > fps_gap(m.2, requested),
    ensures
        is_nearest_of_size(seen.push(m), seen.len() as int, requested),
{
    let after = seen.push(m);
    let n = seen.len() as int;
    assert forall|j: int|
        0 <= j < after.len() && #[trigger] same_size(after[j], after[n]) implies fps_gap(
            after[n].2,
            requested,
        ) <= fps_gap(after[j].2, requested) && (j < n ==> fps_gap(after[j].2, requested)
            > fps_gap(after[n].2, requested)) by {
        if j < n {
            assert(after[j] == seen[j]);
            assert(same_size(seen[j], m));
        }
    }
}

/// No mode kept away from `p` has the size of a mode whose size is kept at
/// `p`.
proof fn lemma_one_place_per_size(kept: Seq<(u32, u32, u32)>, m: (u32, u32, u32), p: int, k: int)
    requires
        sorted_by_size(kept),
        0 <= p < kept.len(),
        0 <= k < kept.len(),
        k != p,
        same_size(kept[p], m),
    ensures
        !same_size(kept[k], m),
{
    if k < p {
        assert(size_before(kept[k], kept[p]));
    } else {
        assert(size_before(kept[p], kept[k]));
    }
}

/// Adding a mode whose size is already kept at `p`: it takes that place when
/// it is nearer, and changes nothing otherwise.
proof fn lemma_select_same_size(
    seen: Seq<(u32, u32, u32)>,
    kept: Seq<(u32, u32, u32)>,
    source: Seq<int>,
    place: Seq<int>,
    m: (u32, u32, u32),
    p: int,
    requested: u32,
)
    requires
        selection_inv(seen, kept, source, place, requested),
        0 <= p < kept.len(),
        same_size(kept[p], m),
    ensures
        fps_gap(m.2, requested) < fps_gap(kept[p].2, requested) ==> selection_inv(
            seen.push(m),
            kept.update(p, m),
            source.update(p, seen.len() as int),
            place.push(p),
            requested,
        ),
        fps_gap(m.2, requested) >= fps_gap(kept[p].2, requested) ==> selection_inv(
            seen.push(m),
            kept,
            source,
            place.push(p),
            requested,
        ),
{
    let after = seen.push(m);
    let n = seen.len() as int;
    let new_place = place.push(p);
    if fps_gap(m.2, requested) < fps_gap(kept[p].2, requested) {
        let new_kept = kept.update(p, m);
        let new_source = source.update(p, n);
        assert forall|j: int| 0 <= j < n && #[trigger] same_size(seen[j], m) implies fps_gap(
            seen[j].2,
            requested,
        ) > fps_gap(m.2, requested) by {
            assert(is_nearest_of_size(seen, source[p], requested));
            assert(same_size(seen[j], seen[source[p]]));
        }
        lemma_new_nearest(seen, m, requested);
        assert forall|k: int| #![trigger new_source[k]] 0 <= k < new_kept.len() implies is_nearest_of_size(
            after,
            new_source[k],
            requested,
        ) && after[new_source[k]] == new_kept[k] by {
            if k != p {
                assert(is_nearest_of_size(seen, source[k], requested));
                lemma_one_place_per_size(kept, m, p, k);
                lemma_still_nearest(seen, m, source[k], requested);
            }
        }
        assert forall|a: int, b: int| 0 <= a < b < new_kept.len() implies size_before(new_kept[a], new_kept[b]) by {
            assert(size_before(kept[a], kept[b]));
        }
        assert forall|j: int| #![trigger new_place[j]] 0 <= j < after.len() implies 0 <= new_place[j]
            < new_kept.len() && same_size(new_kept[new_place[j]], after[j]) by {
            if j < n {
                assert(after[j] == seen[j]);
                assert(new_place[j] == place[j]);
                assert(same_size(kept[place[j]], seen[j]));
            }
        }
        assert(sorted_by_size(new_kept));
        assert(picks_nearest(after, new_kept, new_source, requested));
        assert(covers_sizes(after, new_kept, new_place));
    } else {
        assert forall|k: int| #![trigger source[k]] 0 <= k < kept.len() implies is_nearest_of_size(
            after,
            source[k],
            requested,
        ) && after[source[k]] == kept[k] by {
            assert(is_nearest_of_size(seen, source[k], requested));
            if k != p {
                lemma_one_place_per_size(kept, m, p, k);
            }
            lemma_still_nearest(seen, m, source[k], requested);
        }
        assert forall|j: int| #![trigger new_place[j]] 0 <= j < after.len() implies 0 <= new_place[j]
            < kept.len() && same_size(kept[new_place[j]], after[j]) by {
            if j < n {
                assert(after[j] == seen[j]);
                assert(new_place[j] == place[j]);
            }
        }
        assert(picks_nearest(after, kept, source, requested));
        assert(covers_sizes(after, kept, new_place));
    }
}

/// Where the modes seen so far find their size after a mode is inserted at
/// `p`, the new mode's own size being at `p`.
pub open spec fn shifted_places(place: Seq<int>, p: int) -> Seq<int> {
    Seq::new(place.len(), |j: int| if place[j] >= p { place[j] + 1 } else { place[j] }).push(p)
}

/// Adding a mode of a size not yet kept, at `p`, the place its size takes.
proof fn lemma_select_new_size(
    seen: Seq<(u32, u32, u32)>,
    kept: Seq<(u32, u32, u32)>,
    source: Seq<int>,
    place: Seq<int>,
    m: (u32, u32, u32),
    p: int,
    requested: u32,
)
    requires
        selection_inv(seen, kept, source, place, requested),
        0 <= p <= kept.len(),
        forall|k: int| 0 <= k < p ==> size_before(#[trigger] kept[k], m),
        p < kept.len() ==> !size_before(kept[p], m) && !same_size(kept[p], m),
    ensures
        selection_inv(
            seen.push(m),
            kept.insert(p, m),
            source.insert(p, seen.len() as int),
            shifted_places(place, p),
            requested,
        ),
{
    let after = seen.push(m);
    let n = seen.len() as int;
    let new_kept = kept.insert(p, m);
    let new_source = source.insert(p, n);
    let new_place = shifted_places(place, p);
    assert forall|k: int| 0 <= k < kept.len() implies !same_size(#[trigger] kept[k], m) by {
        if k > p {
            assert(size_before(kept[p], kept[k]));
        }
    }
    assert forall|j: int| 0 <= j < n && #[trigger] same_size(seen[j], m) implies fps_gap(
        seen[j].2,
        requested,
    ) > fps_gap(m.2, requested) by {
        assert(same_size(kept[place[j]], seen[j]));
        assert(same_size(kept[place[j]], m));
    }
    lemma_new_nearest(seen, m, requested);
    assert forall|k: int| #![trigger new_source[k]] 0 <= k < new_kept.len() implies is_nearest_of_size(
        after,
        new_source[k],
        requested,
    ) && after[new_source[k]] == new_kept[k] by {
        if k != p {
            let old_k = if k < p {
                k
            } else {
                k - 1
            };
            assert(new_source[k] == source[old_k]);
            assert(new_kept[k] == kept[old_k]);
            assert(is_nearest_of_size(seen, source[old_k], requested));
            assert(!same_size(kept[old_k], m));
            lemma_still_nearest(seen, m, source[old_k], requested);
        }
    }
    assert forall|a: int, b: int| 0 <= a < b < new_kept.len() implies size_before(new_kept[a], new_kept[b]) by {
        if b < p {
            assert(size_before(kept[a], kept[b]));
        } else if b == p {
        } else if a < p {
            assert(size_before(kept[a], kept[b - 1]));
        } else if a == p {
            if b - 1 > p {
                assert(size_before(kept[p], kept[b - 1]));
            }
        } else {
            assert(size_before(kept[a - 1], kept[b - 1]));
        }
    }
    assert forall|j: int| #![trigger new_place[j]] 0 <= j < after.len() implies 0 <= new_place[j]
        < new_kept.len() && same_size(new_kept[new_place[j]], after[j]) by {
        if j < n {
            assert(after[j] == seen[j]);
            assert(same_size(kept[place[j]], seen[j]));
            if place[j] >= p {
                assert(new_place[j] == place[j] + 1);
                assert(new_kept[place[j] + 1] == kept[place[j]]);
            } else {
                assert(new_place[j] == place[j]);
                assert(new_kept[place[j]] == kept[place[j]]);
            }
        } else {
            assert(new_place[j] == p);
        }
    }
    assert(sorted_by_size(new_kept));
    assert(picks_nearest(after, new_kept, new_source, requested));
    assert(covers_sizes(after, new_kept, new_place));
}

/// One mode per size: for each size the camera offers, the mode whose frame
/// rate is nearest `requested_fps` (the first such when several tie), in
/// order of width, then height.
pub fn nearest_rate_per_size(modes: &Vec<(u32, u32, u32)>, requested_fps: u32) -> (r: Vec<
    (u32, u32, u32),
>)
    ensures
        sorted_by_size(r@),
        exists|source: Seq<int>| #[trigger] picks_nearest(modes@, r@, source, requested_fps),
        forall|i: int|
            #[trigger] is_nearest_of_size(modes@, i, requested_fps) ==> exists|k: int|
                0 <= k < r@.len() && r@[k] == modes@[i],
{
    let ghost all = modes@;
    let mut kept: Vec<(u32, u32, u32)> = Vec::new();
    let ghost mut source: Seq<int> = Seq::empty();
    let ghost mut place: Seq<int> = Seq::empty();
    let n = modes.len();
    let mut i: usize = 0;
    proof {
        assert(all.take(0) =~= Seq::<(u32, u32, u32)>::empty());
    }
    while i < n
        invariant
            n == all.len(),
            all == modes@,
            i <= n,
            selection_inv(all.take(i as int), kept@, source, place, requested_fps),
        decreases n - i,
    {
        let m = modes[i];
        proof {
            assert(all.take(i + 1) =~= all.take(i as int).push(m));
        }
        let mut p: usize = 0;
        while p < kept.len() && (kept[p].0 < m.0 || (kept[p].0 == m.0 && kept[p].1 < m.1))
            invariant
                p <= kept@.len(),
                forall|k: int| 0 <= k < p ==> size_before(#[trigger] kept@[k], m),
            decreases kept@.len() - p,
        {
            p = p + 1;
        }
        if p < kept.len() && kept[p].0 == m.0 && kept[p].1 == m.1 {
            proof {
                lemma_select_same_size(all.take(i as int), kept@, source, place, m, p as int, requested_fps);
                place = place.push(p as int);
            }
            if fps_distance(m.2, requested_fps) < fps_distance(kept[p].2, requested_fps) {
                kept.set(p, m);
                proof {
                    source = source.update(p as int, i as int);
                }
            }
        } else {
            proof {
                lemma_select_new_size(all.take(i as int), kept@, source, place, m, p as int, requested_fps);
                place = shifted_places(place, p as int);
            }
            kept.insert(p, m);
            proof {
                source = source.insert(p as int, i as int);
            }
        }
        i = i + 1;
    }
    proof {
        assert(all.take(n as int) =~= all);
        assert(picks_nearest(modes@, kept@, source, requested_fps));
        assert forall|idx: int| #[trigger] is_nearest_of_size(modes@, idx, requested_fps) implies exists|k: int|
            0 <= k < kept@.len() && kept@[k] == modes@[idx] by {
            let k = place[idx];
            assert(same_size(kept@[k], all[idx]));
            assert(is_nearest_of_size(modes@, source[k], requested_fps));
            lemma_nearest_is_unique(modes@, source[k], idx, requested_fps);
        }
    }
    kept
}

} // verus!
