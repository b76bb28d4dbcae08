use crate::animation::{pulse, pulse_state, elapsed, DecayState};
use crate::geometry::{
    clamp_coord, coord_ok, div_toward_zero, is_isqrt, sq_dist, RawLine, RawPoint, COORD_LIMIT,
    ZOOM_SCALE,
};
use crate::index::{
    ids_within, is_first_nearest, lemma_ids_within_contains, lemma_ids_within_no_duplicates,
    SpatialIndex,
};
use crate::objects::{
    calculate_widget_dimentions, cap, floor_at, ConversionError, MapBounds, MapLabel, MapLine, MapPoint,
    MapSettings, VisibilitySetting, ZOOM_LIMIT,
};
use std::collections::HashMap;
use vstd::prelude::*;

verus! {

broadcast use vstd::std_specs::hash::group_hash_axioms;

/// Visibility radius used while the viewport has no area yet.
pub const FALLBACK_DIST: u64 = 3000;

/// Largest visibility radius, in world units, of the reference frame.
pub const DIST_LIMIT: u64 = 3_000_000_000_000;

/// The ids of a sequence of strings, as a set.
pub open spec fn line_ids(v: Seq<String>) -> Set<Seq<char>> {
    Set::new(|s: Seq<char>| exists|i: int| 0 <= i < v.len() && (#[trigger] v[i])@ == s)
}

/// The index entries of an entity set: each id with its position.
pub open spec fn entries_of(points: Seq<MapPoint>) -> Seq<(usize, RawPoint)> {
    points.map_values(|p: MapPoint| (p.id, p.raw_point))
}

/// No two entities share an id.
pub open spec fn unique_ids(points: Seq<MapPoint>) -> bool {
    forall|i: int, j: int|
        0 <= i < points.len() && 0 <= j < points.len() && #[trigger] points[i].id
            == #[trigger] points[j].id ==> i == j
}

/// A point multiplied by a zoom factor.
pub open spec fn scale(p: RawPoint, zoom: int) -> RawPoint {
    RawPoint { x: (p.x * zoom) as i64, y: (p.y * zoom) as i64 }
}

/// A point divided by a zoom factor.
pub open spec fn unscale(p: RawPoint, zoom: int) -> RawPoint {
    RawPoint { x: div_toward_zero(p.x as int, zoom) as i64, y: div_toward_zero(p.y as int, zoom) as i64 }
}

/// The current frame: the reference corners and focal point multiplied by the
/// zoom (giving thousandths of a pixel), and the radius divided by it (in
/// world units, rounded down).
pub open spec fn scaled(reference: MapBounds, zoom: int) -> MapBounds {
    MapBounds {
        min: scale(reference.min, zoom),
        max: scale(reference.max, zoom),
        pos: scale(reference.pos, zoom),
        dist: (reference.dist * (ZOOM_SCALE as int) / zoom) as u64,
    }
}

/// The entities within the current radius of the current focal point
/// brought back to world units, or none when the radius is zero.
pub open spec fn visible_spec(points: Seq<MapPoint>, current: MapBounds, zoom: int) -> Seq<usize> {
    if current.dist > 0 {
        ids_within(entries_of(points), unscale(current.pos, zoom), current.dist * current.dist)
    } else {
        Seq::empty()
    }
}

/// The edge ids of the entity with id `id`, if there is one.
pub open spec fn connections_of(points: Seq<MapPoint>, id: usize) -> Set<Seq<char>> {
    if exists|i: int| 0 <= i < points.len() && (#[trigger] points[i]).id == id {
        let i = choose|i: int| 0 <= i < points.len() && (#[trigger] points[i]).id == id;
        line_ids(points[i].connections@)
    } else {
        Set::empty()
    }
}

/// The edge ids of all entities among `ids`.
pub open spec fn reached_lines(points: Seq<MapPoint>, ids: Seq<usize>) -> Set<Seq<char>>
    decreases ids.len(),
{
    if ids.len() == 0 {
        Set::empty()
    } else {
        reached_lines(points, ids.drop_last()).union(connections_of(points, ids.last()))
    }
}

/// Whether a string with the view `s` is among `v`.
fn contains_string(v: &Vec<String>, s: &String) -> (r: bool)
    ensures
        r == line_ids(v@).contains(s@),
{
    let mut i: usize = 0;
    while i < v.len()
        invariant
            i <= v@.len(),
            forall|k: int| 0 <= k < i ==> (#[trigger] v@[k])@ != s@,
        decreases v@.len() - i,
    {
        if v[i] == *s {
            assert(line_ids(v@).contains(s@));
            return true;
        }
        i = i + 1;
    }
    false
}

/// Adds to `lines` each of `conns` that it does not hold yet.
fn add_connections(lines: &mut Vec<String>, conns: &Vec<String>)
    ensures
        line_ids(final(lines)@) == line_ids(old(lines)@).union(line_ids(conns@)),
{
    let ghost start = line_ids(lines@);
    let mut i: usize = 0;
    while i < conns.len()
        invariant
            i <= conns@.len(),
            line_ids(lines@) == start.union(line_ids(conns@.take(i as int))),
        decreases conns@.len() - i,
    {
        let c = &conns[i];
        let ghost before = lines@;
        if !contains_string(lines, c) {
            lines.push(c.clone());
        }
        assert(line_ids(conns@.take(i as int + 1)) == line_ids(conns@.take(i as int)).insert(c@)) by {
            let t = conns@.take(i as int + 1);
            assert(t[i as int] == conns@[i as int]);
            assert forall|s: Seq<char>| line_ids(t).contains(s) implies line_ids(conns@.take(i as int)).insert(c@).contains(s) by {
                let k = choose|k: int| 0 <= k < t.len() && (#[trigger] t[k])@ == s;
                if k < i {
                    assert(conns@.take(i as int)[k] == t[k]);
                }
            }
            assert forall|s: Seq<char>| line_ids(conns@.take(i as int)).insert(c@).contains(s) implies line_ids(t).contains(s) by {
                if s != c@ {
                    let k = choose|k: int| 0 <= k < i && (#[trigger] conns@.take(i as int)[k])@ == s;
                    assert(t[k] == conns@.take(i as int)[k]);
                }
            }
        }
        assert(line_ids(lines@) == line_ids(before).insert(c@)) by {
            if lines@.len() != before.len() {
                assert(lines@ == before.push(*c));
                assert(lines@[before.len() as int] == *c);
                assert forall|s: Seq<char>| line_ids(lines@).contains(s) implies line_ids(before).insert(c@).contains(s) by {
                    let k = choose|k: int| 0 <= k < lines@.len() && (#[trigger] lines@[k])@ == s;
                    if k < before.len() {
                        assert(before[k] == lines@[k]);
                    }
                }
                assert forall|s: Seq<char>| line_ids(before).insert(c@).contains(s) implies line_ids(lines@).contains(s) by {
                    if s != c@ {
                        let k = choose|k: int| 0 <= k < before.len() && (#[trigger] before[k])@ == s;
                        assert(lines@[k] == before[k]);
                    }
                }
            }
        }
        i = i + 1;
    }
    assert(conns@.take(conns@.len() as int) == conns@);
}

/// The index of the entity with id `id`, if any.
fn find_point(points: &Vec<MapPoint>, id: usize) -> (r: Option<usize>)
    ensures
        r matches Some(i) ==> i < points@.len() && points@[i as int].id == id,
        r is None ==> forall|i: int| 0 <= i < points@.len() ==> (#[trigger] points@[i]).id != id,
{
    let mut i: usize = 0;
    while i < points.len()
        invariant
            i <= points@.len(),
            forall|k: int| 0 <= k < i ==> (#[trigger] points@[k]).id != id,
        decreases points@.len() - i,
    {
        if points[i].id == id {
            return Some(i);
        }
        i = i + 1;
    }
    None
}

/// A zoom factor, in thousandths, that the engine can work with.
pub open spec fn zoom_ok(zoom: int) -> bool {
    1 <= zoom <= ZOOM_LIMIT
}

/// Whether the corners and focal point lie in the world and the radius is
/// bounded.
pub open spec fn reference_ok(b: MapBounds) -> bool {
    b.min.in_world() && b.max.in_world() && b.pos.in_world() && b.dist <= DIST_LIMIT
}

/// The engine: an entity set with its spatial index, the reference and
/// current frames, the visible sets, hover state and notifications.
pub struct MapEngine {
    zoom: u32,
    points: Vec<MapPoint>,
    lines: Vec<MapLine>,
    labels: Vec<MapLabel>,
    tree: SpatialIndex,
    visible_points: Vec<usize>,
    map_area: RawLine,
    reference: MapBounds,
    current: MapBounds,
    entities: HashMap<usize, u64>,
    min_size: (Option<i64>, Option<i64>),
    max_size: (Option<i64>, Option<i64>),
    settings: MapSettings,
    visible_lines: Vec<String>,
    markers: HashMap<usize, usize>,
    hovered: Option<usize>,
}

impl MapEngine {
    pub closed spec fn spec_zoom(&self) -> int {
        self.zoom as int
    }

    pub closed spec fn spec_settings(&self) -> MapSettings {
        self.settings
    }

    pub closed spec fn spec_reference(&self) -> MapBounds {
        self.reference
    }

    pub closed spec fn spec_current(&self) -> MapBounds {
        self.current
    }

    pub closed spec fn spec_points(&self) -> Seq<MapPoint> {
        self.points@
    }

    pub closed spec fn spec_visible_points(&self) -> Seq<usize> {
        self.visible_points@
    }

    pub closed spec fn spec_visible_lines(&self) -> Set<Seq<char>> {
        line_ids(self.visible_lines@)
    }

    pub closed spec fn spec_notifications(&self) -> Map<usize, u64> {
        self.entities@
    }

    pub closed spec fn spec_markers(&self) -> Map<usize, usize> {
        self.markers@
    }

    pub closed spec fn spec_hovered(&self) -> Option<usize> {
        self.hovered
    }

    pub closed spec fn spec_map_area(&self) -> RawLine {
        self.map_area
    }

    /// The frame state that the visible sets are computed from.
    closed spec fn frame_ok(&self) -> bool {
        &&& self.settings.wf()
        &&& self.settings.min_zoom <= self.zoom <= self.settings.max_zoom
        &&& zoom_ok(self.zoom as int)
        &&& reference_ok(self.reference)
        &&& self.map_area.a.in_world() && self.map_area.b.in_world()
        &&& forall|i: int| 0 <= i < self.points@.len() ==> (#[trigger] self.points@[i]).raw_point.in_world()
        &&& unique_ids(self.points@)
        &&& self.tree.wf()
        &&& self.tree@ == entries_of(self.points@)
    }

    /// The engine's invariant: the current frame is the reference frame
    /// rescaled by the zoom, and the visible entities are those within its
    /// radius.
    pub closed spec fn wf(&self) -> bool {
        &&& self.frame_ok()
        &&& self.current == scaled(self.reference, self.zoom as int)
        &&& self.visible_points@ == visible_spec(self.points@, self.current, self.zoom as int)
        &&& reached_lines(self.points@, self.visible_points@).subset_of(line_ids(self.visible_lines@))
    }

    /// The frame state and the visible sets are untouched.
    pub open spec fn same_view(&self, other: &MapEngine) -> bool {
        &&& self.same_frame(other)
        &&& self.spec_labels() == other.spec_labels()
        &&& self.spec_lines() == other.spec_lines()
        &&& self.spec_min_size() == other.spec_min_size()
        &&& self.spec_max_size() == other.spec_max_size()
    }

    /// The frame state and the visible sets are untouched.
    pub open spec fn same_frame(&self, other: &MapEngine) -> bool {
        &&& self.spec_zoom() == other.spec_zoom()
        &&& self.spec_settings() == other.spec_settings()
        &&& self.spec_reference() == other.spec_reference()
        &&& self.spec_current() == other.spec_current()
        &&& self.spec_points() == other.spec_points()
        &&& self.spec_visible_points() == other.spec_visible_points()
        &&& self.spec_visible_lines() == other.spec_visible_lines()
        &&& self.spec_map_area() == other.spec_map_area()
    }

    /// What a change of the view keeps: notifications, markers, hover,
    /// labels, edges and size bounds.
    pub open spec fn keeps_extras(&self, other: &MapEngine) -> bool {
        &&& self.spec_notifications() == other.spec_notifications()
        &&& self.spec_markers() == other.spec_markers()
        &&& self.spec_hovered() == other.spec_hovered()
        &&& self.spec_labels() == other.spec_labels()
        &&& self.spec_lines() == other.spec_lines()
        &&& self.spec_min_size() == other.spec_min_size()
        &&& self.spec_max_size() == other.spec_max_size()
    }

    /// The bounding box of the entity set is kept.
    pub open spec fn keeps_box(&self, other: &MapEngine) -> bool {
        &&& self.spec_reference().min == other.spec_reference().min
        &&& self.spec_reference().max == other.spec_reference().max
    }

    /// An engine with no entities, at zoom one, with the standard settings.
    pub fn new() -> (r: MapEngine)
        ensures
            r.wf(),
            r.spec_zoom() == ZOOM_SCALE,
            r.spec_settings() == MapSettings::spec_standard(),
            r.spec_points().len() == 0,
            r.spec_visible_points().len() == 0,
            r.spec_visible_lines() == Set::<Seq<char>>::empty(),
            r.spec_notifications() == Map::<usize, u64>::empty(),
            r.spec_markers() == Map::<usize, usize>::empty(),
            r.spec_hovered() is None,
            r.spec_reference() == MapBounds::spec_new(),
            r.spec_current() == MapBounds::spec_new(),
            r.spec_labels().len() == 0,
            r.spec_lines().len() == 0,
            r.spec_map_area() == (RawLine { a: RawPoint::spec_origin(), b: RawPoint::spec_origin() }),
            r.spec_min_size() == (None::<i64>, None::<i64>),
            r.spec_max_size() == (None::<i64>, None::<i64>),
    {
        let r = MapEngine {
            zoom: ZOOM_SCALE,
            points: Vec::new(),
            lines: Vec::new(),
            labels: Vec::new(),
            tree: SpatialIndex::empty(),
            visible_points: Vec::new(),
            map_area: RawLine::new(RawPoint::origin(), RawPoint::origin()),
            reference: MapBounds::new(),
            current: MapBounds::new(),
            entities: HashMap::new(),
            min_size: (None, None),
            max_size: (None, None),
            settings: MapSettings::standard(),
            visible_lines: Vec::new(),
            markers: HashMap::new(),
            hovered: None,
        };
        assert(entries_of(r.points@) == Seq::<(usize, RawPoint)>::empty());
        assert(line_ids(r.visible_lines@) == Set::<Seq<char>>::empty());
        r
    }

    /// Recomputes the current frame and the visible sets.
    fn refresh(&mut self)
        requires
            old(self).frame_ok(),
        ensures
            final(self).wf(),
            line_ids(final(self).visible_lines@) == line_ids(old(self).visible_lines@).union(
                reached_lines(final(self).points@, final(self).visible_points@),
            ),
            final(self).zoom == old(self).zoom,
            final(self).reference == old(self).reference,
            final(self).points == old(self).points,
            final(self).entities == old(self).entities,
            final(self).markers == old(self).markers,
            final(self).hovered == old(self).hovered,
            final(self).map_area == old(self).map_area,
            final(self).settings == old(self).settings,
            final(self).labels == old(self).labels,
            final(self).lines == old(self).lines,
            final(self).min_size == old(self).min_size,
            final(self).max_size == old(self).max_size,
            final(self).tree == old(self).tree,
    {
        self.adjust_bounds();
        self.calculate_visible_points();
    }

    /// Replaces the entity set. A later entry replaces an earlier one with
    /// the same id. The focal point moves to the middle of the entities'
    /// bounding box, the radius is taken from the viewport, the index is
    /// rebuilt and the visible sets start afresh. Nothing changes, and the
    /// first entity out of the world's range is reported, when there is one.
    pub fn add_hashmap_points(&mut self, hash_map: Vec<MapPoint>) -> (r: Result<(), ConversionError>)
        requires
            old(self).wf(),
        ensures
            final(self).wf(),
            r is Ok <==> forall|i: int| 0 <= i < hash_map@.len() ==> (#[trigger] hash_map@[i]).raw_point.in_world(),
            r matches Err(e) ==> *final(self) == *old(self) && exists|i: int|
                0 <= i < hash_map@.len() && (#[trigger] hash_map@[i]).id == e.id && !hash_map@[i].raw_point.in_world(),
            r is Ok ==> {
                &&& entity_set_of(hash_map@, final(self).spec_points())
                &&& bbox_ok(final(self).spec_points(), final(self).spec_reference().min, final(self).spec_reference().max)
                &&& final(self).spec_reference().pos.x == div_toward_zero(
                    final(self).spec_reference().min.x + final(self).spec_reference().max.x, 2)
                &&& final(self).spec_reference().pos.y == div_toward_zero(
                    final(self).spec_reference().min.y + final(self).spec_reference().max.y, 2)
                &&& viewport_dist_ok(final(self).spec_map_area(), final(self).spec_reference().dist as int)
                &&& final(self).spec_visible_lines() == reached_lines(final(self).spec_points(), final(self).spec_visible_points())
                &&& final(self).spec_zoom() == old(self).spec_zoom()
                &&& final(self).spec_settings() == old(self).spec_settings()
                &&& final(self).spec_map_area() == old(self).spec_map_area()
                &&& final(self).spec_notifications() == old(self).spec_notifications()
                &&& final(self).spec_hovered() is None
            },
    {
        let mut i: usize = 0;
        while i < hash_map.len()
            invariant
                i <= hash_map@.len(),
                *self == *old(self),
                self.wf(),
                forall|k: int| 0 <= k < i ==> (#[trigger] hash_map@[k]).raw_point.in_world(),
            decreases hash_map@.len() - i,
        {
            let p = hash_map[i].raw_point;
            if !(-COORD_LIMIT <= p.x && p.x <= COORD_LIMIT && -COORD_LIMIT <= p.y && p.y <= COORD_LIMIT) {
                return Err(ConversionError { id: hash_map[i].id });
            }
            i = i + 1;
        }
        let ghost given = hash_map@;
        let pts = entity_set(hash_map);
        assert forall|k: int| 0 <= k < pts@.len() implies (#[trigger] pts@[k]).raw_point.in_world() by {
            assert(last_entry_from(given, 0, pts@[k]));
        }
        let mut entries: Vec<(usize, RawPoint)> = Vec::new();
        let mut k: usize = 0;
        while k < pts.len()
            invariant
                k <= pts@.len(),
                forall|j: int| 0 <= j < pts@.len() ==> (#[trigger] pts@[j]).raw_point.in_world(),
                entries@ == entries_of(pts@.take(k as int)),
            decreases pts@.len() - k,
        {
            entries.push((pts[k].id, pts[k].raw_point));
            assert(entries_of(pts@.take(k as int + 1)) == entries_of(pts@.take(k as int)).push((pts@[k as int].id, pts@[k as int].raw_point)));
            k = k + 1;
        }
        assert(pts@.take(pts@.len() as int) == pts@);
        let (min, max) = bounding_box(&pts);
        self.reference.min = min;
        self.reference.max = max;
        self.tree = SpatialIndex::build(entries);
        self.points = pts;
        self.reference.pos = RawLine::new(min, max).midpoint();
        self.reference.dist = viewport_dist(self.map_area);
        self.visible_lines = Vec::new();
        self.hovered = None;
        assert(line_ids(self.visible_lines@) == Set::<Seq<char>>::empty());
        self.refresh();
        assert(Set::<Seq<char>>::empty().union(reached_lines(self.points@, self.visible_points@))
            == reached_lines(self.points@, self.visible_points@));
        Ok(())
    }

    /// Centres the view on the entity with id `node_id`, if there is one.
    pub fn set_pos_from_nodeid(&mut self, node_id: usize)
        requires
            old(self).wf(),
        ensures
            final(self).wf(),
            !has_id(old(self).spec_points(), node_id) ==> *final(self) == *old(self),
            has_id(old(self).spec_points(), node_id) ==> {
                &&& exists|i: int| 0 <= i < old(self).spec_points().len()
                    && (#[trigger] old(self).spec_points()[i]).id == node_id
                    && final(self).spec_reference().pos == old(self).spec_points()[i].raw_point
                &&& final(self).spec_visible_lines() == old(self).spec_visible_lines().union(
                    reached_lines(final(self).spec_points(), final(self).spec_visible_points()))
            },
            old(self).spec_visible_lines().subset_of(final(self).spec_visible_lines()),
            final(self).spec_zoom() == old(self).spec_zoom(),
            final(self).spec_points() == old(self).spec_points(),
            final(self).spec_settings() == old(self).spec_settings(),
            final(self).spec_reference().dist == old(self).spec_reference().dist,
            final(self).keeps_extras(old(self)),
            final(self).keeps_box(old(self)),
    {
        match find_point(&self.points, node_id) {
            Some(i) => {
                self.reference.pos = self.points[i].raw_point;
                self.refresh();
            },
            None => {},
        }
    }

    /// Moves the focal point to `position`, each coordinate clamped into the
    /// world's range.
    pub fn set_pos(&mut self, position: [i64; 2])
        requires
            old(self).wf(),
        ensures
            final(self).wf(),
            final(self).spec_reference().pos.x == clamp_coord(position@[0] as int),
            final(self).spec_reference().pos.y == clamp_coord(position@[1] as int),
            final(self).spec_visible_lines() == old(self).spec_visible_lines().union(
                reached_lines(final(self).spec_points(), final(self).spec_visible_points())),
            old(self).spec_visible_lines().subset_of(final(self).spec_visible_lines()),
            final(self).spec_zoom() == old(self).spec_zoom(),
            final(self).spec_points() == old(self).spec_points(),
            final(self).spec_settings() == old(self).spec_settings(),
            final(self).spec_reference().dist == old(self).spec_reference().dist,
            final(self).keeps_extras(old(self)),
            final(self).keeps_box(old(self)),
    {
        self.reference.pos = RawPoint::new(clamp_i64(position[0]), clamp_i64(position[1]));
        self.refresh();
    }

    /// The focal point, in world units.
    pub fn get_pos(&self) -> (r: [i64; 2])
        ensures
            r@[0] == self.spec_reference().pos.x,
            r@[1] == self.spec_reference().pos.y,
    {
        [self.reference.pos.x, self.reference.pos.y]
    }

    /// Sets the zoom to `value` when it lies within the settings' range;
    /// does nothing otherwise.
    pub fn set_zoom(&mut self, value: u32)
        requires
            old(self).wf(),
        ensures
            final(self).wf(),
            old(self).spec_settings().min_zoom <= value <= old(self).spec_settings().max_zoom
                ==> final(self).spec_zoom() == value,
            !(old(self).spec_settings().min_zoom <= value <= old(self).spec_settings().max_zoom)
                ==> *final(self) == *old(self),
            final(self).spec_visible_lines() == old(self).spec_visible_lines().union(
                reached_lines(final(self).spec_points(), final(self).spec_visible_points())),
            old(self).spec_visible_lines().subset_of(final(self).spec_visible_lines()),
            final(self).spec_reference() == old(self).spec_reference(),
            final(self).spec_points() == old(self).spec_points(),
            final(self).spec_settings() == old(self).spec_settings(),
            final(self).keeps_extras(old(self)),
    {
        if value >= self.settings.min_zoom && value <= self.settings.max_zoom {
            self.zoom = value;
            self.refresh();
        } else {
            assert(line_ids(self.visible_lines@).union(reached_lines(self.points@, self.visible_points@))
                =~= line_ids(self.visible_lines@));
        }
    }

    /// The zoom, in thousandths.
    pub fn get_zoom(&self) -> (r: u32)
        ensures
            r == self.spec_zoom(),
    {
        self.zoom
    }

    /// Pans by a drag of `delta` pixels: the focal point moves against the
    /// drag by `delta` divided by the zoom, clamped into the world's range.
    /// A zero drag changes nothing.
    pub fn pan(&mut self, delta: RawPoint)
        requires
            old(self).wf(),
        ensures
            final(self).wf(),
            delta == RawPoint::spec_origin() ==> *final(self) == *old(self),
            delta != RawPoint::spec_origin() ==> final(self).spec_reference().pos == pan_target(
                old(self).spec_reference().pos, delta, old(self).spec_zoom()),
            final(self).spec_visible_lines() == old(self).spec_visible_lines().union(
                reached_lines(final(self).spec_points(), final(self).spec_visible_points())),
            old(self).spec_visible_lines().subset_of(final(self).spec_visible_lines()),
            final(self).spec_zoom() == old(self).spec_zoom(),
            final(self).spec_points() == old(self).spec_points(),
            final(self).spec_settings() == old(self).spec_settings(),
            final(self).spec_reference().dist == old(self).spec_reference().dist,
            final(self).keeps_extras(old(self)),
            final(self).keeps_box(old(self)),
    {
        if delta.x == 0 && delta.y == 0 {
            assert(line_ids(self.visible_lines@).union(reached_lines(self.points@, self.visible_points@))
                =~= line_ids(self.visible_lines@));
            return;
        }
        let z: i128 = self.zoom as i128;
        let ox: i128 = div_i128(delta.x as i128 * 1000, z);
        let oy: i128 = div_i128(delta.y as i128 * 1000, z);
        proof {
            lemma_div_toward_zero_bound(delta.x as int * 1000, z as int);
            lemma_div_toward_zero_bound(delta.y as int * 1000, z as int);
        }
        let x = clamp_i128(self.reference.pos.x as i128 - ox);
        let y = clamp_i128(self.reference.pos.y as i128 - oy);
        self.reference.pos = RawPoint::new(x, y);
        self.refresh();
    }

    /// Zooms by a scroll of `delta_y` pixels: the zoom changes by
    /// `delta_y / divisor`, clamped into the settings' range.
    pub fn scroll(&mut self, delta_y: i64, divisor: u32)
        requires
            old(self).wf(),
            divisor > 0,
        ensures
            final(self).wf(),
            final(self).spec_zoom() == scrolled_zoom(
                old(self).spec_zoom(), delta_y as int, divisor as int, old(self).spec_settings()),
            final(self).spec_visible_lines() == old(self).spec_visible_lines().union(
                reached_lines(final(self).spec_points(), final(self).spec_visible_points())),
            old(self).spec_visible_lines().subset_of(final(self).spec_visible_lines()),
            final(self).spec_reference() == old(self).spec_reference(),
            final(self).spec_points() == old(self).spec_points(),
            final(self).spec_settings() == old(self).spec_settings(),
            final(self).keeps_extras(old(self)),
    {
        let step: i128 = div_i128(delta_y as i128 * 1000, divisor as i128);
        proof {
            lemma_div_toward_zero_bound(delta_y as int * 1000, divisor as int);
        }
        let pre: i128 = self.zoom as i128 + step;
        let value: u32 = if pre < self.settings.min_zoom as i128 {
            self.settings.min_zoom
        } else if pre > self.settings.max_zoom as i128 {
            self.settings.max_zoom
        } else {
            pre as u32
        };
        if value != self.zoom {
            self.zoom = value;
            self.refresh();
        } else {
            assert(line_ids(self.visible_lines@).union(reached_lines(self.points@, self.visible_points@))
                =~= line_ids(self.visible_lines@));
        }
    }

    /// Lays the map out in the space `available`, each corner clamped into
    /// the world's range. The visibility radius becomes the diagonal of that
    /// space within the size bounds.
    pub fn set_viewport(&mut self, available: RawLine)
        requires
            old(self).wf(),
        ensures
            final(self).wf(),
            final(self).spec_map_area() == clamp_line(available),
            viewport_dist_ok(
                clamp_line(old(self).spec_widget_area(available)),
                final(self).spec_reference().dist as int,
            ),
            final(self).spec_reference().pos == old(self).spec_reference().pos,
            final(self).spec_visible_lines() == old(self).spec_visible_lines().union(
                reached_lines(final(self).spec_points(), final(self).spec_visible_points())),
            old(self).spec_visible_lines().subset_of(final(self).spec_visible_lines()),
            final(self).spec_zoom() == old(self).spec_zoom(),
            final(self).spec_points() == old(self).spec_points(),
            final(self).spec_settings() == old(self).spec_settings(),
            final(self).keeps_extras(old(self)),
            final(self).keeps_box(old(self)),
    {
        let bounded = calculate_widget_dimentions(available, self.min_size, self.max_size);
        self.map_area = clamp_rect(available);
        let d = viewport_dist(clamp_rect(bounded));
        if d != self.reference.dist {
            self.reference.dist = d;
            self.refresh();
        } else {
            assert(line_ids(self.visible_lines@).union(reached_lines(self.points@, self.visible_points@))
                =~= line_ids(self.visible_lines@));
        }
    }

    /// The area `available` after the size bounds.
    pub open spec fn spec_widget_area(&self, available: RawLine) -> RawLine {
        RawLine {
            a: RawPoint {
                x: floor_at(available.a.x, self.spec_min_size().0),
                y: floor_at(available.a.y, self.spec_min_size().1),
            },
            b: RawPoint {
                x: cap(available.b.x, self.spec_max_size().0),
                y: cap(available.b.y, self.spec_max_size().1),
            },
        }
    }

    /// The offset, in thousandths of a pixel, from viewport positions to
    /// zoomed world positions: the current focal point less the viewport's
    /// centre.
    pub open spec fn spec_offset(&self) -> RawPoint {
        RawPoint {
            x: (self.spec_current().pos.x - mid(self.spec_map_area()).x * 1000) as i64,
            y: (self.spec_current().pos.y - mid(self.spec_map_area()).y * 1000) as i64,
        }
    }

    /// The world point under the viewport position `p` (in thousandths of a
    /// pixel), clamped into the world's range.
    pub open spec fn spec_hover_point(&self, p: RawPoint) -> RawPoint {
        RawPoint {
            x: clamp_coord(div_toward_zero(self.spec_offset().x + p.x, self.spec_zoom())) as i64,
            y: clamp_coord(div_toward_zero(self.spec_offset().y + p.y, self.spec_zoom())) as i64,
        }
    }

    /// Where the world point `p` appears in the viewport, in thousandths of a
    /// pixel.
    pub open spec fn spec_project(&self, p: RawPoint) -> RawPoint {
        RawPoint {
            x: (p.x * self.spec_zoom() - self.spec_offset().x) as i64,
            y: (p.y * self.spec_zoom() - self.spec_offset().y) as i64,
        }
    }

    /// The offset from viewport positions to zoomed world positions.
    pub fn viewport_offset(&self) -> (r: RawPoint)
        requires
            self.wf(),
        ensures
            r == self.spec_offset(),
            -1_002_000_000_000_000_000 <= r.x <= 1_002_000_000_000_000_000,
            -1_002_000_000_000_000_000 <= r.y <= 1_002_000_000_000_000_000,
    {
        let c = self.map_area.midpoint();
        proof {
            lemma_scale_fits(self.reference.pos, self.zoom as int);
            lemma_div_toward_zero_bound(self.map_area.a.x + self.map_area.b.x, 2);
            lemma_div_toward_zero_bound(self.map_area.a.y + self.map_area.b.y, 2);
        }
        RawPoint::new(self.current.pos.x - c.x * 1000, self.current.pos.y - c.y * 1000)
    }

    /// Where the world point `p` appears in the viewport, in thousandths of a
    /// pixel.
    pub fn world_to_viewport(&self, p: RawPoint) -> (r: RawPoint)
        requires
            self.wf(),
            p.in_world(),
        ensures
            r.x == p.x * self.spec_zoom() - self.spec_offset().x,
            r.y == p.y * self.spec_zoom() - self.spec_offset().y,
            r == self.spec_project(p),
    {
        let off = self.viewport_offset();
        proof {
            lemma_scale_fits(p, self.zoom as int);
        }
        let s = p.mul(self.zoom as i64);
        RawPoint::new(s.x - off.x, s.y - off.y)
    }

    /// Resolves the entity under the pointer at viewport position `pointer`
    /// (in thousandths of a pixel), when names are shown on hover: the entity nearest to the
    /// world point under it. Otherwise nothing is hovered.
    pub fn hover(&mut self, pointer: Option<RawPoint>)
        requires
            old(self).wf(),
        ensures
            final(self).wf(),
            final(self).same_view(old(self)),
            final(self).spec_notifications() == old(self).spec_notifications(),
            (pointer is None || old(self).spec_settings().node_text_visibility != VisibilitySetting::Hover)
                ==> final(self).spec_hovered() is None,
            pointer matches Some(p) ==> old(self).spec_settings().node_text_visibility == VisibilitySetting::Hover ==> {
                &&& (final(self).spec_hovered() is None <==> old(self).spec_points().len() == 0)
                &&& final(self).spec_hovered() matches Some(id) ==> exists|j: int|
                    is_first_nearest(entries_of(old(self).spec_points()), old(self).spec_hover_point(p), j)
                    && (#[trigger] entries_of(old(self).spec_points())[j]).0 == id
            },
            final(self).spec_markers() == old(self).spec_markers(),
    {
        let hover = match self.settings.node_text_visibility {
            VisibilitySetting::Hover => true,
            _ => false,
        };
        match pointer {
            Some(p) => {
                if hover {
                    let off = self.viewport_offset();
                    let z: i128 = self.zoom as i128;
                    let wx = clamp_i128(div_i128(off.x as i128 + p.x as i128, z));
                    let wy = clamp_i128(div_i128(off.y as i128 + p.y as i128, z));
                    let w = RawPoint::new(wx, wy);
                    assert(w == self.spec_hover_point(p));
                    self.hovered = self.tree.nearest(w);
                } else {
                    self.hovered = None;
                }
            },
            None => {
                self.hovered = None;
            },
        }
    }

    /// The entity under the pointer, as last resolved.
    pub fn nearest_hover(&self) -> (r: Option<usize>)
        ensures
            r == self.spec_hovered(),
    {
        self.hovered
    }

    /// The ids of the visible entities, in index order.
    pub fn visible_points(&self) -> (r: &Vec<usize>)
        ensures
            r@ == self.spec_visible_points(),
    {
        &self.visible_points
    }

    /// The ids of the edges to draw.
    pub fn visible_lines(&self) -> (r: &Vec<String>)
        ensures
            line_ids(r@) == self.spec_visible_lines(),
    {
        &self.visible_lines
    }

    /// Starts, or restarts, the notification of entity `id_node` at `time`
    /// (in milliseconds).
    pub fn notify(&mut self, id_node: usize, time: u64)
        requires
            old(self).wf(),
        ensures
            final(self).wf(),
            final(self).same_view(old(self)),
            final(self).spec_hovered() == old(self).spec_hovered(),
            final(self).spec_notifications() == old(self).spec_notifications().insert(id_node, time),
            final(self).spec_markers() == old(self).spec_markers(),
    {
        self.entities.insert(id_node, time);
    }

    /// The state at time `now` of the notification of entity `id`, if it has
    /// one.
    pub fn notification_state(&self, id: usize, now: u64) -> (r: Option<DecayState>)
        ensures
            r is None <==> !self.spec_notifications().contains_key(id),
            r matches Some(st) ==> st == pulse_state(elapsed(self.spec_notifications()[id], now)),
    {
        match self.entities.get(&id) {
            Some(t) => Some(pulse(*t, now)),
            None => None,
        }
    }

    /// Removes the notifications of visible entities that have expired at
    /// time `now`.
    pub fn prune_notifications(&mut self, now: u64)
        requires
            old(self).wf(),
        ensures
            final(self).wf(),
            final(self).same_view(old(self)),
            final(self).spec_hovered() == old(self).spec_hovered(),
            forall|k: usize| #[trigger] final(self).spec_notifications().contains_key(k) <==> (
                old(self).spec_notifications().contains_key(k) && !(old(self).spec_visible_points().contains(k)
                && pulse_state(elapsed(old(self).spec_notifications()[k], now)) is Expired)),
            forall|k: usize| #[trigger] final(self).spec_notifications().contains_key(k)
                ==> final(self).spec_notifications()[k] == old(self).spec_notifications()[k],
            final(self).spec_markers() == old(self).spec_markers(),
    {
        let mut i: usize = 0;
        while i < self.visible_points.len()
            invariant
                self.wf(),
                self.same_view(old(self)),
                self.hovered == old(self).hovered,
                self.markers == old(self).markers,
                i <= self.visible_points@.len(),
                forall|k: usize| #[trigger] self.entities@.contains_key(k) <==> (
                    old(self).entities@.contains_key(k) && !(self.visible_points@.take(i as int).contains(k)
                    && pulse_state(elapsed(old(self).entities@[k], now)) is Expired)),
                forall|k: usize| #[trigger] self.entities@.contains_key(k)
                    ==> self.entities@[k] == old(self).entities@[k],
            decreases self.visible_points@.len() - i,
        {
            let id = self.visible_points[i];
            let ghost prev = self.visible_points@.take(i as int);
            assert(self.visible_points@.take(i as int + 1) == prev.push(id));
            let expired = match self.entities.get(&id) {
                Some(t) => match pulse(*t, now) {
                    DecayState::Expired => true,
                    _ => false,
                },
                None => false,
            };
            if expired {
                self.entities.remove(&id);
            }
            assert forall|k: usize| #[trigger] self.entities@.contains_key(k) <==> (
                old(self).entities@.contains_key(k) && !(prev.push(id).contains(k)
                && pulse_state(elapsed(old(self).entities@[k], now)) is Expired)) by {
                if k != id {
                    assert(prev.push(id).contains(k) ==> prev.contains(k)) by {
                        if prev.push(id).contains(k) {
                            let j = choose|j: int| 0 <= j < prev.push(id).len() && prev.push(id)[j] == k;
                            assert(prev[j] == k);
                        }
                    }
                    assert(prev.contains(k) ==> prev.push(id).contains(k)) by {
                        if prev.contains(k) {
                            let j = choose|j: int| 0 <= j < prev.len() && prev[j] == k;
                            assert(prev.push(id)[j] == k);
                        }
                    }
                } else {
                    assert(prev.push(id)[prev.len() as int] == id);
                }
            }
            i = i + 1;
        }
        assert(self.visible_points@.take(self.visible_points@.len() as int) == self.visible_points@);
    }

    /// The registered notifications: entity id to start time.
    pub fn notifications(&self) -> (r: &HashMap<usize, u64>)
        ensures
            r@ == self.spec_notifications(),
    {
        &self.entities
    }

    /// Points marker `id` at entity `node_id`.
    pub fn update_marker(&mut self, id: usize, node_id: usize)
        requires
            old(self).wf(),
        ensures
            final(self).wf(),
            final(self).same_view(old(self)),
            final(self).spec_notifications() == old(self).spec_notifications(),
            final(self).spec_markers() == old(self).spec_markers().insert(id, node_id),
            final(self).spec_hovered() == old(self).spec_hovered(),
    {
        self.markers.insert(id, node_id);
    }

    /// The markers: marker id to entity id.
    pub fn markers(&self) -> (r: &HashMap<usize, usize>)
        ensures
            r@ == self.spec_markers(),
    {
        &self.markers
    }

    /// Replaces the labels.
    pub fn add_labels(&mut self, labels: Vec<MapLabel>)
        requires
            old(self).wf(),
        ensures
            final(self).wf(),
            final(self).same_frame(old(self)),
            final(self).spec_notifications() == old(self).spec_notifications(),
            final(self).spec_markers() == old(self).spec_markers(),
            final(self).spec_hovered() == old(self).spec_hovered(),
            final(self).spec_lines() == old(self).spec_lines(),
            final(self).spec_min_size() == old(self).spec_min_size(),
            final(self).spec_max_size() == old(self).spec_max_size(),
            final(self).spec_labels() == labels@,
    {
        self.labels = labels;
    }

    /// Replaces the edges.
    pub fn add_lines(&mut self, lines: Vec<MapLine>)
        requires
            old(self).wf(),
        ensures
            final(self).wf(),
            final(self).same_frame(old(self)),
            final(self).spec_notifications() == old(self).spec_notifications(),
            final(self).spec_markers() == old(self).spec_markers(),
            final(self).spec_hovered() == old(self).spec_hovered(),
            final(self).spec_labels() == old(self).spec_labels(),
            final(self).spec_min_size() == old(self).spec_min_size(),
            final(self).spec_max_size() == old(self).spec_max_size(),
            final(self).spec_lines() == lines@,
    {
        self.lines = lines;
    }

    pub closed spec fn spec_labels(&self) -> Seq<MapLabel> {
        self.labels@
    }

    pub closed spec fn spec_lines(&self) -> Seq<MapLine> {
        self.lines@
    }

    pub fn labels(&self) -> (r: &Vec<MapLabel>)
        ensures
            r@ == self.spec_labels(),
    {
        &self.labels
    }

    pub fn lines(&self) -> (r: &Vec<MapLine>)
        ensures
            r@ == self.spec_lines(),
    {
        &self.lines
    }

    /// The entities, in index order.
    pub fn points(&self) -> (r: &Vec<MapPoint>)
        ensures
            r@ == self.spec_points(),
    {
        &self.points
    }

    /// The entity with id `id`, if there is one.
    pub fn point(&self, id: usize) -> (r: Option<&MapPoint>)
        ensures
            r is None <==> !has_id(self.spec_points(), id),
            r matches Some(p) ==> p.id == id && self.spec_points().contains(*p),
    {
        match find_point(&self.points, id) {
            Some(i) => {
                assert(self.points@[i as int].id == id);
                Some(&self.points[i])
            },
            None => None,
        }
    }

    /// The edge with id `id`, if there is one.
    pub fn line(&self, id: &String) -> (r: Option<&MapLine>)
        ensures
            r is None <==> forall|i: int| 0 <= i < self.spec_lines().len() ==> !(#[trigger] self.spec_lines()[i]).id_is(id@),
            r matches Some(l) ==> l.id_is(id@) && self.spec_lines().contains(*l),
    {
        let mut i: usize = 0;
        while i < self.lines.len()
            invariant
                i <= self.lines@.len(),
                forall|k: int| 0 <= k < i ==> !(#[trigger] self.lines@[k]).id_is(id@),
            decreases self.lines@.len() - i,
        {
            let matches = match &self.lines[i].id {
                Some(l) => l.eq(id),
                None => false,
            };
            if matches {
                assert(self.spec_lines()[i as int].id_is(id@));
                return Some(&self.lines[i]);
            }
            i = i + 1;
        }
        None
    }

    /// The settings.
    pub fn settings(&self) -> (r: MapSettings)
        ensures
            r == self.spec_settings(),
    {
        self.settings
    }

    /// Replaces the settings; the zoom is clamped into their range.
    pub fn set_settings(&mut self, settings: MapSettings)
        requires
            old(self).wf(),
            settings.wf(),
        ensures
            final(self).wf(),
            final(self).spec_settings() == settings,
            final(self).spec_zoom() == (if old(self).spec_zoom() < settings.min_zoom {
                settings.min_zoom as int
            } else if old(self).spec_zoom() > settings.max_zoom {
                settings.max_zoom as int
            } else {
                old(self).spec_zoom()
            }),
            final(self).spec_visible_lines() == old(self).spec_visible_lines().union(
                reached_lines(final(self).spec_points(), final(self).spec_visible_points())),
            old(self).spec_visible_lines().subset_of(final(self).spec_visible_lines()),
            final(self).spec_reference() == old(self).spec_reference(),
            final(self).spec_points() == old(self).spec_points(),
            final(self).keeps_extras(old(self)),
    {
        self.settings = settings;
        self.zoom = settings.clamp_zoom(self.zoom as i64);
        self.refresh();
    }

    /// The reference frame, in world units.
    pub fn reference(&self) -> (r: MapBounds)
        ensures
            r == self.spec_reference(),
    {
        self.reference
    }

    /// The current frame.
    pub fn current(&self) -> (r: MapBounds)
        ensures
            r == self.spec_current(),
    {
        self.current
    }

    /// The area the map occupies, in pixels.
    pub fn map_area(&self) -> (r: RawLine)
        ensures
            r == self.spec_map_area(),
    {
        self.map_area
    }

    /// Lower bounds for the map's left and top edges.
    pub fn allocate_at_least(&mut self, width: Option<i64>, height: Option<i64>)
        requires
            old(self).wf(),
        ensures
            final(self).wf(),
            final(self).same_frame(old(self)),
            final(self).spec_notifications() == old(self).spec_notifications(),
            final(self).spec_markers() == old(self).spec_markers(),
            final(self).spec_hovered() == old(self).spec_hovered(),
            final(self).spec_labels() == old(self).spec_labels(),
            final(self).spec_lines() == old(self).spec_lines(),
            final(self).spec_min_size() == (width, height),
            final(self).spec_max_size() == old(self).spec_max_size(),
    {
        self.min_size = (width, height);
    }

    /// Upper bounds for the map's right and bottom edges.
    pub fn allocate_at_most(&mut self, width: Option<i64>, height: Option<i64>)
        requires
            old(self).wf(),
        ensures
            final(self).wf(),
            final(self).same_frame(old(self)),
            final(self).spec_notifications() == old(self).spec_notifications(),
            final(self).spec_markers() == old(self).spec_markers(),
            final(self).spec_hovered() == old(self).spec_hovered(),
            final(self).spec_labels() == old(self).spec_labels(),
            final(self).spec_lines() == old(self).spec_lines(),
            final(self).spec_max_size() == (width, height),
            final(self).spec_min_size() == old(self).spec_min_size(),
    {
        self.max_size = (width, height);
    }

    pub closed spec fn spec_min_size(&self) -> (Option<i64>, Option<i64>) {
        self.min_size
    }

    pub closed spec fn spec_max_size(&self) -> (Option<i64>, Option<i64>) {
        self.max_size
    }

    /// Recomputes the current frame from the reference frame and the zoom.
    fn adjust_bounds(&mut self)
        requires
            old(self).frame_ok(),
        ensures
            final(self).frame_ok(),
            final(self).current == scaled(final(self).reference, final(self).zoom as int),
            final(self).zoom == old(self).zoom,
            final(self).reference == old(self).reference,
            final(self).points == old(self).points,
            final(self).visible_points == old(self).visible_points,
            final(self).visible_lines == old(self).visible_lines,
            final(self).entities == old(self).entities,
            final(self).markers == old(self).markers,
            final(self).hovered == old(self).hovered,
            final(self).map_area == old(self).map_area,
            final(self).settings == old(self).settings,
            final(self).labels == old(self).labels,
            final(self).lines == old(self).lines,
            final(self).min_size == old(self).min_size,
            final(self).max_size == old(self).max_size,
            final(self).tree == old(self).tree,
    {
        let z: i64 = self.zoom as i64;
        proof {
            lemma_scale_fits(self.reference.max, z as int);
            lemma_scale_fits(self.reference.min, z as int);
            lemma_scale_fits(self.reference.pos, z as int);
        }
        self.current.max = self.reference.max.mul(z);
        self.current.min = self.reference.min.mul(z);
        let d: u64 = self.reference.dist * 1000 / (self.zoom as u64);
        self.current.dist = d;
        self.current.pos = self.reference.pos.mul(z);
    }

    /// Recomputes the visible entities from the current frame, and adds the
    /// edges of every visible entity to the visible edges.
    fn calculate_visible_points(&mut self)
        requires
            old(self).frame_ok(),
            old(self).current == scaled(old(self).reference, old(self).zoom as int),
        ensures
            final(self).wf(),
            final(self).visible_points@ == visible_spec(old(self).points@, old(self).current, old(self).zoom as int),
            line_ids(final(self).visible_lines@) == line_ids(old(self).visible_lines@).union(
                reached_lines(old(self).points@, final(self).visible_points@),
            ),
            final(self).zoom == old(self).zoom,
            final(self).reference == old(self).reference,
            final(self).current == old(self).current,
            final(self).points == old(self).points,
            final(self).entities == old(self).entities,
            final(self).markers == old(self).markers,
            final(self).hovered == old(self).hovered,
            final(self).map_area == old(self).map_area,
            final(self).settings == old(self).settings,
            final(self).labels == old(self).labels,
            final(self).lines == old(self).lines,
            final(self).min_size == old(self).min_size,
            final(self).max_size == old(self).max_size,
            final(self).tree == old(self).tree,
            final(self).visible_points@.no_duplicates(),
            forall|k: int| 0 <= k < final(self).visible_points@.len()
                ==> has_id(final(self).points@, #[trigger] final(self).visible_points@[k]),
    {
        proof {
            lemma_visible_facts(self.points@, self.current, self.zoom as int);
        }
        if self.current.dist == 0 {
            self.visible_points = Vec::new();
            assert(reached_lines(self.points@, self.visible_points@) == Set::<Seq<char>>::empty());
            assert(line_ids(self.visible_lines@).union(Set::empty()) == line_ids(self.visible_lines@));
            return;
        }
        let z: i64 = self.zoom as i64;
        let center = self.current.pos.div(z);
        proof {
            lemma_unscale_scale(self.reference.pos, z as int);
        }
        let dist: u128 = self.current.dist as u128;
        assert(dist <= 3_000_000_000_000_000) by {
            assert(self.reference.dist * 1000 / (self.zoom as int) <= self.reference.dist * 1000) by (nonlinear_arith)
                requires
                    self.zoom >= 1,
                    self.reference.dist >= 0,
            ;
        }
        assert(dist * dist <= 9_000_000_000_000_000_000_000_000_000_000) by (nonlinear_arith)
            requires
                0 <= dist <= 3_000_000_000_000_000,
        ;
        let vis = self.tree.within(center, dist * dist);
        assert(center == unscale(self.current.pos, z as int));
        let ghost old_lines = line_ids(self.visible_lines@);
        let mut k: usize = 0;
        while k < vis.len()
            invariant
                self.frame_ok(),
                self.current == scaled(self.reference, self.zoom as int),
                k <= vis@.len(),
                vis@ == visible_spec(self.points@, self.current, self.zoom as int),
                old_lines == line_ids(old(self).visible_lines@),
                self.zoom == old(self).zoom,
                self.reference == old(self).reference,
                self.current == old(self).current,
                self.points == old(self).points,
                self.visible_points == old(self).visible_points,
                self.entities == old(self).entities,
                self.markers == old(self).markers,
                self.hovered == old(self).hovered,
                self.map_area == old(self).map_area,
                self.settings == old(self).settings,
                self.tree == old(self).tree,
                self.labels == old(self).labels,
                self.lines == old(self).lines,
                self.min_size == old(self).min_size,
                self.max_size == old(self).max_size,
                line_ids(self.visible_lines@) == old_lines.union(reached_lines(self.points@, vis@.take(k as int))),
            decreases vis@.len() - k,
        {
            let id = vis[k];
            let ghost before = line_ids(self.visible_lines@);
            assert(vis@.take(k as int + 1).drop_last() == vis@.take(k as int));
            assert(vis@.take(k as int + 1).last() == id);
            match find_point(&self.points, id) {
                Some(i) => {
                    proof {
                        let j = choose|j: int| 0 <= j < self.points@.len() && (#[trigger] self.points@[j]).id == id;
                        assert(self.points@[j].id == self.points@[i as int].id);
                    }
                    add_connections(&mut self.visible_lines, &self.points[i].connections);
                }
                None => {
                    assert(connections_of(self.points@, id) == Set::<Seq<char>>::empty());
                }
            }
            assert(line_ids(self.visible_lines@) == old_lines.union(reached_lines(self.points@, vis@.take(k as int + 1))));
            k = k + 1;
        }
        assert(vis@.take(vis@.len() as int) == vis@);
        self.visible_points = vis;
    }
}

/// The visibility radius for a viewport: its diagonal, rounded down, or
/// `FALLBACK_DIST` while it has no area.
pub open spec fn viewport_dist_ok(area: RawLine, d: int) -> bool {
    if (area.b.x - area.a.x) * (area.b.y - area.a.y) == 0 {
        d == FALLBACK_DIST
    } else {
        is_isqrt(sq_dist(area.a, area.b), d)
    }
}

/// The smallest box holding every position of `pts`; the origin for none.
pub open spec fn bbox_ok(pts: Seq<MapPoint>, min: RawPoint, max: RawPoint) -> bool {
    if pts.len() == 0 {
        min == RawPoint::spec_origin() && max == RawPoint::spec_origin()
    } else {
        &&& forall|i: int|
            0 <= i < pts.len() ==> min.x <= (#[trigger] pts[i]).raw_point.x <= max.x && min.y
                <= pts[i].raw_point.y <= max.y
        &&& exists|i: int| 0 <= i < pts.len() && (#[trigger] pts[i]).raw_point.x == min.x
        &&& exists|i: int| 0 <= i < pts.len() && (#[trigger] pts[i]).raw_point.y == min.y
        &&& exists|i: int| 0 <= i < pts.len() && (#[trigger] pts[i]).raw_point.x == max.x
        &&& exists|i: int| 0 <= i < pts.len() && (#[trigger] pts[i]).raw_point.y == max.y
    }
}

/// `pts` is the entity set given by `given`, where a later entry replaces an
/// earlier one with the same id.
pub open spec fn entity_set_of(given: Seq<MapPoint>, pts: Seq<MapPoint>) -> bool {
    entity_suffix_of(given, 0, pts)
}

/// The visibility radius of the viewport `area`.
fn viewport_dist(area: RawLine) -> (r: u64)
    requires
        area.a.in_world(),
        area.b.in_world(),
    ensures
        viewport_dist_ok(area, r as int),
        r <= DIST_LIMIT,
{
    let w: i128 = area.b.x as i128 - area.a.x as i128;
    let h: i128 = area.b.y as i128 - area.a.y as i128;
    assert(-4_000_000_000_000_000_000_000_000 <= w * h <= 4_000_000_000_000_000_000_000_000) by (nonlinear_arith)
        requires
            -2_000_000_000_000 <= w <= 2_000_000_000_000,
            -2_000_000_000_000 <= h <= 2_000_000_000_000,
    ;
    if w * h == 0 {
        FALLBACK_DIST
    } else {
        let r = area.distance();
        assert(r <= DIST_LIMIT) by (nonlinear_arith)
            requires
                r * r <= 8_000_000_000_000_000_000_000_000,
                r >= 0,
        ;
        r
    }
}

/// No entry after `j` has the id of entry `j`.
pub open spec fn last_of_its_id(orig: Seq<MapPoint>, j: int) -> bool {
    forall|k: int| j < k < orig.len() ==> (#[trigger] orig[k]).id != orig[j].id
}

/// `p` is an entry of `orig` from `n` on, the last one with its id.
pub open spec fn last_entry_from(orig: Seq<MapPoint>, n: int, p: MapPoint) -> bool {
    exists|j: int| n <= j < orig.len() && orig[j] == p && #[trigger] last_of_its_id(orig, j)
}

/// Some entity of `pts` has the id `id`.
pub open spec fn has_id(pts: Seq<MapPoint>, id: usize) -> bool {
    exists|i: int| 0 <= i < pts.len() && (#[trigger] pts[i]).id == id
}

/// `pts` holds the entity set of the entries of `orig` from `n` on.
pub open spec fn entity_suffix_of(orig: Seq<MapPoint>, n: int, pts: Seq<MapPoint>) -> bool {
    &&& unique_ids(pts)
    &&& forall|i: int| 0 <= i < pts.len() ==> last_entry_from(orig, n, #[trigger] pts[i])
    &&& forall|j: int| n <= j < orig.len() ==> has_id(pts, (#[trigger] orig[j]).id)
}

/// Dropping entry `n`, whose id the entity set of the later entries holds.
proof fn lemma_entity_keep(orig: Seq<MapPoint>, n: int, pts: Seq<MapPoint>, i: int)
    requires
        0 <= n < orig.len(),
        entity_suffix_of(orig, n + 1, pts),
        0 <= i < pts.len(),
        pts[i].id == orig[n].id,
    ensures
        entity_suffix_of(orig, n, pts),
{
    assert forall|a: int| 0 <= a < pts.len() implies last_entry_from(orig, n, #[trigger] pts[a]) by {
        assert(last_entry_from(orig, n + 1, pts[a]));
        let j = choose|j: int| n + 1 <= j < orig.len() && orig[j] == pts[a] && #[trigger] last_of_its_id(orig, j);
    }
    assert(has_id(pts, orig[n].id));
}

/// Adding entry `n`, whose id the entity set of the later entries lacks.
proof fn lemma_entity_add(orig: Seq<MapPoint>, n: int, before: Seq<MapPoint>)
    requires
        0 <= n < orig.len(),
        entity_suffix_of(orig, n + 1, before),
        !has_id(before, orig[n].id),
    ensures
        entity_suffix_of(orig, n, before.push(orig[n])),
{
    let after = before.push(orig[n]);
    assert(after[before.len() as int] == orig[n]);
    assert forall|a: int| 0 <= a < after.len() implies last_entry_from(orig, n, #[trigger] after[a]) by {
        if a < before.len() {
            assert(after[a] == before[a]);
            assert(last_entry_from(orig, n + 1, before[a]));
            let j = choose|j: int| n + 1 <= j < orig.len() && orig[j] == before[a] && #[trigger] last_of_its_id(orig, j);
        } else {
            assert forall|k: int| n < k < orig.len() implies (#[trigger] orig[k]).id != orig[n].id by {
                assert(has_id(before, orig[k].id));
            }
            assert(last_of_its_id(orig, n));
        }
    }
    assert forall|j: int| n <= j < orig.len() implies has_id(after, (#[trigger] orig[j]).id) by {
        if j == n {
            assert(after[before.len() as int].id == orig[j].id);
        } else {
            assert(has_id(before, orig[j].id));
            let ii = choose|ii: int| 0 <= ii < before.len() && (#[trigger] before[ii]).id == orig[j].id;
            assert(after[ii] == before[ii]);
        }
    }
    assert forall|a: int, b: int|
        0 <= a < after.len() && 0 <= b < after.len() && #[trigger] after[a].id
            == #[trigger] after[b].id implies a == b by {
        if a < before.len() && b < before.len() {
            assert(after[a] == before[a] && after[b] == before[b]);
        } else if a < before.len() {
            assert(after[a] == before[a]);
        } else if b < before.len() {
            assert(after[b] == before[b]);
        }
    }
}

/// The entity set given by `given`, a later entry replacing an earlier one
/// with the same id; in reverse order of the given entries.
fn entity_set(given: Vec<MapPoint>) -> (r: Vec<MapPoint>)
    ensures
        entity_set_of(given@, r@),
{
    let ghost orig = given@;
    let mut rest = given;
    let mut pts: Vec<MapPoint> = Vec::new();
    while rest.len() > 0
        invariant
            rest@ == orig.take(rest@.len() as int),
            rest@.len() <= orig.len(),
            entity_suffix_of(orig, rest@.len() as int, pts@),
        decreases rest@.len(),
    {
        let ghost n = rest@.len() - 1;
        let p = rest.pop().unwrap();
        assert(p == orig[n]);
        assert(rest@ == orig.take(n));
        let ghost before = pts@;
        match find_point(&pts, p.id) {
            Some(i) => {
                proof {
                    lemma_entity_keep(orig, n, pts@, i as int);
                }
            },
            None => {
                assert(!has_id(pts@, orig[n].id));
                pts.push(p);
                proof {
                    lemma_entity_add(orig, n, before);
                }
            },
        }
    }
    pts
}

/// The smallest box holding every position of `pts`.
fn bounding_box(pts: &Vec<MapPoint>) -> (r: (RawPoint, RawPoint))
    requires
        forall|i: int| 0 <= i < pts@.len() ==> (#[trigger] pts@[i]).raw_point.in_world(),
    ensures
        bbox_ok(pts@, r.0, r.1),
        r.0.in_world() && r.1.in_world(),
{
    if pts.len() == 0 {
        return (RawPoint::origin(), RawPoint::origin());
    }
    let mut min = pts[0].raw_point;
    let mut max = pts[0].raw_point;
    let mut i: usize = 1;
    while i < pts.len()
        invariant
            1 <= i <= pts@.len(),
            forall|k: int| 0 <= k < pts@.len() ==> (#[trigger] pts@[k]).raw_point.in_world(),
            forall|k: int|
                0 <= k < i ==> min.x <= (#[trigger] pts@[k]).raw_point.x <= max.x && min.y
                    <= pts@[k].raw_point.y <= max.y,
            exists|k: int| 0 <= k < i && (#[trigger] pts@[k]).raw_point.x == min.x,
            exists|k: int| 0 <= k < i && (#[trigger] pts@[k]).raw_point.y == min.y,
            exists|k: int| 0 <= k < i && (#[trigger] pts@[k]).raw_point.x == max.x,
            exists|k: int| 0 <= k < i && (#[trigger] pts@[k]).raw_point.y == max.y,
        decreases pts@.len() - i,
    {
        let p = pts[i].raw_point;
        if p.x < min.x {
            min.x = p.x;
        }
        if p.y < min.y {
            min.y = p.y;
        }
        if p.x > max.x {
            max.x = p.x;
        }
        if p.y > max.y {
            max.y = p.y;
        }
        i = i + 1;
    }
    assert(min.in_world() && max.in_world()) by {
        let a = choose|k: int| 0 <= k < pts@.len() && (#[trigger] pts@[k]).raw_point.x == min.x;
        let b = choose|k: int| 0 <= k < pts@.len() && (#[trigger] pts@[k]).raw_point.y == min.y;
        let c = choose|k: int| 0 <= k < pts@.len() && (#[trigger] pts@[k]).raw_point.x == max.x;
        let d = choose|k: int| 0 <= k < pts@.len() && (#[trigger] pts@[k]).raw_point.y == max.y;
    }
    (min, max)
}

/// A segment with each corner clamped into the world's range.
fn clamp_rect(l: RawLine) -> (r: RawLine)
    ensures
        r == clamp_line(l),
        r.a.in_world() && r.b.in_world(),
{
    RawLine::new(
        RawPoint::new(clamp_i64(l.a.x), clamp_i64(l.a.y)),
        RawPoint::new(clamp_i64(l.b.x), clamp_i64(l.b.y)),
    )
}

/// Clamps a coordinate into the world's range.
fn clamp_i64(v: i64) -> (r: i64)
    ensures
        r == clamp_coord(v as int),
{
    if v < -COORD_LIMIT {
        -COORD_LIMIT
    } else if v > COORD_LIMIT {
        COORD_LIMIT
    } else {
        v
    }
}

/// The focal point after a drag of `d` pixels at zoom `z`.
pub open spec fn pan_target(p: RawPoint, d: RawPoint, z: int) -> RawPoint {
    RawPoint {
        x: clamp_coord(p.x - div_toward_zero(d.x * 1000, z)) as i64,
        y: clamp_coord(p.y - div_toward_zero(d.y * 1000, z)) as i64,
    }
}

/// The zoom after a scroll of `delta` pixels with the given divisor.
pub open spec fn scrolled_zoom(zoom: int, delta: int, divisor: int, settings: MapSettings) -> int {
    let pre = zoom + div_toward_zero(delta * 1000, divisor);
    if pre < settings.min_zoom {
        settings.min_zoom as int
    } else if pre > settings.max_zoom {
        settings.max_zoom as int
    } else {
        pre
    }
}

/// The middle of a segment, each coordinate rounded toward zero.
pub open spec fn mid(l: RawLine) -> RawPoint {
    RawPoint {
        x: div_toward_zero(l.a.x + l.b.x, 2) as i64,
        y: div_toward_zero(l.a.y + l.b.y, 2) as i64,
    }
}

/// A point with each coordinate clamped into the world's range.
pub open spec fn clamp_point(p: RawPoint) -> RawPoint {
    RawPoint { x: clamp_coord(p.x as int) as i64, y: clamp_coord(p.y as int) as i64 }
}

/// A segment with each corner clamped into the world's range.
pub open spec fn clamp_line(l: RawLine) -> RawLine {
    RawLine { a: clamp_point(l.a), b: clamp_point(l.b) }
}

/// Machine division rounding toward zero, by a positive divisor.
fn div_i128(a: i128, k: i128) -> (r: i128)
    requires
        k > 0,
        a > i128::MIN,
    ensures
        r == div_toward_zero(a as int, k as int),
{
    if a >= 0 {
        a / k
    } else {
        let q: i128 = (-a) / k;
        -q
    }
}

/// Dividing by a positive number does not grow the magnitude.
proof fn lemma_div_toward_zero_bound(a: int, k: int)
    requires
        k >= 1,
    ensures
        a >= 0 ==> 0 <= div_toward_zero(a, k) <= a,
        a < 0 ==> a <= div_toward_zero(a, k) <= 0,
{
    if a >= 0 {
        assert(0 <= a / k <= a) by (nonlinear_arith)
            requires
                a >= 0,
                k >= 1,
        ;
    } else {
        assert(0 <= (-a) / k <= -a) by (nonlinear_arith)
            requires
                a < 0,
                k >= 1,
        ;
    }
}

/// Clamps a wide value into the world's range.
fn clamp_i128(v: i128) -> (r: i64)
    ensures
        r == clamp_coord(v as int),
{
    if v < -(COORD_LIMIT as i128) {
        -COORD_LIMIT
    } else if v > COORD_LIMIT as i128 {
        COORD_LIMIT
    } else {
        v as i64
    }
}

/// The visible entities of a well-formed entity set are ids of entities, each
/// reported once.
proof fn lemma_visible_facts(points: Seq<MapPoint>, current: MapBounds, zoom: int)
    requires
        unique_ids(points),
    ensures
        visible_spec(points, current, zoom).no_duplicates(),
        forall|k: int| 0 <= k < visible_spec(points, current, zoom).len()
            ==> has_id(points, #[trigger] visible_spec(points, current, zoom)[k]),
{
    let e = entries_of(points);
    let c = unscale(current.pos, zoom);
    let r2 = current.dist * current.dist;
    if current.dist > 0 {
        assert forall|i: int, j: int|
            0 <= i < e.len() && 0 <= j < e.len() && (#[trigger] e[i]).0 == (#[trigger] e[j]).0 implies i == j by {
            assert(points[i].id == e[i].0 && points[j].id == e[j].0);
        }
        lemma_ids_within_no_duplicates(e, c, r2);
        let v = ids_within(e, c, r2);
        assert forall|k: int| 0 <= k < v.len() implies has_id(points, #[trigger] v[k]) by {
            lemma_ids_within_contains(e, c, r2, v[k]);
            assert(v.contains(v[k]));
            let j = choose|j: int| 0 <= j < e.len() && (#[trigger] e[j]).0 == v[k] && sq_dist(e[j].1, c) <= r2;
            assert(points[j].id == v[k]);
        }
    }
}

/// A point of the world multiplied by a zoom fits in machine integers.
proof fn lemma_scale_fits(p: RawPoint, z: int)
    requires
        p.in_world(),
        zoom_ok(z),
    ensures
        -1_000_000_000_000_000_000 <= p.x * z <= 1_000_000_000_000_000_000,
        -1_000_000_000_000_000_000 <= p.y * z <= 1_000_000_000_000_000_000,
{
    assert(-1_000_000_000_000_000_000 <= p.x * z <= 1_000_000_000_000_000_000) by (nonlinear_arith)
        requires
            -1_000_000_000_000 <= p.x <= 1_000_000_000_000,
            1 <= z <= 1_000_000,
    ;
    assert(-1_000_000_000_000_000_000 <= p.y * z <= 1_000_000_000_000_000_000) by (nonlinear_arith)
        requires
            -1_000_000_000_000 <= p.y <= 1_000_000_000_000,
            1 <= z <= 1_000_000,
    ;
}

/// Dividing a scaled point by the same zoom gives the point back.
proof fn lemma_unscale_scale(p: RawPoint, z: int)
    requires
        p.in_world(),
        zoom_ok(z),
    ensures
        unscale(scale(p, z), z) == p,
{
    lemma_scale_fits(p, z);
    lemma_div_exact(p.x as int, z);
    lemma_div_exact(p.y as int, z);
}

proof fn lemma_div_exact(a: int, z: int)
    requires
        z >= 1,
    ensures
        div_toward_zero(a * z, z) == a,
{
    if a >= 0 {
        vstd::arithmetic::div_mod::lemma_div_multiples_vanish(a, z);
        assert(z * a == a * z) by (nonlinear_arith);
        assert(a * z >= 0) by (nonlinear_arith)
            requires
                a >= 0,
                z >= 1,
        ;
    } else {
        vstd::arithmetic::div_mod::lemma_div_multiples_vanish(-a, z);
        assert(z * (-a) == -(a * z)) by (nonlinear_arith);
        assert(a * z < 0) by (nonlinear_arith)
            requires
                a < 0,
                z >= 1,
        ;
    }
}

/// An entity is visible exactly when its squared distance to the current
/// focal point, brought back to world units, is within the square of the
/// current radius; the current radius is the reference radius divided by the
/// zoom. While that radius is zero nothing is visible.
pub proof fn lemma_radius_consistency(m: &MapEngine, i: int)
    requires
        m.wf(),
        0 <= i < m.spec_points().len(),
    ensures
        m.spec_current().dist == m.spec_reference().dist * (ZOOM_SCALE as int) / m.spec_zoom(),
        unscale(m.spec_current().pos, m.spec_zoom()) == m.spec_reference().pos,
        m.spec_current().dist > 0 ==> (m.spec_visible_points().contains(m.spec_points()[i].id) <==> sq_dist(
            m.spec_points()[i].raw_point,
            unscale(m.spec_current().pos, m.spec_zoom()),
        ) <= m.spec_current().dist * m.spec_current().dist),
        m.spec_current().dist == 0 ==> m.spec_visible_points().len() == 0,
{
    let pts = m.points@;
    let e = entries_of(pts);
    let c = unscale(m.current.pos, m.zoom as int);
    let r2 = m.current.dist * m.current.dist;
    lemma_unscale_scale(m.reference.pos, m.zoom as int);
    assert(m.reference.dist * 1000 / (m.zoom as int) <= m.reference.dist * 1000) by (nonlinear_arith)
        requires
            m.zoom >= 1,
            m.reference.dist >= 0,
    ;
    lemma_ids_within_contains(e, c, r2, pts[i].id);
    if m.current.dist > 0 {
        assert(e[i] == (pts[i].id, pts[i].raw_point));
        if ids_within(e, c, r2).contains(pts[i].id) {
            let j = choose|j: int| 0 <= j < e.len() && (#[trigger] e[j]).0 == pts[i].id && sq_dist(e[j].1, c) <= r2;
            assert(e[j] == (pts[j].id, pts[j].raw_point));
            assert(pts[j].id == pts[i].id);
        }
    }
}

/// Panning by a drag and then by the opposite drag, at one zoom, restores
/// the focal point, unless the first pan had to be clamped.
pub proof fn lemma_pan_round_trip(p: RawPoint, d: RawPoint, z: int)
    requires
        p.in_world(),
        zoom_ok(z),
        d.x > i64::MIN && d.y > i64::MIN,
        coord_ok(p.x - div_toward_zero(d.x * 1000, z)),
        coord_ok(p.y - div_toward_zero(d.y * 1000, z)),
    ensures
        pan_target(pan_target(p, d, z), RawPoint { x: -d.x as i64, y: -d.y as i64 }, z) == p,
{
    let q = pan_target(p, d, z);
    assert(div_toward_zero((-d.x) * 1000, z) == -div_toward_zero(d.x * 1000, z));
    assert(div_toward_zero((-d.y) * 1000, z) == -div_toward_zero(d.y * 1000, z));
}

/// A pointer exactly over the projected position of entity `i` lies over
/// that very world point; the entity that hover resolves to there (the first
/// nearest, `j`) stands at that position, and is entity `i` itself when no
/// other entity shares it.
pub proof fn lemma_hover_over_entity(m: &MapEngine, i: int, j: int)
    requires
        m.wf(),
        0 <= i < m.spec_points().len(),
        is_first_nearest(
            entries_of(m.spec_points()),
            m.spec_hover_point(m.spec_project(m.spec_points()[i].raw_point)),
            j,
        ),
    ensures
        m.spec_hover_point(m.spec_project(m.spec_points()[i].raw_point)) == m.spec_points()[i].raw_point,
        m.spec_points()[j].raw_point == m.spec_points()[i].raw_point,
        (forall|k: int| 0 <= k < m.spec_points().len() && k != i
            ==> (#[trigger] m.spec_points()[k]).raw_point != m.spec_points()[i].raw_point)
            ==> entries_of(m.spec_points())[j].0 == m.spec_points()[i].id,
{
    let pts = m.spec_points();
    let pt = pts[i].raw_point;
    assert(pt.in_world());
    lemma_offset_bounds(m);
    lemma_scale_fits(pt, m.spec_zoom());
    lemma_div_exact(pt.x as int, m.spec_zoom());
    lemma_div_exact(pt.y as int, m.spec_zoom());
    let e = entries_of(pts);
    let hp = m.spec_hover_point(m.spec_project(pt));
    assert(hp == pt);
    assert(e[i] == (pts[i].id, pts[i].raw_point));
    assert(e[j] == (pts[j].id, pts[j].raw_point));
    assert(e[i].1 == hp);
    assert(sq_dist(hp, hp) == 0) by (nonlinear_arith);
    let q = e[j].1;
    let dx = q.x - hp.x;
    let dy = q.y - hp.y;
    assert(dx * dx + dy * dy <= 0);
    assert(dx == 0 && dy == 0) by (nonlinear_arith)
        requires
            dx * dx + dy * dy <= 0,
    ;
}

/// The offset between viewport and zoomed world positions is computed
/// without truncation, and is bounded.
proof fn lemma_offset_bounds(m: &MapEngine)
    requires
        m.wf(),
    ensures
        m.spec_offset().x == m.spec_current().pos.x - mid(m.spec_map_area()).x * 1000,
        m.spec_offset().y == m.spec_current().pos.y - mid(m.spec_map_area()).y * 1000,
        -1_002_000_000_000_000_000 <= m.spec_offset().x <= 1_002_000_000_000_000_000,
        -1_002_000_000_000_000_000 <= m.spec_offset().y <= 1_002_000_000_000_000_000,
{
    lemma_scale_fits(m.reference.pos, m.zoom as int);
    lemma_div_toward_zero_bound(m.map_area.a.x + m.map_area.b.x, 2);
    lemma_div_toward_zero_bound(m.map_area.a.y + m.map_area.b.y, 2);
}

/// What the engine's invariant gives its callers: the zoom lies in the
/// settings' range, the current frame is the reference frame rescaled by the
/// zoom, and the visible entities are those within its radius, each an
/// entity's id, reported once.
pub proof fn lemma_engine_facts(m: &MapEngine)
    requires
        m.wf(),
    ensures
        m.spec_settings().wf(),
        m.spec_settings().min_zoom <= m.spec_zoom() <= m.spec_settings().max_zoom,
        m.spec_current() == scaled(m.spec_reference(), m.spec_zoom()),
        m.spec_visible_points() == visible_spec(m.spec_points(), m.spec_current(), m.spec_zoom()),
        m.spec_visible_points().no_duplicates(),
        forall|k: int| 0 <= k < m.spec_visible_points().len()
            ==> has_id(m.spec_points(), #[trigger] m.spec_visible_points()[k]),
        unique_ids(m.spec_points()),
        forall|k: int| 0 <= k < m.spec_points().len() ==> (#[trigger] m.spec_points()[k]).raw_point.in_world(),
        reference_ok(m.spec_reference()),
{
    lemma_visible_facts(m.points@, m.current, m.zoom as int);
}

} // verus!
