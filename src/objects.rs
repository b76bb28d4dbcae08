use crate::geometry::{RawLine, RawPoint};
use vstd::prelude::*;

verus! {

/// Largest zoom factor, in thousandths, that settings may allow.
pub const ZOOM_LIMIT: u32 = 1_000_000;

/// How the name of an entity is shown.
#[derive(Clone, Copy, Debug, PartialEq, Eq, Structural)]
pub enum VisibilitySetting {
    Hidden,
    Hover,
    Allways,
}

/// A position that cannot be brought into the engine's world.
#[derive(Clone, Copy, Debug, PartialEq, Eq, Structural)]
pub struct ConversionError {
    /// The entity whose position is out of range.
    pub id: usize,
}

/// A positioned, named, connectable entity of the map.
#[derive(Clone, Debug)]
pub struct MapPoint {
    /// Position in world units.
    pub raw_point: RawPoint,
    /// Ids of the edges that start or end here.
    pub connections: Vec<String>,
    /// Identifier, unique within an entity set.
    pub id: usize,
    /// Display name.
    pub name: String,
}

impl MapPoint {
    /// A new entity at `coords`, with no name and no connections.
    pub fn new(id: usize, coords: RawPoint) -> (r: MapPoint)
        ensures
            r.id == id,
            r.raw_point == coords,
            r.connections@.len() == 0,
            r.name@.len() == 0,
    {
        MapPoint { raw_point: coords, connections: Vec::new(), id, name: String::new() }
    }

    pub fn get_id(&self) -> (r: usize)
        ensures
            r == self.id,
    {
        self.id
    }

    pub fn get_name(&self) -> (r: String)
        ensures
            r@ == self.name@,
    {
        self.name.clone()
    }

    pub fn set_name(&mut self, value: String)
        ensures
            final(self).name@ == value@,
            final(self).id == old(self).id,
            final(self).raw_point == old(self).raw_point,
            final(self).connections == old(self).connections,
    {
        self.name = value;
    }
}

/// An edge between two world positions, referred to by id from entities.
#[derive(Clone, Debug)]
pub struct MapLine {
    pub id: Option<String>,
    pub raw_line: RawLine,
}

impl MapLine {
    /// Whether the edge has the id `id`.
    pub open spec fn id_is(&self, id: Seq<char>) -> bool {
        self.id matches Some(s) && s@ == id
    }

    pub fn new(point1: RawPoint, point2: RawPoint) -> (r: MapLine)
        ensures
            r.id is None,
            r.raw_line.a == point1 && r.raw_line.b == point2,
    {
        MapLine { id: None, raw_line: RawLine::new(point1, point2) }
    }
}

/// A text drawn at a world position.
#[derive(Clone, Debug)]
pub struct MapLabel {
    pub text: String,
    pub center: RawPoint,
}

impl MapLabel {
    pub fn new() -> (r: MapLabel)
        ensures
            r.text@.len() == 0,
            r.center.x == 0 && r.center.y == 0,
    {
        MapLabel { text: String::new(), center: RawPoint::origin() }
    }
}

/// Zoom limits and display thresholds; zoom factors are in thousandths.
#[derive(Clone, Copy, Debug, PartialEq, Eq, Structural)]
pub struct MapSettings {
    pub max_zoom: u32,
    pub min_zoom: u32,
    pub line_visible_zoom: u32,
    pub label_visible_zoom: u32,
    pub node_text_visibility: VisibilitySetting,
}

impl MapSettings {
    /// The zoom range is non-empty, positive and bounded.
    pub open spec fn wf(&self) -> bool {
        1 <= self.min_zoom <= self.max_zoom <= ZOOM_LIMIT
    }

    /// Settings with every threshold at its smallest: a zoom of one thousandth.
    pub fn new() -> (r: MapSettings)
        ensures
            r.wf(),
            r.max_zoom == 1 && r.min_zoom == 1,
            r.line_visible_zoom == 0 && r.label_visible_zoom == 0,
            r.node_text_visibility == VisibilitySetting::Allways,
    {
        MapSettings {
            max_zoom: 1,
            min_zoom: 1,
            line_visible_zoom: 0,
            label_visible_zoom: 0,
            node_text_visibility: VisibilitySetting::Allways,
        }
    }

    pub open spec fn spec_standard() -> MapSettings {
        MapSettings {
            max_zoom: 2000,
            min_zoom: 100,
            line_visible_zoom: 200,
            label_visible_zoom: 580,
            node_text_visibility: VisibilitySetting::Allways,
        }
    }

    /// The usual settings: zoom from 0.1 to 2, lines from 0.2, labels from 0.58.
    pub fn standard() -> (r: MapSettings)
        ensures
            r.wf(),
            r == MapSettings::spec_standard(),
    {
        MapSettings {
            max_zoom: 2000,
            min_zoom: 100,
            line_visible_zoom: 200,
            label_visible_zoom: 580,
            node_text_visibility: VisibilitySetting::Allways,
        }
    }

    /// Clamps a zoom factor into `[min_zoom, max_zoom]`.
    pub fn clamp_zoom(&self, value: i64) -> (r: u32)
        requires
            self.wf(),
        ensures
            r == (if value < self.min_zoom {
                self.min_zoom as int
            } else if value > self.max_zoom {
                self.max_zoom as int
            } else {
                value as int
            }),
    {
        if value < self.min_zoom as i64 {
            self.min_zoom
        } else if value > self.max_zoom as i64 {
            self.max_zoom
        } else {
            value as u32
        }
    }
}

/// Bounds of a frame of reference: corners, focal point and visibility radius.
#[derive(Clone, Copy, Debug, PartialEq, Eq, Structural)]
pub struct MapBounds {
    pub min: RawPoint,
    pub max: RawPoint,
    pub pos: RawPoint,
    pub dist: u64,
}

impl MapBounds {
    pub open spec fn spec_new() -> MapBounds {
        MapBounds {
            min: RawPoint::spec_origin(),
            max: RawPoint::spec_origin(),
            pos: RawPoint::spec_origin(),
            dist: 0,
        }
    }

    /// Bounds with every corner at the origin and a zero radius.
    pub fn new() -> (r: MapBounds)
        ensures
            r == MapBounds::spec_new(),
    {
        MapBounds { min: RawPoint::origin(), max: RawPoint::origin(), pos: RawPoint::origin(), dist: 0 }
    }
}

/// How edges are stroked at some zoom.
#[derive(Clone, Copy, Debug, PartialEq, Eq, Structural)]
pub enum LineFade {
    /// Edges are not drawn.
    Hidden,
    /// Edges are drawn with this opacity out of 255, fading in.
    Faded(u8),
    /// Edges are drawn with the style's own color.
    Full,
}

/// Edges appear above `line_visible_zoom` and fade in over a further 0.8 of
/// zoom.
pub open spec fn line_fade_spec(zoom: int, line_visible_zoom: int) -> LineFade {
    if zoom <= line_visible_zoom {
        LineFade::Hidden
    } else if zoom - line_visible_zoom < 800 {
        LineFade::Faded(((255 * (zoom - line_visible_zoom) + 400) / 800) as u8)
    } else {
        LineFade::Full
    }
}

/// How edges are drawn at `zoom` under `settings`.
pub fn line_fade(zoom: u32, settings: &MapSettings) -> (r: LineFade)
    ensures
        r == line_fade_spec(zoom as int, settings.line_visible_zoom as int),
{
    if zoom <= settings.line_visible_zoom {
        LineFade::Hidden
    } else {
        let range: u32 = zoom - settings.line_visible_zoom;
        if range < 800 {
            let a: u32 = (255 * range + 400) / 800;
            assert(a <= 255) by (nonlinear_arith)
                requires
                    range < 800,
                    a == (255 * range + 400) / 800,
            ;
            LineFade::Faded(a as u8)
        } else {
            LineFade::Full
        }
    }
}

/// Whether an entity's name is drawn: always above the label zoom, or on
/// hover when it is the hovered entity.
pub open spec fn shows_label_spec(
    zoom: int,
    settings: MapSettings,
    id: usize,
    hovered: Option<usize>,
) -> bool {
    (zoom > settings.label_visible_zoom && settings.node_text_visibility
        == VisibilitySetting::Allways) || (settings.node_text_visibility == VisibilitySetting::Hover
        && hovered == Some(id))
}

pub fn shows_label(zoom: u32, settings: &MapSettings, id: usize, hovered: Option<usize>) -> (r:
    bool)
    ensures
        r == shows_label_spec(zoom as int, *settings, id, hovered),
{
    let always = match settings.node_text_visibility {
        VisibilitySetting::Allways => true,
        _ => false,
    };
    let hover = match settings.node_text_visibility {
        VisibilitySetting::Hover => true,
        _ => false,
    };
    let is_hovered = match hovered {
        Some(h) => h == id,
        None => false,
    };
    (zoom > settings.label_visible_zoom && always) || (hover && is_hovered)
}

/// Whether a rectangle's corners lie in the engine's world.
pub open spec fn rect_in_world(r: RawLine) -> bool {
    r.a.in_world() && r.b.in_world()
}

/// Clamps `v` to at most `bound`, when a bound is given.
pub open spec fn cap(v: i64, bound: Option<i64>) -> i64 {
    match bound {
        Some(b) => if v > b { b } else { v },
        None => v,
    }
}

/// Raises `v` to at least `bound`, when a bound is given.
pub open spec fn floor_at(v: i64, bound: Option<i64>) -> i64 {
    match bound {
        Some(b) => if v < b { b } else { v },
        None => v,
    }
}

fn cap_exec(v: i64, bound: Option<i64>) -> (r: i64)
    ensures
        r == cap(v, bound),
{
    match bound {
        Some(b) => if v > b { b } else { v },
        None => v,
    }
}

fn floor_exec(v: i64, bound: Option<i64>) -> (r: i64)
    ensures
        r == floor_at(v, bound),
{
    match bound {
        Some(b) => if v < b { b } else { v },
        None => v,
    }
}

/// The area the map occupies within the space `available`: its right and
/// bottom edges are capped by `max_size`, its left and top edges raised to
/// `min_size`, each side only where a bound is given.
pub fn calculate_widget_dimentions(
    available: RawLine,
    min_size: (Option<i64>, Option<i64>),
    max_size: (Option<i64>, Option<i64>),
) -> (r: RawLine)
    ensures
        r.a.x == floor_at(available.a.x, min_size.0),
        r.a.y == floor_at(available.a.y, min_size.1),
        r.b.x == cap(available.b.x, max_size.0),
        r.b.y == cap(available.b.y, max_size.1),
{
    let left_top = RawPoint::new(floor_exec(available.a.x, min_size.0), floor_exec(available.a.y, min_size.1));
    let right_bottom = RawPoint::new(cap_exec(available.b.x, max_size.0), cap_exec(available.b.y, max_size.1));
    RawLine::new(left_top, right_bottom)
}

} // verus!
