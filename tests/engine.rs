use map_engine::animation::{marker_alpha, pulse, DecayState};
use map_engine::geometry::{div_i64, isqrt, RawLine, RawPoint};
use map_engine::index::SpatialIndex;
use map_engine::map::{MapEngine, FALLBACK_DIST};
use map_engine::objects::{
    calculate_widget_dimentions, line_fade, shows_label, ConversionError, LineFade, MapLine,
    MapPoint, MapSettings, VisibilitySetting,
};

fn point(id: usize, x: i64, y: i64, connections: &[&str]) -> MapPoint {
    let mut p = MapPoint::new(id, RawPoint::new(x, y));
    for c in connections {
        p.connections.push(c.to_string());
    }
    p
}

fn viewport_200() -> RawLine {
    RawLine::new(RawPoint::new(0, 0), RawPoint::new(120, 160))
}

fn wide_settings(visibility: VisibilitySetting) -> MapSettings {
    MapSettings {
        max_zoom: 2000,
        min_zoom: 10,
        line_visible_zoom: 200,
        label_visible_zoom: 580,
        node_text_visibility: visibility,
    }
}

fn scenario(visibility: VisibilitySetting) -> MapEngine {
    let mut m = MapEngine::new();
    m.set_settings(wide_settings(visibility));
    m.set_viewport(viewport_200());
    let pts = vec![
        point(1, 0, 0, &["e1"]),
        point(2, 100, 0, &["e1"]),
        point(3, 1000, 1000, &[]),
    ];
    assert_eq!(m.add_hashmap_points(pts), Ok(()));
    let mut e1 = MapLine::new(RawPoint::new(0, 0), RawPoint::new(100, 0));
    e1.id = Some("e1".to_string());
    m.add_lines(vec![e1]);
    m.set_pos([0, 0]);
    m
}

fn sorted(v: &Vec<usize>) -> Vec<usize> {
    let mut s = v.clone();
    s.sort();
    s
}

fn sorted_lines(v: &Vec<String>) -> Vec<String> {
    let mut s = v.clone();
    s.sort();
    s
}

#[test]
fn concrete_scenario_visibility() {
    let mut m = scenario(VisibilitySetting::Allways);
    assert_eq!(m.reference().dist, 200);
    assert_eq!(m.current().dist, 200);
    assert_eq!(sorted(m.visible_points()), vec![1, 2]);
    assert_eq!(sorted_lines(m.visible_lines()), vec!["e1".to_string()]);
    m.set_zoom(50);
    assert_eq!(m.get_zoom(), 50);
    assert_eq!(m.current().dist, 4000);
    assert_eq!(sorted(m.visible_points()), vec![1, 2, 3]);
    assert_eq!(sorted_lines(m.visible_lines()), vec!["e1".to_string()]);
}

#[test]
fn hover_resolves_entity_under_pointer() {
    let mut m = scenario(VisibilitySetting::Hover);
    let projected = m.world_to_viewport(RawPoint::new(100, 0));
    assert_eq!(projected, RawPoint::new(160_000, 80_000));
    m.hover(Some(projected));
    assert_eq!(m.nearest_hover(), Some(2));
    m.set_zoom(1234);
    let projected = m.world_to_viewport(RawPoint::new(100, 0));
    assert_eq!(projected, RawPoint::new(183_400, 80_000));
    m.hover(Some(projected));
    assert_eq!(m.nearest_hover(), Some(2));
    m.hover(Some(m.world_to_viewport(RawPoint::new(0, 0))));
    assert_eq!(m.nearest_hover(), Some(1));
    m.hover(None);
    assert_eq!(m.nearest_hover(), None);
}

#[test]
fn hover_is_skipped_unless_names_show_on_hover() {
    let mut m = scenario(VisibilitySetting::Allways);
    m.hover(Some(RawPoint::new(160_000, 80_000)));
    assert_eq!(m.nearest_hover(), None);
}

#[test]
fn radius_consistency_at_several_zooms() {
    let mut m = scenario(VisibilitySetting::Allways);
    for z in [10u32, 50, 100, 200, 500, 1000, 1500, 2000] {
        m.set_zoom(z);
        let dist = m.current().dist as i128;
        assert_eq!(dist, 200 * 1000 / z as i128);
        let c = m.reference().pos;
        for p in m.points().clone() {
            let dx = (p.raw_point.x - c.x) as i128;
            let dy = (p.raw_point.y - c.y) as i128;
            let inside = dx * dx + dy * dy <= dist * dist;
            assert_eq!(m.visible_points().contains(&p.id), inside, "zoom {} id {}", z, p.id);
        }
    }
}

#[test]
fn visible_lines_grow_monotonically() {
    let mut m = MapEngine::new();
    m.set_viewport(viewport_200());
    let pts = vec![
        point(1, 0, 0, &["a"]),
        point(2, 1000, 0, &["b"]),
        point(3, 2000, 0, &["c"]),
    ];
    m.add_hashmap_points(pts).unwrap();
    assert_eq!(sorted(m.visible_points()), vec![2]);
    assert_eq!(sorted_lines(m.visible_lines()), vec!["b".to_string()]);
    m.set_pos([0, 0]);
    assert_eq!(sorted(m.visible_points()), vec![1]);
    assert_eq!(sorted_lines(m.visible_lines()), vec!["a".to_string(), "b".to_string()]);
    m.set_pos([1000, 0]);
    assert_eq!(sorted(m.visible_points()), vec![2]);
    assert_eq!(sorted_lines(m.visible_lines()), vec!["a".to_string(), "b".to_string()]);
    m.pan(RawPoint::new(-1000, 0));
    assert_eq!(m.get_pos(), [2000, 0]);
    assert_eq!(sorted(m.visible_points()), vec![3]);
    assert_eq!(
        sorted_lines(m.visible_lines()),
        vec!["a".to_string(), "b".to_string(), "c".to_string()]
    );
    m.add_hashmap_points(vec![point(9, 2000, 0, &[])]).unwrap();
    assert!(m.visible_lines().is_empty());
}

#[test]
fn set_zoom_outside_range_is_ignored() {
    let mut m = MapEngine::new();
    assert_eq!(m.get_zoom(), 1000);
    m.set_zoom(99);
    assert_eq!(m.get_zoom(), 1000);
    m.set_zoom(2001);
    assert_eq!(m.get_zoom(), 1000);
    m.set_zoom(0);
    assert_eq!(m.get_zoom(), 1000);
}

#[test]
fn set_zoom_inside_range_sets_exactly() {
    let mut m = MapEngine::new();
    m.set_zoom(100);
    assert_eq!(m.get_zoom(), 100);
    m.set_zoom(2000);
    assert_eq!(m.get_zoom(), 2000);
    m.set_zoom(1234);
    assert_eq!(m.get_zoom(), 1234);
}

#[test]
fn pan_round_trip_restores_position() {
    let mut m = scenario(VisibilitySetting::Allways);
    m.set_pos([37, -12]);
    for z in [1000u32, 300, 1700] {
        m.set_zoom(z);
        let before = m.get_pos();
        m.pan(RawPoint::new(41, -17));
        assert_ne!(m.get_pos(), before);
        m.pan(RawPoint::new(-41, 17));
        assert_eq!(m.get_pos(), before);
    }
}

#[test]
fn pan_divides_by_zoom() {
    let mut m = scenario(VisibilitySetting::Allways);
    m.set_zoom(500);
    m.pan(RawPoint::new(10, -3));
    assert_eq!(m.get_pos(), [-20, 6]);
    m.set_zoom(2000);
    m.pan(RawPoint::new(3, 0));
    assert_eq!(m.get_pos(), [-21, 6]);
}

#[test]
fn zero_pan_changes_nothing() {
    let mut m = scenario(VisibilitySetting::Allways);
    m.pan(RawPoint::new(0, 0));
    assert_eq!(m.get_pos(), [0, 0]);
}

#[test]
fn notification_decay() {
    let mut m = scenario(VisibilitySetting::Allways);
    let t0: u64 = 10_000;
    m.notify(2, t0);
    assert_eq!(
        m.notification_state(2, t0),
        Some(DecayState::Active { radius: 4000, alpha: 1000 })
    );
    assert_eq!(m.notification_state(2, t0 + 3500), Some(DecayState::Expired));
    let mut last = 1000;
    for t in (t0..t0 + 3500).step_by(7) {
        match m.notification_state(2, t) {
            Some(DecayState::Active { alpha, .. }) => {
                assert!(alpha <= last);
                last = alpha;
            }
            other => panic!("unexpected {:?}", other),
        }
    }
    assert_eq!(m.notification_state(1, t0), None);
}

#[test]
fn renotify_resets_start_time() {
    let mut m = scenario(VisibilitySetting::Allways);
    m.notify(1, 0);
    m.notify(1, 5000);
    assert_eq!(m.notifications().len(), 1);
    assert_eq!(
        m.notification_state(1, 5000),
        Some(DecayState::Active { radius: 4000, alpha: 1000 })
    );
}

#[test]
fn prune_removes_expired_visible_notifications() {
    let mut m = scenario(VisibilitySetting::Allways);
    m.notify(1, 0);
    m.notify(2, 3000);
    m.notify(3, 0);
    m.prune_notifications(4000);
    assert!(!m.notifications().contains_key(&1));
    assert!(m.notifications().contains_key(&2));
    assert!(m.notifications().contains_key(&3));
}

#[test]
fn pulse_values() {
    assert_eq!(pulse(1000, 1000), DecayState::Active { radius: 4000, alpha: 1000 });
    assert_eq!(pulse(1000, 2000), DecayState::Active { radius: 44_000, alpha: 715 });
    assert_eq!(pulse(0, 3499), DecayState::Active { radius: 143_960, alpha: 1 });
    assert_eq!(pulse(0, 3500), DecayState::Expired);
    assert_eq!(pulse(5000, 1000), DecayState::Active { radius: 4000, alpha: 1000 });
}

#[test]
fn marker_blinks() {
    assert_eq!(marker_alpha(0), 0);
    assert_eq!(marker_alpha(500), 100);
    assert_eq!(marker_alpha(1275), 255);
    assert_eq!(marker_alpha(2000), 110);
    assert_eq!(marker_alpha(2550), 0);
}

#[test]
fn out_of_range_position_is_a_conversion_error() {
    let mut m = scenario(VisibilitySetting::Allways);
    let pts = vec![point(4, 0, 0, &[]), point(5, 2_000_000_000_000, 0, &[])];
    assert_eq!(m.add_hashmap_points(pts), Err(ConversionError { id: 5 }));
    assert_eq!(m.points().len(), 3);
    assert_eq!(sorted(m.visible_points()), vec![1, 2]);
}

#[test]
fn duplicate_ids_overwrite() {
    let mut m = MapEngine::new();
    let mut a = point(7, 0, 0, &[]);
    a.set_name("first".to_string());
    let mut b = point(7, 10, 20, &[]);
    b.set_name("second".to_string());
    m.add_hashmap_points(vec![a, point(8, 5, 5, &[]), b]).unwrap();
    assert_eq!(m.points().len(), 2);
    let p = m.point(7).unwrap();
    assert_eq!(p.get_name(), "second");
    assert_eq!(p.raw_point, RawPoint::new(10, 20));
}

#[test]
fn focal_point_is_middle_of_bounding_box() {
    let mut m = MapEngine::new();
    m.add_hashmap_points(vec![point(1, -10, 4, &[]), point(2, 31, 9, &[]), point(3, 0, -7, &[])])
        .unwrap();
    let r = m.reference();
    assert_eq!(r.min, RawPoint::new(-10, -7));
    assert_eq!(r.max, RawPoint::new(31, 9));
    assert_eq!(r.pos, RawPoint::new(10, 1));
    assert_eq!(m.get_pos(), [10, 1]);
}

#[test]
fn degenerate_viewport_uses_fallback_radius() {
    let mut m = MapEngine::new();
    m.add_hashmap_points(vec![point(1, 0, 0, &[]), point(2, 2999, 0, &[]), point(3, 3001, 0, &[])])
        .unwrap();
    assert_eq!(m.reference().dist, FALLBACK_DIST);
    m.set_pos([0, 0]);
    assert_eq!(sorted(m.visible_points()), vec![1, 2]);
}

#[test]
fn viewport_without_area_falls_back() {
    let mut m = MapEngine::new();
    m.set_viewport(viewport_200());
    assert_eq!(m.reference().dist, 200);
    m.set_viewport(RawLine::new(RawPoint::new(0, 0), RawPoint::new(0, 50)));
    assert_eq!(m.reference().dist, FALLBACK_DIST);
    m.set_zoom(2000);
    assert_eq!(m.current().dist, 1500);
}

#[test]
fn zero_radius_shows_nothing() {
    let mut m = MapEngine::new();
    m.set_viewport(RawLine::new(RawPoint::new(0, 0), RawPoint::new(1, 1)));
    m.add_hashmap_points(vec![point(1, 0, 0, &[])]).unwrap();
    assert_eq!(m.reference().dist, 1);
    assert_eq!(m.visible_points(), &vec![1]);
    m.set_zoom(2000);
    assert_eq!(m.current().dist, 0);
    assert!(m.visible_points().is_empty());
}

#[test]
fn set_pos_from_nodeid_centres_on_entity() {
    let mut m = scenario(VisibilitySetting::Allways);
    m.set_pos_from_nodeid(3);
    assert_eq!(m.get_pos(), [1000, 1000]);
    assert_eq!(sorted(m.visible_points()), vec![3]);
    m.set_pos_from_nodeid(42);
    assert_eq!(m.get_pos(), [1000, 1000]);
}

#[test]
fn scroll_zooms_and_clamps() {
    let mut m = MapEngine::new();
    m.scroll(2, 8);
    assert_eq!(m.get_zoom(), 1250);
    m.scroll(-4, 40);
    assert_eq!(m.get_zoom(), 1150);
    m.scroll(100, 8);
    assert_eq!(m.get_zoom(), 2000);
    m.scroll(-100, 8);
    assert_eq!(m.get_zoom(), 100);
}

#[test]
fn settings_change_clamps_zoom() {
    let mut m = MapEngine::new();
    m.set_settings(MapSettings {
        max_zoom: 800,
        min_zoom: 200,
        line_visible_zoom: 0,
        label_visible_zoom: 0,
        node_text_visibility: VisibilitySetting::Hidden,
    });
    assert_eq!(m.get_zoom(), 800);
}

#[test]
fn widget_dimensions_respect_size_bounds() {
    let avail = RawLine::new(RawPoint::new(5, 6), RawPoint::new(500, 400));
    let r = calculate_widget_dimentions(avail, (Some(10), None), (None, Some(300)));
    assert_eq!(r, RawLine::new(RawPoint::new(10, 6), RawPoint::new(500, 300)));
    let r = calculate_widget_dimentions(avail, (Some(1), Some(2)), (Some(900), Some(900)));
    assert_eq!(r, avail);
}

#[test]
fn allocation_bounds_apply_to_viewport() {
    let mut m = MapEngine::new();
    m.allocate_at_least(Some(10), None);
    m.allocate_at_most(None, Some(100));
    m.set_viewport(RawLine::new(RawPoint::new(0, 0), RawPoint::new(90, 500)));
    assert_eq!(m.map_area(), RawLine::new(RawPoint::new(0, 0), RawPoint::new(90, 500)));
    assert_eq!(m.reference().dist, 128);
}

#[test]
fn line_fade_thresholds() {
    let s = MapSettings::standard();
    assert_eq!(line_fade(200, &s), LineFade::Hidden);
    assert_eq!(line_fade(100, &s), LineFade::Hidden);
    assert_eq!(line_fade(600, &s), LineFade::Faded(128));
    assert_eq!(line_fade(201, &s), LineFade::Faded(0));
    assert_eq!(line_fade(999, &s), LineFade::Faded(255));
    assert_eq!(line_fade(996, &s), LineFade::Faded(254));
    assert_eq!(line_fade(1000, &s), LineFade::Full);
}

#[test]
fn label_visibility_rules() {
    let s = MapSettings::standard();
    assert!(shows_label(600, &s, 1, None));
    assert!(!shows_label(580, &s, 1, None));
    let h = wide_settings(VisibilitySetting::Hover);
    assert!(shows_label(100, &h, 4, Some(4)));
    assert!(!shows_label(2000, &h, 4, Some(5)));
    assert!(!shows_label(2000, &h, 0, None));
    let n = wide_settings(VisibilitySetting::Hidden);
    assert!(!shows_label(2000, &n, 4, Some(4)));
}

#[test]
fn geometry_helpers() {
    assert_eq!(isqrt(0), 0);
    assert_eq!(isqrt(1), 1);
    assert_eq!(isqrt(40_000), 200);
    assert_eq!(isqrt(39_999), 199);
    assert_eq!(isqrt(8_000_000_000_000_000_000_000_000), 2_828_427_124_746);
    let l = RawLine::new(RawPoint::new(0, 0), RawPoint::new(3, 4));
    assert_eq!(l.distance(), 5);
    assert_eq!(RawLine::new(RawPoint::new(-3, 1), RawPoint::new(0, 4)).midpoint(), RawPoint::new(-1, 2));
    assert_eq!(div_i64(-7, 2), -3);
    assert_eq!(div_i64(7, 2), 3);
    assert_eq!(RawPoint::new(2, -3).mul(4), RawPoint::new(8, -12));
    assert_eq!(RawPoint::new(9, -9).div(4), RawPoint::new(2, -2));
    assert_eq!(RawPoint::new(1, 2).add(RawPoint::new(3, 4)), RawPoint::new(4, 6));
    assert_eq!(RawPoint::new(1, 2).sub(RawPoint::new(3, 4)), RawPoint::new(-2, -2));
    assert_eq!(RawPoint::new(1, 2).squared_distance(RawPoint::new(4, 6)), 25);
}

#[test]
fn spatial_index_queries() {
    let idx = SpatialIndex::empty();
    assert_eq!(idx.nearest(RawPoint::new(0, 0)), None);
    assert!(idx.within(RawPoint::new(0, 0), 100).is_empty());
    let idx = SpatialIndex::build(vec![
        (1, RawPoint::new(0, 0)),
        (2, RawPoint::new(10, 0)),
        (3, RawPoint::new(0, 10)),
    ]);
    assert_eq!(idx.within(RawPoint::new(0, 0), 100), vec![1, 2, 3]);
    assert_eq!(idx.within(RawPoint::new(0, 0), 99), vec![1]);
    assert_eq!(idx.within(RawPoint::new(6, 0), 16), vec![2]);
    assert_eq!(idx.nearest(RawPoint::new(6, 1)), Some(2));
    assert_eq!(idx.nearest(RawPoint::new(5, 5)), Some(1));
    assert_eq!(idx.nearest(RawPoint::new(-4, -4)), Some(1));
}

#[test]
fn lookups_by_id() {
    let m = scenario(VisibilitySetting::Allways);
    assert_eq!(m.point(2).unwrap().raw_point, RawPoint::new(100, 0));
    assert!(m.point(9).is_none());
    assert!(m.line(&"e1".to_string()).is_some());
    assert!(m.line(&"e2".to_string()).is_none());
}

#[test]
fn new_engine_starts_empty() {
    let m = MapEngine::new();
    assert_eq!(m.get_zoom(), 1000);
    assert_eq!(m.settings(), MapSettings::standard());
    assert!(m.points().is_empty());
    assert!(m.labels().is_empty());
    assert!(m.lines().is_empty());
    assert!(m.visible_points().is_empty());
    assert!(m.visible_lines().is_empty());
    assert!(m.notifications().is_empty());
    assert!(m.markers().is_empty());
    assert_eq!(m.nearest_hover(), None);
    assert_eq!(m.reference().dist, 0);
    assert_eq!(m.current().pos, RawPoint::new(0, 0));
    assert_eq!(m.map_area(), RawLine::new(RawPoint::new(0, 0), RawPoint::new(0, 0)));
}
