use tiled::colour::Colour;
use tiled::error::TiledError;
use tiled::events::{read_events, TreeEvent};
use tiled::num::Num;
use tiled::object::{Object, ObjectGroup, ObjectShape};
use tiled::tileset::{Tileset, TilesetDecl};

fn events_of(xml: &str) -> Vec<TreeEvent> {
    read_events(xml.as_bytes().to_vec())
}

/// The position just after the first start tag, with that tag's attributes.
fn first_start(events: &Vec<TreeEvent>) -> (usize, Vec<(String, String)>) {
    let mut i = 0;
    while i < events.len() {
        if let TreeEvent::Start { attrs, .. } = &events[i] {
            return (i + 1, attrs.clone());
        }
        i += 1;
    }
    panic!("no start tag in document");
}

fn n(m: u64) -> Num {
    Num { neg: false, mantissa: m, scale: 0 }
}

fn nf(m: u64, s: u64) -> Num {
    Num { neg: false, mantissa: m, scale: s }
}

#[test]
fn object_with_polygon() {
    let events = events_of(r#"<object x="10" y="20"><polygon points="0,0 10,0 10,10"/></object>"#);
    let (pos, attrs) = first_start(&events);
    let (o, _) = Object::new(&events, pos, &attrs).unwrap();
    assert_eq!(o.x, n(10));
    assert_eq!(o.y, n(20));
    assert_eq!(o.id, 0);
    assert_eq!(o.gid, 0);
    assert_eq!(o.name, "");
    assert_eq!(o.obj_type, "");
    assert_eq!(o.rotation, n(0));
    assert!(o.visible);
    assert!(o.properties.is_empty());
    assert_eq!(
        o.shape,
        ObjectShape::Polygon { points: vec![(n(0), n(0)), (n(10), n(0)), (n(10), n(10))] }
    );
}

#[test]
fn object_defaults_to_rect() {
    let events = events_of(r#"<object x="1" y="2" width="5.5" height="3"/>"#);
    let (pos, attrs) = first_start(&events);
    let (o, _) = Object::new(&events, pos, &attrs).unwrap();
    assert_eq!(o.shape, ObjectShape::Rect { width: nf(55, 1), height: n(3) });
}

#[test]
fn object_rect_dimensions_default_to_zero() {
    let events = events_of(r#"<object x="1" y="2"/>"#);
    let (pos, attrs) = first_start(&events);
    let (o, _) = Object::new(&events, pos, &attrs).unwrap();
    assert_eq!(o.shape, ObjectShape::Rect { width: n(0), height: n(0) });
}

#[test]
fn object_ellipse_uses_object_dimensions() {
    let events = events_of(r#"<object x="1" y="2" width="8" height="4"><ellipse/></object>"#);
    let (pos, attrs) = first_start(&events);
    let (o, _) = Object::new(&events, pos, &attrs).unwrap();
    assert_eq!(o.shape, ObjectShape::Ellipse { width: n(8), height: n(4) });
}

#[test]
fn object_without_position_fails() {
    let events = events_of(r#"<object y="5" name="thing"/>"#);
    let (pos, attrs) = first_start(&events);
    let r = Object::new(&events, pos, &attrs);
    assert_eq!(
        r,
        Err(TiledError::MalformedAttributes("objects must have an x and a y number".to_string()))
    );
}

#[test]
fn object_with_bad_position_fails() {
    let events = events_of(r#"<object x="abc" y="5"/>"#);
    let (pos, attrs) = first_start(&events);
    let r = Object::new(&events, pos, &attrs);
    assert_eq!(
        r,
        Err(TiledError::MalformedAttributes("objects must have an x and a y number".to_string()))
    );
}

#[test]
fn points_decode_in_order() {
    let pts = Object::parse_points("1,2 3,4 5.5,-6").unwrap();
    assert_eq!(
        pts,
        vec![
            (n(1), n(2)),
            (n(3), n(4)),
            (nf(55, 1), Num { neg: true, mantissa: 6, scale: 0 }),
        ]
    );
}

#[test]
fn points_with_missing_coordinate_fail() {
    let r = Object::parse_points("1,2 3");
    assert_eq!(
        r,
        Err(TiledError::MalformedAttributes(
            "one of the points does not have an x and a y coordinate".to_string()
        ))
    );
}

#[test]
fn points_with_extra_coordinate_fail() {
    let r = Object::parse_points("1,2,3");
    assert_eq!(
        r,
        Err(TiledError::MalformedAttributes(
            "one of the points does not have an x and a y coordinate".to_string()
        ))
    );
}

#[test]
fn points_with_non_numeric_coordinate_fail() {
    let r = Object::parse_points("1,2 3,x");
    assert_eq!(
        r,
        Err(TiledError::MalformedAttributes(
            "one of the points does not have numeric coordinates".to_string()
        ))
    );
}

#[test]
fn polyline_requires_points() {
    let attrs: Vec<(String, String)> = Vec::new();
    let r = Object::new_polyline(&attrs);
    assert_eq!(r, Err(TiledError::MalformedAttributes("A polyline must have points".to_string())));
}

#[test]
fn unknown_child_does_not_corrupt_siblings() {
    let xml = r#"<objectgroup>
        <mystery><object x="9" y="9"/><whatever/></mystery>
        <object x="1" y="2"/>
    </objectgroup>"#;
    let events = events_of(xml);
    let (pos, attrs) = first_start(&events);
    let (g, _) = ObjectGroup::new(&events, pos, &attrs).unwrap();
    assert_eq!(g.objects.len(), 1);
    assert_eq!(g.objects[0].x, n(1));
    assert_eq!(g.objects[0].y, n(2));
}

#[test]
fn unknown_child_before_shape_is_skipped() {
    let xml = r#"<object x="1" y="2" width="4" height="4"><mystery/><ellipse/></object>"#;
    let events = events_of(xml);
    let (pos, attrs) = first_start(&events);
    let (o, _) = Object::new(&events, pos, &attrs).unwrap();
    assert_eq!(o.shape, ObjectShape::Ellipse { width: n(4), height: n(4) });
}

#[test]
fn last_shape_child_wins() {
    let xml = r#"<object x="1" y="2"><ellipse/><polyline points="0,0 1,1"/></object>"#;
    let events = events_of(xml);
    let (pos, attrs) = first_start(&events);
    let (o, _) = Object::new(&events, pos, &attrs).unwrap();
    assert_eq!(o.shape, ObjectShape::Polyline { points: vec![(n(0), n(0)), (n(1), n(1))] });
}

#[test]
fn object_group_attributes_and_defaults() {
    let xml = r##"<objectgroup name="grp" opacity="0.5" visible="1" color="#ff00aa">
        <object x="3" y="4"/>
    </objectgroup>"##;
    let events = events_of(xml);
    let (pos, attrs) = first_start(&events);
    let (g, _) = ObjectGroup::new(&events, pos, &attrs).unwrap();
    assert_eq!(g.name, "grp");
    assert_eq!(g.opacity, nf(5, 1));
    assert!(g.visible);
    assert_eq!(g.colour, Some(Colour { red: 255, green: 0, blue: 170 }));
    assert_eq!(g.objects.len(), 1);

    let events2 = events_of(r#"<objectgroup/>"#);
    let (pos2, attrs2) = first_start(&events2);
    let (g2, _) = ObjectGroup::new(&events2, pos2, &attrs2).unwrap();
    assert_eq!(g2.name, "");
    assert_eq!(g2.opacity, n(1));
    assert!(g2.visible);
    assert_eq!(g2.colour, None);
    assert!(g2.objects.is_empty());
}

#[test]
fn object_properties_are_collected_in_order() {
    let xml = r#"<object x="1" y="2"><properties>
        <property name="a" value="b"/>
        <property name="a" value="c"/>
        <property name="k" value="v"/>
    </properties></object>"#;
    let events = events_of(xml);
    let (pos, attrs) = first_start(&events);
    let (o, _) = Object::new(&events, pos, &attrs).unwrap();
    assert_eq!(
        o.properties,
        vec![
            ("a".to_string(), "b".to_string()),
            ("a".to_string(), "c".to_string()),
            ("k".to_string(), "v".to_string()),
        ]
    );
}

#[test]
fn premature_end_names_the_open_tag() {
    let attrs: Vec<(String, String)> = vec![("x".to_string(), "1".to_string()), (
        "y".to_string(),
        "2".to_string(),
    )];
    let events = vec![
        TreeEvent::Start { name: "object".to_string(), attrs: attrs.clone() },
        TreeEvent::DocEnd,
    ];
    let r = Object::new(&events, 1, &attrs);
    assert_eq!(
        r,
        Err(TiledError::PrematureEnd(
            "premature end of document before the closing tag of object".to_string()
        ))
    );
}

#[test]
fn truncated_document_is_a_decoding_error() {
    let events = events_of(r#"<object x="1" y="2">"#);
    let (pos, attrs) = first_start(&events);
    match Object::new(&events, pos, &attrs) {
        Err(TiledError::DecodingError(_)) => {},
        other => panic!("expected a decoding error, got {:?}", other),
    }
}

#[test]
fn tileset_embedded_succeeds_without_filesystem() {
    let xml = r#"<tileset firstgid="1" name="ts" tilewidth="16" tileheight="16"/>"#;
    let events = events_of(xml);
    let (pos, attrs) = first_start(&events);
    let d = Tileset::new_decision(&events, pos, &attrs, None).unwrap();
    match d {
        TilesetDecl::Embedded(ts) => {
            assert_eq!(ts.first_gid, 1);
            assert_eq!(ts.name, "ts");
            assert_eq!(ts.tile_width, 16);
            assert_eq!(ts.tile_height, 16);
            assert_eq!(ts.spacing, 0);
            assert_eq!(ts.margin, 0);
            assert!(ts.images.is_empty());
            assert!(ts.tiles.is_empty());
        },
        other => panic!("expected an embedded tileset, got {:?}", other),
    }
}

#[test]
fn tileset_children_are_decoded() {
    let xml = r#"<tileset firstgid="2" name="ts" tilewidth="8" tileheight="8" spacing="1" margin="3">
        <image source="a.png" width="16" height="32" trans="ff0000"/>
        <tile id="3"><image source="b.png" width="8" height="8"/></tile>
    </tileset>"#;
    let events = events_of(xml);
    let (pos, attrs) = first_start(&events);
    let (ts, _) = Tileset::new_internal(&events, pos, &attrs).unwrap();
    assert_eq!(ts.spacing, 1);
    assert_eq!(ts.margin, 3);
    assert_eq!(ts.images.len(), 1);
    assert_eq!(ts.images[0].source, "a.png");
    assert_eq!(ts.images[0].width, 16);
    assert_eq!(ts.images[0].height, 32);
    assert_eq!(ts.images[0].transparent_colour, Some(Colour { red: 255, green: 0, blue: 0 }));
    assert_eq!(ts.tiles.len(), 1);
    assert_eq!(ts.tiles[0].id, 3);
    assert_eq!(ts.tiles[0].images.len(), 1);
    assert_eq!(ts.tiles[0].images[0].source, "b.png");
}

#[test]
fn tileset_reference_resolves_beside_the_map() {
    let xml = r#"<tileset firstgid="7" source="ts.tsx"/>"#;
    let events = events_of(xml);
    let (pos, attrs) = first_start(&events);
    let d = Tileset::new_decision(&events, pos, &attrs, Some("dir/map.tmx")).unwrap();
    match d {
        TilesetDecl::External { first_gid, source, path } => {
            assert_eq!(first_gid, 7);
            assert_eq!(source, "ts.tsx");
            assert_eq!(path, "dir/ts.tsx");
        },
        other => panic!("expected an external reference, got {:?}", other),
    }
}

#[test]
fn tileset_reference_without_map_path_fails() {
    let xml = r#"<tileset firstgid="7" source="ts.tsx"/>"#;
    let events = events_of(xml);
    let (pos, attrs) = first_start(&events);
    let r = Tileset::new_decision(&events, pos, &attrs, None);
    assert_eq!(
        r,
        Err(TiledError::Other(
            "Maps with external tilesets must know their file location.  See parse_with_path(Path)."
                .to_string()
        ))
    );
}

#[test]
fn external_document_keeps_injected_first_gid() {
    let xml = r#"<?xml version="1.0"?><tileset name="ext" tilewidth="8" tileheight="4"/>"#;
    let events = events_of(xml);
    let ts = Tileset::new_external(&events, 7).unwrap();
    assert_eq!(ts.first_gid, 7);
    assert_eq!(ts.name, "ext");
    assert_eq!(ts.tile_width, 8);
    assert_eq!(ts.tile_height, 4);
}

#[test]
fn external_document_without_tileset_tag_fails() {
    let xml = r#"<?xml version="1.0"?><other/>"#;
    let events = events_of(xml);
    let r = Tileset::new_external(&events, 7);
    assert_eq!(
        r,
        Err(TiledError::PrematureEnd("Tileset Document ended before map was parsed".to_string()))
    );
}

#[test]
fn tileset_embedded_wins_over_reference() {
    let xml = r#"<tileset firstgid="1" name="ts" tilewidth="16" tileheight="16" source="ts.tsx"/>"#;
    let events = events_of(xml);
    let (pos, attrs) = first_start(&events);
    let d = Tileset::new_decision(&events, pos, &attrs, Some("dir/map.tmx")).unwrap();
    assert!(matches!(d, TilesetDecl::Embedded(_)));
}

#[test]
fn tileset_with_neither_schema_reports_the_reference_error() {
    let xml = r#"<tileset firstgid="1" name="ts"/>"#;
    let events = events_of(xml);
    let (pos, attrs) = first_start(&events);
    let r = Tileset::new_decision(&events, pos, &attrs, Some("dir/map.tmx"));
    assert_eq!(
        r,
        Err(TiledError::MalformedAttributes(
            "tileset must have a firstgid, name tile width and height with correct types"
                .to_string()
        ))
    );
}

#[test]
fn numeric_attributes_decode_signs_and_fractions() {
    let events = events_of(r#"<object x="-2.5" y=".5" rotation="+3." id="+7" gid="4294967296"/>"#);
    let (pos, attrs) = first_start(&events);
    let (o, _) = Object::new(&events, pos, &attrs).unwrap();
    assert_eq!(o.x, Num { neg: true, mantissa: 25, scale: 1 });
    assert_eq!(o.y, nf(5, 1));
    assert_eq!(o.rotation, n(3));
    assert_eq!(o.id, 7);
    // A gid too large for its type fails coercion, and an optional
    // attribute that fails coercion silently falls back to its default.
    assert_eq!(o.gid, 0);
}

#[test]
fn attribute_repeated_takes_the_last_occurrence() {
    let attrs = vec![
        ("x".to_string(), "1".to_string()),
        ("y".to_string(), "2".to_string()),
        ("x".to_string(), "9".to_string()),
    ];
    let events = vec![
        TreeEvent::Start { name: "object".to_string(), attrs: attrs.clone() },
        TreeEvent::End { name: "object".to_string() },
        TreeEvent::DocEnd,
    ];
    let (o, _) = Object::new(&events, 1, &attrs).unwrap();
    assert_eq!(o.x, n(9));
}

#[test]
fn empty_points_string_fails() {
    let r = Object::parse_points("");
    assert_eq!(
        r,
        Err(TiledError::MalformedAttributes(
            "one of the points does not have an x and a y coordinate".to_string()
        ))
    );
}

#[test]
fn largest_id_still_decodes() {
    let events = events_of(r#"<object x="0" y="0" id="4294967295"/>"#);
    let (pos, attrs) = first_start(&events);
    let (o, _) = Object::new(&events, pos, &attrs).unwrap();
    assert_eq!(o.id, u32::MAX);
}

#[test]
fn coordinate_overflowing_the_mantissa_fails() {
    let events = events_of(r#"<object x="18446744073709551616" y="0"/>"#);
    let (pos, attrs) = first_start(&events);
    let r = Object::new(&events, pos, &attrs);
    assert_eq!(
        r,
        Err(TiledError::MalformedAttributes("objects must have an x and a y number".to_string()))
    );
}
