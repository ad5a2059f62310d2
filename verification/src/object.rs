use vstd::prelude::*;
use crate::attrs::{bool_attr, colour_attr, find_attr, flag_attr, get_bool, get_colour, get_flag, get_num, get_text, get_u32, last_attr, num_attr, text_attr, u32_attr};
use crate::colour::Colour;
use crate::error::{malformed_err, GError, TiledError};
use crate::events::TreeEvent;
use crate::num::{num_of, num_one, num_zero, parse_num, Num};
use crate::properties::{parse_properties, props_map, spec_properties, Properties};
use crate::scan::{collect_children, scan_kids};
use crate::text::{seq_views, split_seq, split_str, str_eq};

verus! {

/// The geometry of an object: exactly one of four variants. An object tag
/// with no shape-defining child defaults to a rectangle of the object's own
/// width and height.
#[derive(Debug, Clone, PartialEq)]
pub enum ObjectShape {
    Rect { width: Num, height: Num },
    Ellipse { width: Num, height: Num },
    Polyline { points: Vec<(Num, Num)> },
    Polygon { points: Vec<(Num, Num)> },
}

/// The mirror of `ObjectShape`.
pub enum GShape {
    Rect { width: Num, height: Num },
    Ellipse { width: Num, height: Num },
    Polyline { points: Seq<(Num, Num)> },
    Polygon { points: Seq<(Num, Num)> },
}

impl View for ObjectShape {
    type V = GShape;

    open spec fn view(&self) -> GShape {
        match self {
            ObjectShape::Rect { width, height } => GShape::Rect {
                width: *width,
                height: *height,
            },
            ObjectShape::Ellipse { width, height } => GShape::Ellipse {
                width: *width,
                height: *height,
            },
            ObjectShape::Polyline { points } => GShape::Polyline { points: points@ },
            ObjectShape::Polygon { points } => GShape::Polygon { points: points@ },
        }
    }
}

pub open spec fn points_pair_msg() -> Seq<char> {
    "one of the points does not have an x and a y coordinate"@
}

pub open spec fn points_number_msg() -> Seq<char> {
    "one of the points does not have numeric coordinates"@
}

/// The points fold over the space-separated segments: each segment must
/// split at a comma into exactly two decimal numbers. The pairs keep the
/// order of the segments, and the first malformed segment fails the whole
/// decoding, so no partial list is ever returned.
pub open spec fn points_fold(segs: Seq<Seq<char>>) -> Result<Seq<(Num, Num)>, GError>
    decreases segs.len(),
{
    if segs.len() == 0 {
        Ok(Seq::<(Num, Num)>::empty())
    } else {
        let pair = split_seq(segs.first(), ',');
        if pair.len() != 2 {
            Err(GError::MalformedAttributes(points_pair_msg()))
        } else {
            match (num_of(pair[0]), num_of(pair[1])) {
                (Some(x), Some(y)) => match points_fold(segs.drop_first()) {
                    Ok(r) => Ok(seq![(x, y)] + r),
                    Err(e) => Err(e),
                },
                _ => Err(GError::MalformedAttributes(points_number_msg())),
            }
        }
    }
}

/// The point list denoted by a `points` attribute: pairs written `x,y`,
/// separated by spaces.
pub open spec fn spec_points(s: Seq<char>) -> Result<Seq<(Num, Num)>, GError> {
    points_fold(split_seq(s, ' '))
}

pub open spec fn polyline_msg() -> Seq<char> {
    "A polyline must have points"@
}

pub open spec fn polygon_msg() -> Seq<char> {
    "A polygon must have points"@
}

/// What a `polyline` child denotes: its required `points` attribute decoded.
pub open spec fn spec_polyline(attrs: Seq<(String, String)>) -> Result<GShape, GError> {
    match last_attr(attrs, "points"@) {
        None => Err(GError::MalformedAttributes(polyline_msg())),
        Some(v) => match spec_points(v) {
            Ok(pts) => Ok(GShape::Polyline { points: pts }),
            Err(e) => Err(e),
        },
    }
}

/// What a `polygon` child denotes: its required `points` attribute decoded.
pub open spec fn spec_polygon(attrs: Seq<(String, String)>) -> Result<GShape, GError> {
    match last_attr(attrs, "points"@) {
        None => Err(GError::MalformedAttributes(polygon_msg())),
        Some(v) => match spec_points(v) {
            Ok(pts) => Ok(GShape::Polygon { points: pts }),
            Err(e) => Err(e),
        },
    }
}

/// A freeform positioned annotation within an object group.
#[derive(Debug, Clone, PartialEq)]
pub struct Object {
    pub id: u32,
    pub gid: u32,
    pub name: String,
    pub obj_type: String,
    pub x: Num,
    pub y: Num,
    pub rotation: Num,
    pub visible: bool,
    pub shape: ObjectShape,
    pub properties: Properties,
}

/// The mirror of `Object`; the properties as the mapping they denote.
pub struct GObject {
    pub id: u32,
    pub gid: u32,
    pub name: Seq<char>,
    pub obj_type: Seq<char>,
    pub x: Num,
    pub y: Num,
    pub rotation: Num,
    pub visible: bool,
    pub shape: GShape,
    pub properties: Map<Seq<char>, Seq<char>>,
}

impl View for Object {
    type V = GObject;

    open spec fn view(&self) -> GObject {
        GObject {
            id: self.id,
            gid: self.gid,
            name: self.name@,
            obj_type: self.obj_type@,
            x: self.x,
            y: self.y,
            rotation: self.rotation,
            visible: self.visible,
            shape: self.shape@,
            properties: props_map(self.properties@),
        }
    }
}

/// The running state of the object fold: the shape seen so far, if any, and
/// the properties mapping.
pub struct GObState {
    pub shape: Option<GShape>,
    pub properties: Map<Seq<char>, Seq<char>>,
}

pub open spec fn object_msg() -> Seq<char> {
    "objects must have an x and a y number"@
}

pub open spec fn num_or_zero(v: Option<Num>) -> Num {
    match v {
        Some(n) => n,
        None => num_zero(),
    }
}

pub open spec fn text_or_empty(v: Option<Seq<char>>) -> Seq<char> {
    match v {
        Some(t) => t,
        None => Seq::<char>::empty(),
    }
}

pub open spec fn u32_or_zero(v: Option<u32>) -> u32 {
    match v {
        Some(n) => n,
        None => 0,
    }
}

pub open spec fn bool_or_true(v: Option<bool>) -> bool {
    match v {
        Some(b) => b,
        None => true,
    }
}

/// The object fold over the children, in document order: `ellipse`,
/// `polyline` and `polygon` each set the shape, a later one overwriting an
/// earlier one; `properties` replaces the mapping; anything else is ignored.
/// `w` and `h` are the object's own width and height, which an ellipse
/// carries, its tag having no dimensions of its own.
pub open spec fn ob_fold(
    events: Seq<TreeEvent>,
    kids: Seq<int>,
    st: GObState,
    w: Num,
    h: Num,
) -> Result<GObState, GError>
    decreases kids.len(),
{
    if kids.len() == 0 {
        Ok(st)
    } else {
        match events[kids.first()] {
            TreeEvent::Start { name, attrs } => if name@ == "ellipse"@ {
                ob_fold(
                    events,
                    kids.drop_first(),
                    GObState {
                        shape: Some(GShape::Ellipse { width: w, height: h }),
                        properties: st.properties,
                    },
                    w,
                    h,
                )
            } else if name@ == "polyline"@ {
                match spec_polyline(attrs@) {
                    Ok(sh) => ob_fold(
                        events,
                        kids.drop_first(),
                        GObState { shape: Some(sh), properties: st.properties },
                        w,
                        h,
                    ),
                    Err(e) => Err(e),
                }
            } else if name@ == "polygon"@ {
                match spec_polygon(attrs@) {
                    Ok(sh) => ob_fold(
                        events,
                        kids.drop_first(),
                        GObState { shape: Some(sh), properties: st.properties },
                        w,
                        h,
                    ),
                    Err(e) => Err(e),
                }
            } else if name@ == "properties"@ {
                match spec_properties(events, kids.first() + 1) {
                    Ok((m, _)) => ob_fold(
                        events,
                        kids.drop_first(),
                        GObState { shape: st.shape, properties: m },
                        w,
                        h,
                    ),
                    Err(e) => Err(e),
                }
            } else {
                ob_fold(events, kids.drop_first(), st, w, h)
            },
            _ => ob_fold(events, kids.drop_first(), st, w, h),
        }
    }
}

/// What an `object` element denotes. The `x` and `y` attributes are
/// required: without them, or with values that fail to coerce, the element
/// fails with the malformed-attributes error before any child is read. All
/// other attributes are optional with their documented defaults, the
/// children are folded as `ob_fold` describes, and a missing shape defaults
/// to the rectangle of the object's own width and height.
pub open spec fn spec_object(events: Seq<TreeEvent>, i: int, attrs: Seq<(String, String)>) -> Result<
    (GObject, int),
    GError,
> {
    match (num_attr(attrs, "x"@), num_attr(attrs, "y"@)) {
        (Some(x), Some(y)) => match scan_kids(events, i, "object"@) {
            Err(e) => Err(e),
            Ok((kids, end)) => match ob_fold(
                events,
                kids,
                GObState { shape: None, properties: Map::<Seq<char>, Seq<char>>::empty() },
                num_or_zero(num_attr(attrs, "width"@)),
                num_or_zero(num_attr(attrs, "height"@)),
            ) {
                Err(e) => Err(e),
                Ok(st) => Ok(
                    (
                        GObject {
                            id: u32_or_zero(u32_attr(attrs, "id"@)),
                            gid: u32_or_zero(u32_attr(attrs, "gid"@)),
                            name: text_or_empty(text_attr(attrs, "name"@)),
                            obj_type: text_or_empty(text_attr(attrs, "type"@)),
                            x: x,
                            y: y,
                            rotation: num_or_zero(num_attr(attrs, "rotation"@)),
                            visible: bool_or_true(bool_attr(attrs, "visible"@)),
                            shape: match st.shape {
                                Some(sh) => sh,
                                None => GShape::Rect {
                                    width: num_or_zero(num_attr(attrs, "width"@)),
                                    height: num_or_zero(num_attr(attrs, "height"@)),
                                },
                            },
                            properties: st.properties,
                        },
                        end,
                    ),
                ),
            },
        },
        _ => Err(GError::MalformedAttributes(object_msg())),
    }
}

pub open spec fn shape_opt_view(o: Option<ObjectShape>) -> Option<GShape> {
    match o {
        Some(s) => Some(s@),
        None => None,
    }
}

impl Object {
    /// Decodes a `points` attribute exactly as `spec_points` describes.
    #[verifier::loop_isolation(false)]
    pub fn parse_points(s: &str) -> (r: Result<Vec<(Num, Num)>, TiledError>)
        ensures
            match r {
                Ok(pts) => spec_points(s@) == Ok::<_, GError>(pts@),
                Err(e) => spec_points(s@) == Err::<Seq<(Num, Num)>, GError>(e@),
            },
    {
        let segs = split_str(s, ' ');
        let ghost gsegs = seq_views(segs@);
        let mut pts: Vec<(Num, Num)> = Vec::new();
        let mut t: usize = 0;
        proof {
            assert(gsegs.skip(0) =~= gsegs);
            assert(pts@ + points_fold(gsegs)->Ok_0 =~= points_fold(gsegs)->Ok_0);
        }
        while t < segs.len()
            invariant
                t <= segs@.len(),
                match points_fold(gsegs.skip(t as int)) {
                    Ok(rest) => points_fold(gsegs) == Ok::<Seq<(Num, Num)>, GError>(pts@ + rest),
                    Err(e) => points_fold(gsegs) == Err::<Seq<(Num, Num)>, GError>(e),
                },
            decreases segs@.len() - t,
        {
            proof {
                assert(gsegs.skip(t as int).first() == gsegs[t as int]);
                assert(gsegs[t as int] == segs@[t as int]@);
                assert(gsegs.skip(t as int).drop_first() =~= gsegs.skip(t as int + 1));
            }
            let pair = split_str(segs[t].as_str(), ',');
            proof {
                assert(seq_views(pair@).len() == pair@.len());
            }
            if pair.len() != 2 {
                return Err(malformed_err("one of the points does not have an x and a y coordinate"));
            }
            proof {
                assert(seq_views(pair@)[0] == pair@[0]@);
                assert(seq_views(pair@)[1] == pair@[1]@);
            }
            let x = parse_num(pair[0].as_str());
            let y = parse_num(pair[1].as_str());
            match (x, y) {
                (Some(xv), Some(yv)) => {
                    let ghost old_pts = pts@;
                    pts.push((xv, yv));
                    proof {
                        if let Ok(rest) = points_fold(gsegs.skip(t as int + 1)) {
                            assert(old_pts + (seq![(xv, yv)] + rest) =~= pts@ + rest);
                        }
                    }
                },
                _ => {
                    return Err(malformed_err("one of the points does not have numeric coordinates"));
                },
            }
            t += 1;
        }
        proof {
            assert(gsegs.skip(segs@.len() as int) =~= Seq::<Seq<char>>::empty());
            assert(pts@ + Seq::<(Num, Num)>::empty() =~= pts@);
        }
        Ok(pts)
    }

    /// Decodes a `polyline` child exactly as `spec_polyline` describes.
    pub fn new_polyline(attrs: &Vec<(String, String)>) -> (r: Result<ObjectShape, TiledError>)
        ensures
            match r {
                Ok(sh) => spec_polyline(attrs@) == Ok::<GShape, GError>(sh@),
                Err(e) => spec_polyline(attrs@) == Err::<GShape, GError>(e@),
            },
    {
        match find_attr(attrs, "points") {
            None => Err(malformed_err("A polyline must have points")),
            Some(v) => match Object::parse_points(v.as_str()) {
                Ok(pts) => Ok(ObjectShape::Polyline { points: pts }),
                Err(e) => Err(e),
            },
        }
    }

    /// Decodes a `polygon` child exactly as `spec_polygon` describes.
    pub fn new_polygon(attrs: &Vec<(String, String)>) -> (r: Result<ObjectShape, TiledError>)
        ensures
            match r {
                Ok(sh) => spec_polygon(attrs@) == Ok::<GShape, GError>(sh@),
                Err(e) => spec_polygon(attrs@) == Err::<GShape, GError>(e@),
            },
    {
        match find_attr(attrs, "points") {
            None => Err(malformed_err("A polygon must have points")),
            Some(v) => match Object::parse_points(v.as_str()) {
                Ok(pts) => Ok(ObjectShape::Polygon { points: pts }),
                Err(e) => Err(e),
            },
        }
    }

    /// Decodes an `object` element exactly as `spec_object` describes.
    #[verifier::loop_isolation(false)]
    pub fn new(events: &Vec<TreeEvent>, pos: usize, attrs: &Vec<(String, String)>) -> (r: Result<
        (Object, usize),
        TiledError,
    >)
        ensures
            match r {
                Ok((o, end)) => spec_object(events@, pos as int, attrs@) == Ok::<_, GError>(
                    (o@, end as int),
                ) && pos < end <= events@.len(),
                Err(e) => spec_object(events@, pos as int, attrs@) == Err::<
                    (GObject, int),
                    GError,
                >(e@),
            },
    {
        let x = match get_num(attrs, "x") {
            Some(v) => v,
            None => {
                return Err(malformed_err("objects must have an x and a y number"));
            },
        };
        let y = match get_num(attrs, "y") {
            Some(v) => v,
            None => {
                return Err(malformed_err("objects must have an x and a y number"));
            },
        };
        let id = match get_u32(attrs, "id") {
            Some(v) => v,
            None => 0,
        };
        let gid = match get_u32(attrs, "gid") {
            Some(v) => v,
            None => 0,
        };
        let name = match get_text(attrs, "name") {
            Some(v) => v,
            None => String::new(),
        };
        let obj_type = match get_text(attrs, "type") {
            Some(v) => v,
            None => String::new(),
        };
        let w = match get_num(attrs, "width") {
            Some(v) => v,
            None => Num { neg: false, mantissa: 0, scale: 0 },
        };
        let h = match get_num(attrs, "height") {
            Some(v) => v,
            None => Num { neg: false, mantissa: 0, scale: 0 },
        };
        let rotation = match get_num(attrs, "rotation") {
            Some(v) => v,
            None => Num { neg: false, mantissa: 0, scale: 0 },
        };
        let visible = match get_bool(attrs, "visible") {
            Some(v) => v,
            None => true,
        };
        let (kids, end) = match collect_children(events, pos, "object") {
            Ok(p) => p,
            Err(e) => {
                return Err(e);
            },
        };
        let ghost gkids = kids@.map_values(|u: usize| u as int);
        let mut shape: Option<ObjectShape> = None;
        let mut properties: Properties = Vec::new();
        let mut t: usize = 0;
        proof {
            assert(props_map(properties@) =~= Map::<Seq<char>, Seq<char>>::empty());
            assert(gkids.skip(0) =~= gkids);
        }
        while t < kids.len()
            invariant
                t <= kids@.len(),
                match ob_fold(
                    events@,
                    gkids.skip(t as int),
                    GObState { shape: shape_opt_view(shape), properties: props_map(properties@) },
                    w,
                    h,
                ) {
                    Ok(st) => ob_fold(
                        events@,
                        gkids,
                        GObState {
                            shape: None,
                            properties: Map::<Seq<char>, Seq<char>>::empty(),
                        },
                        w,
                        h,
                    ) == Ok::<GObState, GError>(st),
                    Err(e) => ob_fold(
                        events@,
                        gkids,
                        GObState {
                            shape: None,
                            properties: Map::<Seq<char>, Seq<char>>::empty(),
                        },
                        w,
                        h,
                    ) == Err::<GObState, GError>(e),
                },
            decreases kids@.len() - t,
        {
            let k = kids[t];
            proof {
                assert((kids@[t as int] as int) < events@.len());
                assert(gkids.skip(t as int).first() == gkids[t as int]);
                assert(gkids.skip(t as int).drop_first() =~= gkids.skip(t as int + 1));
            }
            match &events[k] {
                TreeEvent::Start { name: kid_name, attrs: kid_attrs } => {
                    if str_eq(kid_name.as_str(), "ellipse") {
                        shape = Some(ObjectShape::Ellipse { width: w, height: h });
                    } else if str_eq(kid_name.as_str(), "polyline") {
                        match Object::new_polyline(kid_attrs) {
                            Ok(sh) => {
                                shape = Some(sh);
                            },
                            Err(e) => {
                                return Err(e);
                            },
                        }
                    } else if str_eq(kid_name.as_str(), "polygon") {
                        match Object::new_polygon(kid_attrs) {
                            Ok(sh) => {
                                shape = Some(sh);
                            },
                            Err(e) => {
                                return Err(e);
                            },
                        }
                    } else if str_eq(kid_name.as_str(), "properties") {
                        let total = events.len();
                        proof {
                            assert(k < total);
                        }
                        match parse_properties(events, k + 1) {
                            Ok((p, _)) => {
                                properties = p;
                            },
                            Err(e) => {
                                return Err(e);
                            },
                        }
                    }
                },
                _ => {},
            }
            t += 1;
        }
        proof {
            assert(gkids.skip(kids@.len() as int) =~= Seq::<int>::empty());
        }
        let shape_final = match shape {
            Some(s) => s,
            None => ObjectShape::Rect { width: w, height: h },
        };
        Ok(
            (
                Object {
                    id,
                    gid,
                    name,
                    obj_type,
                    x,
                    y,
                    rotation,
                    visible,
                    shape: shape_final,
                    properties,
                },
                end,
            ),
        )
    }
}

/// An ordered, layer-like container of objects.
#[derive(Debug, Clone, PartialEq)]
pub struct ObjectGroup {
    pub name: String,
    pub opacity: Num,
    pub visible: bool,
    pub objects: Vec<Object>,
    pub colour: Option<Colour>,
}

/// The mirror of `ObjectGroup`.
pub struct GObjectGroup {
    pub name: Seq<char>,
    pub opacity: Num,
    pub visible: bool,
    pub objects: Seq<GObject>,
    pub colour: Option<Colour>,
}

/// The views of a sequence of objects.
pub open spec fn object_views(v: Seq<Object>) -> Seq<GObject> {
    v.map_values(|o: Object| o@)
}

impl View for ObjectGroup {
    type V = GObjectGroup;

    open spec fn view(&self) -> GObjectGroup {
        GObjectGroup {
            name: self.name@,
            opacity: self.opacity,
            visible: self.visible,
            objects: object_views(self.objects@),
            colour: self.colour,
        }
    }
}

/// The object-group fold: each `object` child appends its decoded object,
/// in document order; any other child is ignored.
pub open spec fn og_fold(events: Seq<TreeEvent>, kids: Seq<int>, acc: Seq<GObject>) -> Result<
    Seq<GObject>,
    GError,
>
    decreases kids.len(),
{
    if kids.len() == 0 {
        Ok(acc)
    } else {
        match events[kids.first()] {
            TreeEvent::Start { name, attrs } => if name@ == "object"@ {
                match spec_object(events, kids.first() + 1, attrs@) {
                    Ok((o, _)) => og_fold(events, kids.drop_first(), acc.push(o)),
                    Err(e) => Err(e),
                }
            } else {
                og_fold(events, kids.drop_first(), acc)
            },
            _ => og_fold(events, kids.drop_first(), acc),
        }
    }
}

/// What an `objectgroup` element denotes: every attribute optional with its
/// default (empty name, opacity one, visible, no colour), and the objects of
/// its `object` children in document order.
pub open spec fn spec_object_group(
    events: Seq<TreeEvent>,
    i: int,
    attrs: Seq<(String, String)>,
) -> Result<(GObjectGroup, int), GError> {
    match scan_kids(events, i, "objectgroup"@) {
        Err(e) => Err(e),
        Ok((kids, end)) => match og_fold(events, kids, Seq::<GObject>::empty()) {
            Err(e) => Err(e),
            Ok(objs) => Ok(
                (
                    GObjectGroup {
                        name: text_or_empty(text_attr(attrs, "name"@)),
                        opacity: match num_attr(attrs, "opacity"@) {
                            Some(v) => v,
                            None => num_one(),
                        },
                        visible: bool_or_true(flag_attr(attrs, "visible"@)),
                        objects: objs,
                        colour: colour_attr(attrs, "color"@),
                    },
                    end,
                ),
            ),
        },
    }
}

impl ObjectGroup {
    /// Decodes an `objectgroup` element exactly as `spec_object_group`
    /// describes.
    #[verifier::loop_isolation(false)]
    pub fn new(events: &Vec<TreeEvent>, pos: usize, attrs: &Vec<(String, String)>) -> (r: Result<
        (ObjectGroup, usize),
        TiledError,
    >)
        ensures
            match r {
                Ok((g, end)) => spec_object_group(events@, pos as int, attrs@) == Ok::<_, GError>(
                    (g@, end as int),
                ) && pos < end <= events@.len(),
                Err(e) => spec_object_group(events@, pos as int, attrs@) == Err::<
                    (GObjectGroup, int),
                    GError,
                >(e@),
            },
    {
        let name = match get_text(attrs, "name") {
            Some(v) => v,
            None => String::new(),
        };
        let opacity = match get_num(attrs, "opacity") {
            Some(v) => v,
            None => Num { neg: false, mantissa: 1, scale: 0 },
        };
        let visible = match get_flag(attrs, "visible") {
            Some(v) => v,
            None => true,
        };
        let colour = get_colour(attrs, "color");
        let (kids, end) = match collect_children(events, pos, "objectgroup") {
            Ok(p) => p,
            Err(e) => {
                return Err(e);
            },
        };
        let ghost gkids = kids@.map_values(|u: usize| u as int);
        let mut objects: Vec<Object> = Vec::new();
        let mut t: usize = 0;
        proof {
            assert(object_views(objects@) =~= Seq::<GObject>::empty());
            assert(gkids.skip(0) =~= gkids);
        }
        while t < kids.len()
            invariant
                t <= kids@.len(),
                match og_fold(events@, gkids.skip(t as int), object_views(objects@)) {
                    Ok(objs) => og_fold(events@, gkids, Seq::<GObject>::empty()) == Ok::<
                        Seq<GObject>,
                        GError,
                    >(objs),
                    Err(e) => og_fold(events@, gkids, Seq::<GObject>::empty()) == Err::<
                        Seq<GObject>,
                        GError,
                    >(e),
                },
            decreases kids@.len() - t,
        {
            let k = kids[t];
            proof {
                assert((kids@[t as int] as int) < events@.len());
                assert(gkids.skip(t as int).first() == gkids[t as int]);
                assert(gkids.skip(t as int).drop_first() =~= gkids.skip(t as int + 1));
            }
            match &events[k] {
                TreeEvent::Start { name: kid_name, attrs: kid_attrs } => {
                    if str_eq(kid_name.as_str(), "object") {
                        let total = events.len();
                        proof {
                            assert(k < total);
                        }
                        match Object::new(events, k + 1, kid_attrs) {
                            Ok((o, _)) => {
                                let ghost old_objects = objects@;
                                objects.push(o);
                                proof {
                                    assert(object_views(objects@) =~= object_views(
                                        old_objects,
                                    ).push(o@));
                                }
                            },
                            Err(e) => {
                                return Err(e);
                            },
                        }
                    }
                },
                _ => {},
            }
            t += 1;
        }
        proof {
            assert(gkids.skip(kids@.len() as int) =~= Seq::<int>::empty());
        }
        Ok((ObjectGroup { name, opacity, visible, objects, colour }, end))
    }
}

/// Whether the event at `k` is a start tag bearing one of the three
/// shape-defining names.
pub open spec fn is_shape_kid(events: Seq<TreeEvent>, k: int) -> bool {
    match events[k] {
        TreeEvent::Start { name, .. } => name@ == "ellipse"@ || name@ == "polyline"@ || name@
            == "polygon"@,
        _ => false,
    }
}

/// Whether the event at `k` is a start tag bearing any child name the
/// object decoder handles.
pub open spec fn is_object_kid(events: Seq<TreeEvent>, k: int) -> bool {
    match events[k] {
        TreeEvent::Start { name, .. } => name@ == "ellipse"@ || name@ == "polyline"@ || name@
            == "polygon"@ || name@ == "properties"@,
        _ => false,
    }
}

/// The object fold never touches the shape when no child bears a
/// shape-defining name.
pub proof fn lemma_ob_fold_keeps_shape(
    events: Seq<TreeEvent>,
    kids: Seq<int>,
    st: GObState,
    w: Num,
    h: Num,
)
    requires
        forall|t: int| 0 <= t < kids.len() ==> !is_shape_kid(events, #[trigger] kids[t]),
    ensures
        match ob_fold(events, kids, st, w, h) {
            Ok(st2) => st2.shape == st.shape,
            Err(_) => true,
        },
    decreases kids.len(),
{
    if kids.len() > 0 {
        let k = kids.first();
        assert(!is_shape_kid(events, kids[0]));
        assert(forall|t: int|
            0 <= t < kids.drop_first().len() ==> kids.drop_first()[t] == kids[t + 1]);
        match events[k] {
            TreeEvent::Start { name, attrs } => {
                if name@ == "properties"@ {
                    match spec_properties(events, k + 1) {
                        Ok((m, _)) => {
                            lemma_ob_fold_keeps_shape(
                                events,
                                kids.drop_first(),
                                GObState { shape: st.shape, properties: m },
                                w,
                                h,
                            );
                        },
                        Err(_) => {},
                    }
                } else {
                    lemma_ob_fold_keeps_shape(events, kids.drop_first(), st, w, h);
                }
            },
            _ => {
                lemma_ob_fold_keeps_shape(events, kids.drop_first(), st, w, h);
            },
        }
    }
}

/// A valid object tag with no shape-defining child decodes to the default
/// rectangle of the object's own declared width and height, zero when
/// absent.
pub proof fn lemma_object_defaults_to_rect(
    events: Seq<TreeEvent>,
    i: int,
    attrs: Seq<(String, String)>,
    kids: Seq<int>,
    end: int,
    o: GObject,
    j: int,
)
    requires
        scan_kids(events, i, "object"@) == Ok::<(Seq<int>, int), GError>((kids, end)),
        forall|t: int| 0 <= t < kids.len() ==> !is_shape_kid(events, #[trigger] kids[t]),
        spec_object(events, i, attrs) == Ok::<(GObject, int), GError>((o, j)),
    ensures
        o.shape == (GShape::Rect {
            width: num_or_zero(num_attr(attrs, "width"@)),
            height: num_or_zero(num_attr(attrs, "height"@)),
        }),
{
    lemma_ob_fold_keeps_shape(
        events,
        kids,
        GObState { shape: None, properties: Map::<Seq<char>, Seq<char>>::empty() },
        num_or_zero(num_attr(attrs, "width"@)),
        num_or_zero(num_attr(attrs, "height"@)),
    );
}

/// An object tag without usable `x` and `y` attributes always fails with
/// the malformed-attributes error, whatever else the tag or its subtree
/// holds: no partial object is ever returned.
pub proof fn lemma_object_requires_position(
    events: Seq<TreeEvent>,
    i: int,
    attrs: Seq<(String, String)>,
)
    requires
        num_attr(attrs, "x"@) is None || num_attr(attrs, "y"@) is None,
    ensures
        spec_object(events, i, attrs) == Err::<(GObject, int), GError>(
            GError::MalformedAttributes(object_msg()),
        ),
{
}

/// A well-formed points list — every space-separated segment two
/// comma-separated decimal numbers — folds to exactly one pair per
/// segment, in segment order.
pub proof fn lemma_points_fold_ok(segs: Seq<Seq<char>>)
    requires
        forall|t: int|
            0 <= t < segs.len() ==> (split_seq(#[trigger] segs[t], ',').len() == 2 && num_of(
                split_seq(segs[t], ',')[0],
            ) is Some && num_of(split_seq(segs[t], ',')[1]) is Some),
    ensures
        points_fold(segs) is Ok,
        points_fold(segs)->Ok_0.len() == segs.len(),
        forall|t: int|
            0 <= t < segs.len() ==> (num_of(split_seq(#[trigger] segs[t], ',')[0]) == Some(
                points_fold(segs)->Ok_0[t].0,
            ) && num_of(split_seq(segs[t], ',')[1]) == Some(points_fold(segs)->Ok_0[t].1)),
    decreases segs.len(),
{
    if segs.len() > 0 {
        assert(forall|t: int|
            0 <= t < segs.drop_first().len() ==> segs.drop_first()[t] == segs[t + 1]);
        lemma_points_fold_ok(segs.drop_first());
        assert(segs[0] == segs.first());
        let pair = split_seq(segs.first(), ',');
        match (num_of(pair[0]), num_of(pair[1])) {
            (Some(x), Some(y)) => {
                let rest = points_fold(segs.drop_first())->Ok_0;
                let pts = points_fold(segs)->Ok_0;
                assert(pts =~= seq![(x, y)] + rest);
                assert forall|t: int| 0 <= t < segs.len() implies (num_of(
                    split_seq(#[trigger] segs[t], ',')[0],
                ) == Some(pts[t].0) && num_of(split_seq(segs[t], ',')[1]) == Some(pts[t].1)) by {
                    if t > 0 {
                        assert(segs.drop_first()[t - 1] == segs[t]);
                        assert(pts[t] == rest[t - 1]);
                    }
                }
            },
            _ => {},
        }
    }
}

/// Any malformed segment — wrong comma count or a non-numeric component —
/// fails the whole fold: no partial point list is returned.
pub proof fn lemma_points_fold_bad(segs: Seq<Seq<char>>, t: int)
    requires
        0 <= t < segs.len(),
        split_seq(segs[t], ',').len() != 2 || num_of(split_seq(segs[t], ',')[0]) is None || num_of(
            split_seq(segs[t], ',')[1],
        ) is None,
    ensures
        points_fold(segs) is Err,
    decreases segs.len(),
{
    let pair = split_seq(segs.first(), ',');
    if pair.len() == 2 {
        match (num_of(pair[0]), num_of(pair[1])) {
            (Some(_), Some(_)) => {
                assert(segs[0] == segs.first());
                assert(t != 0);
                assert(forall|q: int|
                    0 <= q < segs.drop_first().len() ==> segs.drop_first()[q] == segs[q + 1]);
                lemma_points_fold_bad(segs.drop_first(), t - 1);
            },
            _ => {},
        }
    }
}

/// Every well-formed `points` string of pairs `x,y` separated by spaces
/// decodes with order and count preserved exactly.
pub proof fn lemma_points_well_formed(s: Seq<char>)
    requires
        forall|t: int|
            0 <= t < split_seq(s, ' ').len() ==> (split_seq(
                #[trigger] split_seq(s, ' ')[t],
                ',',
            ).len() == 2 && num_of(split_seq(split_seq(s, ' ')[t], ',')[0]) is Some && num_of(
                split_seq(split_seq(s, ' ')[t], ',')[1],
            ) is Some),
    ensures
        spec_points(s) is Ok,
        spec_points(s)->Ok_0.len() == split_seq(s, ' ').len(),
        forall|t: int|
            0 <= t < split_seq(s, ' ').len() ==> (num_of(
                split_seq(#[trigger] split_seq(s, ' ')[t], ',')[0],
            ) == Some(spec_points(s)->Ok_0[t].0) && num_of(
                split_seq(split_seq(s, ' ')[t], ',')[1],
            ) == Some(spec_points(s)->Ok_0[t].1)),
{
    lemma_points_fold_ok(split_seq(s, ' '));
}

/// A `points` string with any malformed segment fails to decode, with no
/// partial list returned.
pub proof fn lemma_points_malformed(s: Seq<char>, t: int)
    requires
        0 <= t < split_seq(s, ' ').len(),
        split_seq(split_seq(s, ' ')[t], ',').len() != 2 || num_of(
            split_seq(split_seq(s, ' ')[t], ',')[0],
        ) is None || num_of(split_seq(split_seq(s, ' ')[t], ',')[1]) is None,
    ensures
        spec_points(s) is Err,
{
    lemma_points_fold_bad(split_seq(s, ' '), t);
}

/// Inserting a child with an unrecognised tag anywhere among an object's
/// children leaves the fold unchanged: an unknown tag is skipped whole and
/// the well-formed siblings after it are still decoded exactly as before.
pub proof fn lemma_ob_fold_ignores_unknown(
    events: Seq<TreeEvent>,
    kids: Seq<int>,
    p: int,
    k: int,
    st: GObState,
    w: Num,
    h: Num,
)
    requires
        0 <= p <= kids.len(),
        !is_object_kid(events, k),
    ensures
        ob_fold(events, kids.insert(p, k), st, w, h) == ob_fold(events, kids, st, w, h),
    decreases kids.len(),
{
    let ins = kids.insert(p, k);
    if p == 0 {
        assert(ins.first() == k);
        assert(ins.drop_first() =~= kids);
    } else {
        assert(ins.first() == kids.first());
        assert(ins.drop_first() =~= kids.drop_first().insert(p - 1, k));
        match events[kids.first()] {
            TreeEvent::Start { name, attrs } => {
                if name@ == "ellipse"@ {
                    lemma_ob_fold_ignores_unknown(
                        events,
                        kids.drop_first(),
                        p - 1,
                        k,
                        GObState {
                            shape: Some(GShape::Ellipse { width: w, height: h }),
                            properties: st.properties,
                        },
                        w,
                        h,
                    );
                } else if name@ == "polyline"@ {
                    match spec_polyline(attrs@) {
                        Ok(sh) => {
                            lemma_ob_fold_ignores_unknown(
                                events,
                                kids.drop_first(),
                                p - 1,
                                k,
                                GObState { shape: Some(sh), properties: st.properties },
                                w,
                                h,
                            );
                        },
                        Err(_) => {},
                    }
                } else if name@ == "polygon"@ {
                    match spec_polygon(attrs@) {
                        Ok(sh) => {
                            lemma_ob_fold_ignores_unknown(
                                events,
                                kids.drop_first(),
                                p - 1,
                                k,
                                GObState { shape: Some(sh), properties: st.properties },
                                w,
                                h,
                            );
                        },
                        Err(_) => {},
                    }
                } else if name@ == "properties"@ {
                    match spec_properties(events, kids.first() + 1) {
                        Ok((m, _)) => {
                            lemma_ob_fold_ignores_unknown(
                                events,
                                kids.drop_first(),
                                p - 1,
                                k,
                                GObState { shape: st.shape, properties: m },
                                w,
                                h,
                            );
                        },
                        Err(_) => {},
                    }
                } else {
                    lemma_ob_fold_ignores_unknown(events, kids.drop_first(), p - 1, k, st, w, h);
                }
            },
            _ => {
                lemma_ob_fold_ignores_unknown(events, kids.drop_first(), p - 1, k, st, w, h);
            },
        }
    }
}

/// The same for an object group: a child that is not an `object` start tag,
/// inserted anywhere, leaves the collected objects unchanged.
pub proof fn lemma_og_fold_ignores_unknown(
    events: Seq<TreeEvent>,
    kids: Seq<int>,
    p: int,
    k: int,
    acc: Seq<GObject>,
)
    requires
        0 <= p <= kids.len(),
        !(events[k] matches TreeEvent::Start { name, .. } && name@ == "object"@),
    ensures
        og_fold(events, kids.insert(p, k), acc) == og_fold(events, kids, acc),
    decreases kids.len(),
{
    let ins = kids.insert(p, k);
    if p == 0 {
        assert(ins.first() == k);
        assert(ins.drop_first() =~= kids);
    } else {
        assert(ins.first() == kids.first());
        assert(ins.drop_first() =~= kids.drop_first().insert(p - 1, k));
        match events[kids.first()] {
            TreeEvent::Start { name, attrs } => {
                if name@ == "object"@ {
                    match spec_object(events, kids.first() + 1, attrs@) {
                        Ok((o, _)) => {
                            lemma_og_fold_ignores_unknown(
                                events,
                                kids.drop_first(),
                                p - 1,
                                k,
                                acc.push(o),
                            );
                        },
                        Err(_) => {},
                    }
                } else {
                    lemma_og_fold_ignores_unknown(events, kids.drop_first(), p - 1, k, acc);
                }
            },
            _ => {
                lemma_og_fold_ignores_unknown(events, kids.drop_first(), p - 1, k, acc);
            },
        }
    }
}

} // verus!
