use vstd::prelude::*;
use vstd::string::StringExecFns;
use crate::attrs::{get_text, get_u32, text_attr, u32_attr};
use crate::error::{malformed_err, other_err, GError, TiledError};
use crate::events::TreeEvent;
use crate::image::{image_views, spec_image, spec_tile, tile_views, GImage, GTile, Image, Tile};
use crate::object::u32_or_zero;
use crate::scan::{collect_children, scan_kids};
use crate::text::str_eq;

verus! {

/// A named collection of tile images, addressed by a global tile-id range
/// starting at `first_gid`.
#[derive(Debug, Clone, PartialEq)]
pub struct Tileset {
    pub first_gid: u32,
    pub name: String,
    pub tile_width: u32,
    pub tile_height: u32,
    pub spacing: u32,
    pub margin: u32,
    pub images: Vec<Image>,
    pub tiles: Vec<Tile>,
}

/// The mirror of `Tileset`.
pub struct GTileset {
    pub first_gid: u32,
    pub name: Seq<char>,
    pub tile_width: u32,
    pub tile_height: u32,
    pub spacing: u32,
    pub margin: u32,
    pub images: Seq<GImage>,
    pub tiles: Seq<GTile>,
}

impl View for Tileset {
    type V = GTileset;

    open spec fn view(&self) -> GTileset {
        GTileset {
            first_gid: self.first_gid,
            name: self.name@,
            tile_width: self.tile_width,
            tile_height: self.tile_height,
            spacing: self.spacing,
            margin: self.margin,
            images: image_views(self.images@),
            tiles: tile_views(self.tiles@),
        }
    }
}

pub open spec fn tileset_msg() -> Seq<char> {
    "tileset must have a firstgid, name tile width and height with correct types"@
}

pub open spec fn location_msg() -> Seq<char> {
    "Maps with external tilesets must know their file location.  See parse_with_path(Path)."@
}

pub open spec fn external_end_msg() -> Seq<char> {
    "Tileset Document ended before map was parsed"@
}

/// The running collections of the tileset fold.
pub struct GTsAcc {
    pub images: Seq<GImage>,
    pub tiles: Seq<GTile>,
}

/// The tileset fold over the children, in document order: `image` children
/// append images, `tile` children append tiles, anything else is ignored.
pub open spec fn ts_fold(events: Seq<TreeEvent>, kids: Seq<int>, acc: GTsAcc) -> Result<
    GTsAcc,
    GError,
>
    decreases kids.len(),
{
    if kids.len() == 0 {
        Ok(acc)
    } else {
        match events[kids.first()] {
            TreeEvent::Start { name, attrs } => if name@ == "image"@ {
                match spec_image(events, kids.first() + 1, attrs@) {
                    Ok((im, _)) => ts_fold(
                        events,
                        kids.drop_first(),
                        GTsAcc { images: acc.images.push(im), tiles: acc.tiles },
                    ),
                    Err(e) => Err(e),
                }
            } else if name@ == "tile"@ {
                match spec_tile(events, kids.first() + 1, attrs@) {
                    Ok((tl, _)) => ts_fold(
                        events,
                        kids.drop_first(),
                        GTsAcc { images: acc.images, tiles: acc.tiles.push(tl) },
                    ),
                    Err(e) => Err(e),
                }
            } else {
                ts_fold(events, kids.drop_first(), acc)
            },
            _ => ts_fold(events, kids.drop_first(), acc),
        }
    }
}

/// What an embedded `tileset` element denotes: required `firstgid`, `name`,
/// `tilewidth` and `tileheight`, optional `spacing` and `margin` defaulting
/// to zero, and the images and tiles of its children in document order.
pub open spec fn spec_tileset_internal(
    events: Seq<TreeEvent>,
    i: int,
    attrs: Seq<(String, String)>,
) -> Result<(GTileset, int), GError> {
    match (
        u32_attr(attrs, "firstgid"@),
        text_attr(attrs, "name"@),
        u32_attr(attrs, "tilewidth"@),
        u32_attr(attrs, "tileheight"@),
    ) {
        (Some(fg), Some(name), Some(tw), Some(th)) => match scan_kids(events, i, "tileset"@) {
            Err(e) => Err(e),
            Ok((kids, end)) => match ts_fold(
                events,
                kids,
                GTsAcc { images: Seq::<GImage>::empty(), tiles: Seq::<GTile>::empty() },
            ) {
                Err(e) => Err(e),
                Ok(acc) => Ok(
                    (
                        GTileset {
                            first_gid: fg,
                            name: name,
                            tile_width: tw,
                            tile_height: th,
                            spacing: u32_or_zero(u32_attr(attrs, "spacing"@)),
                            margin: u32_or_zero(u32_attr(attrs, "margin"@)),
                            images: acc.images,
                            tiles: acc.tiles,
                        },
                        end,
                    ),
                ),
            },
        },
        _ => Err(GError::MalformedAttributes(tileset_msg())),
    }
}

/// What the external-reference reading of a tileset tag denotes: required
/// `firstgid` and `source`; resolving further needs the map's own file
/// location, without which it fails before any filesystem interaction.
pub open spec fn spec_resolve_reference(
    attrs: Seq<(String, String)>,
    map_path: Option<Seq<char>>,
) -> Result<(u32, Seq<char>), GError> {
    match (u32_attr(attrs, "firstgid"@), text_attr(attrs, "source"@)) {
        (Some(fg), Some(src)) => match map_path {
            None => Err(GError::Other(location_msg())),
            Some(_) => Ok((fg, src)),
        },
        _ => Err(GError::MalformedAttributes(tileset_msg())),
    }
}

/// A tileset declaration, decided: either fully embedded, or a reference to
/// an external document that still has to be opened and parsed. `path` is
/// the referenced document resolved beside the map's own file.
#[derive(Debug, Clone, PartialEq)]
pub enum TilesetDecl {
    Embedded(Tileset),
    External { first_gid: u32, source: String, path: String },
}

/// The mirror of the decision. The resolved path is not modelled — path
/// syntax is the platform's own — only the raw `source` the document gave.
pub enum GTilesetDecl {
    Embedded(GTileset),
    External { first_gid: u32, source: Seq<char> },
}

/// The two-schema disambiguation of a tileset tag: the embedded reading is
/// tried first; on any failure at all the same attributes are re-read as an
/// external reference, and only the second reading's error survives.
pub open spec fn spec_tileset_decide(
    events: Seq<TreeEvent>,
    i: int,
    attrs: Seq<(String, String)>,
    map_path: Option<Seq<char>>,
) -> Result<GTilesetDecl, GError> {
    match spec_tileset_internal(events, i, attrs) {
        Ok((ts, _)) => Ok(GTilesetDecl::Embedded(ts)),
        Err(_) => match spec_resolve_reference(attrs, map_path) {
            Ok((fg, src)) => Ok(GTilesetDecl::External { first_gid: fg, source: src }),
            Err(e) => Err(e),
        },
    }
}

/// What an external tileset document denotes for the body of its `tileset`
/// element: the same reading as the embedded one, except that `firstgid` is
/// injected from the referencing document rather than required here.
pub open spec fn spec_parse_external(
    events: Seq<TreeEvent>,
    first_gid: u32,
    i: int,
    attrs: Seq<(String, String)>,
) -> Result<(GTileset, int), GError> {
    match (text_attr(attrs, "name"@), u32_attr(attrs, "tilewidth"@), u32_attr(attrs, "tileheight"@)) {
        (Some(name), Some(tw), Some(th)) => match scan_kids(events, i, "tileset"@) {
            Err(e) => Err(e),
            Ok((kids, end)) => match ts_fold(
                events,
                kids,
                GTsAcc { images: Seq::<GImage>::empty(), tiles: Seq::<GTile>::empty() },
            ) {
                Err(e) => Err(e),
                Ok(acc) => Ok(
                    (
                        GTileset {
                            first_gid: first_gid,
                            name: name,
                            tile_width: tw,
                            tile_height: th,
                            spacing: u32_or_zero(u32_attr(attrs, "spacing"@)),
                            margin: u32_or_zero(u32_attr(attrs, "margin"@)),
                            images: acc.images,
                            tiles: acc.tiles,
                        },
                        end,
                    ),
                ),
            },
        },
        _ => Err(GError::MalformedAttributes(tileset_msg())),
    }
}

/// The index of the first start tag named `tileset` in an external
/// document. Preceding declarations and content are passed over one event
/// at a time, without any descent rule: the first such start tag wins.
pub open spec fn spec_find_tileset(events: Seq<TreeEvent>, i: int) -> Result<int, GError>
    decreases events.len() - i,
{
    if i < 0 || i >= events.len() {
        Err(GError::PrematureEnd(external_end_msg()))
    } else {
        match events[i] {
            TreeEvent::Start { name, .. } => if name@ == "tileset"@ {
                Ok(i)
            } else {
                spec_find_tileset(events, i + 1)
            },
            TreeEvent::DocEnd => Err(GError::PrematureEnd(external_end_msg())),
            TreeEvent::ReadError { message } => Err(GError::DecodingError(message@)),
            _ => spec_find_tileset(events, i + 1),
        }
    }
}

/// What a whole external tileset document denotes: the body of its first
/// `tileset` start tag, with the injected first id.
pub open spec fn spec_tileset_external(events: Seq<TreeEvent>, first_gid: u32) -> Result<
    GTileset,
    GError,
> {
    match spec_find_tileset(events, 0) {
        Err(e) => Err(e),
        Ok(k) => match events[k] {
            TreeEvent::Start { name, attrs } => match spec_parse_external(
                events,
                first_gid,
                k + 1,
                attrs@,
            ) {
                Ok((ts, _)) => Ok(ts),
                Err(e) => Err(e),
            },
            _ => Err(GError::PrematureEnd(external_end_msg())),
        },
    }
}

/// The view of an optional borrowed path.
pub open spec fn opt_str_view(o: Option<&str>) -> Option<Seq<char>> {
    match o {
        Some(s) => Some(s@),
        None => None,
    }
}

/// Relies on `std::path::Path::with_file_name`: replaces the final
/// component of `base` with `name`, as the platform writes paths. Nothing
/// is assumed of the result: path syntax is the platform's own.
#[verifier::external_body]
fn sibling_path(base: &str, name: &str) -> String {
    std::path::Path::new(base).with_file_name(name).to_string_lossy().into_owned()
}

impl Tileset {
    /// Decodes an embedded `tileset` element exactly as
    /// `spec_tileset_internal` describes.
    #[verifier::loop_isolation(false)]
    pub fn new_internal(events: &Vec<TreeEvent>, pos: usize, attrs: &Vec<(String, String)>) -> (r:
        Result<(Tileset, usize), TiledError>)
        ensures
            match r {
                Ok((ts, end)) => spec_tileset_internal(events@, pos as int, attrs@) == Ok::<
                    _,
                    GError,
                >((ts@, end as int)) && pos < end <= events@.len(),
                Err(e) => spec_tileset_internal(events@, pos as int, attrs@) == Err::<
                    (GTileset, int),
                    GError,
                >(e@),
            },
    {
        let fg = match get_u32(attrs, "firstgid") {
            Some(v) => v,
            None => {
                return Err(malformed_err("tileset must have a firstgid, name tile width and height with correct types"));
            },
        };
        match Tileset::parse_tileset_body(fg, events, pos, attrs) {
            Ok((ts, end)) => Ok((ts, end)),
            Err(e) => Err(e),
        }
    }

    /// Decodes the body of a tileset element — everything but `firstgid`,
    /// which is handed in — as both the embedded and the external readings
    /// share it.
    #[verifier::loop_isolation(false)]
    fn parse_tileset_body(
        first_gid: u32,
        events: &Vec<TreeEvent>,
        pos: usize,
        attrs: &Vec<(String, String)>,
    ) -> (r: Result<(Tileset, usize), TiledError>)
        ensures
            match r {
                Ok((ts, end)) => spec_parse_external(events@, first_gid, pos as int, attrs@)
                    == Ok::<_, GError>((ts@, end as int)) && pos < end <= events@.len(),
                Err(e) => spec_parse_external(events@, first_gid, pos as int, attrs@) == Err::<
                    (GTileset, int),
                    GError,
                >(e@),
            },
    {
        let name = match get_text(attrs, "name") {
            Some(v) => v,
            None => {
                return Err(malformed_err("tileset must have a firstgid, name tile width and height with correct types"));
            },
        };
        let tw = match get_u32(attrs, "tilewidth") {
            Some(v) => v,
            None => {
                return Err(malformed_err("tileset must have a firstgid, name tile width and height with correct types"));
            },
        };
        let th = match get_u32(attrs, "tileheight") {
            Some(v) => v,
            None => {
                return Err(malformed_err("tileset must have a firstgid, name tile width and height with correct types"));
            },
        };
        let spacing = match get_u32(attrs, "spacing") {
            Some(v) => v,
            None => 0,
        };
        let margin = match get_u32(attrs, "margin") {
            Some(v) => v,
            None => 0,
        };
        let (kids, end) = match collect_children(events, pos, "tileset") {
            Ok(p) => p,
            Err(e) => {
                return Err(e);
            },
        };
        let ghost gkids = kids@.map_values(|u: usize| u as int);
        let mut images: Vec<Image> = Vec::new();
        let mut tiles: Vec<Tile> = Vec::new();
        let mut t: usize = 0;
        proof {
            assert(image_views(images@) =~= Seq::<GImage>::empty());
            assert(tile_views(tiles@) =~= Seq::<GTile>::empty());
            assert(gkids.skip(0) =~= gkids);
        }
        while t < kids.len()
            invariant
                t <= kids@.len(),
                match ts_fold(
                    events@,
                    gkids.skip(t as int),
                    GTsAcc { images: image_views(images@), tiles: tile_views(tiles@) },
                ) {
                    Ok(acc) => ts_fold(
                        events@,
                        gkids,
                        GTsAcc { images: Seq::<GImage>::empty(), tiles: Seq::<GTile>::empty() },
                    ) == Ok::<GTsAcc, GError>(acc),
                    Err(e) => ts_fold(
                        events@,
                        gkids,
                        GTsAcc { images: Seq::<GImage>::empty(), tiles: Seq::<GTile>::empty() },
                    ) == Err::<GTsAcc, GError>(e),
                },
            decreases kids@.len() - t,
        {
            let k = kids[t];
            proof {
                assert((kids@[t as int] as int) < events@.len());
                assert(gkids.skip(t as int).first() == gkids[t as int]);
                assert(gkids.skip(t as int).drop_first() =~= gkids.skip(t as int + 1));
            }
            match &events[k] {
                TreeEvent::Start { name: kid_name, attrs: kid_attrs } => {
                    if str_eq(kid_name.as_str(), "image") {
                        let total = events.len();
                        proof {
                            assert(k < total);
                        }
                        match Image::new(events, k + 1, kid_attrs) {
                            Ok((im, _)) => {
                                let ghost old_images = images@;
                                images.push(im);
                                proof {
                                    assert(image_views(images@) =~= image_views(old_images).push(
                                        im@,
                                    ));
                                }
                            },
                            Err(e) => {
                                return Err(e);
                            },
                        }
                    } else if str_eq(kid_name.as_str(), "tile") {
                        let total = events.len();
                        proof {
                            assert(k < total);
                        }
                        match Tile::new(events, k + 1, kid_attrs) {
                            Ok((tl, _)) => {
                                let ghost old_tiles = tiles@;
                                tiles.push(tl);
                                proof {
                                    assert(tile_views(tiles@) =~= tile_views(old_tiles).push(tl@));
                                }
                            },
                            Err(e) => {
                                return Err(e);
                            },
                        }
                    }
                },
                _ => {},
            }
            t += 1;
        }
        proof {
            assert(gkids.skip(kids@.len() as int) =~= Seq::<int>::empty());
        }
        Ok(
            (
                Tileset {
                    first_gid,
                    name,
                    tile_width: tw,
                    tile_height: th,
                    spacing,
                    margin,
                    images,
                    tiles,
                },
                end,
            ),
        )
    }

    /// Re-reads a tileset tag as an external reference: required `firstgid`
    /// and `source`, then the referenced document resolved beside the map's
    /// own file. The first id and the source are specified; the resolved
    /// path follows the platform's path syntax and is therefore not.
    pub fn resolve_reference(attrs: &Vec<(String, String)>, map_path: Option<&str>) -> (r: Result<
        (u32, String, String),
        TiledError,
    >)
        ensures
            match r {
                Ok((fg, src, _path)) => spec_resolve_reference(attrs@, opt_str_view(map_path))
                    == Ok::<(u32, Seq<char>), GError>((fg, src@)),
                Err(e) => spec_resolve_reference(attrs@, opt_str_view(map_path)) == Err::<
                    (u32, Seq<char>),
                    GError,
                >(e@),
            },
    {
        let fg = match get_u32(attrs, "firstgid") {
            Some(v) => v,
            None => {
                return Err(malformed_err("tileset must have a firstgid, name tile width and height with correct types"));
            },
        };
        let src = match get_text(attrs, "source") {
            Some(v) => v,
            None => {
                return Err(malformed_err("tileset must have a firstgid, name tile width and height with correct types"));
            },
        };
        match map_path {
            None => Err(
                other_err("Maps with external tilesets must know their file location.  See parse_with_path(Path)."),
            ),
            Some(base) => {
                let path = sibling_path(base, src.as_str());
                Ok((fg, src, path))
            },
        }
    }

    /// Decides a tileset tag, exactly as `spec_tileset_decide` describes:
    /// the embedded reading first; on any failure the external-reference
    /// reading, whose error alone survives a double failure. The embedded
    /// reading never touches the filesystem, and neither does the decision:
    /// opening the resolved path is the caller's step.
    pub fn new_decision(
        events: &Vec<TreeEvent>,
        pos: usize,
        attrs: &Vec<(String, String)>,
        map_path: Option<&str>,
    ) -> (r: Result<TilesetDecl, TiledError>)
        ensures
            match r {
                Ok(d) => match d {
                    TilesetDecl::Embedded(ts) => spec_tileset_decide(
                        events@,
                        pos as int,
                        attrs@,
                        opt_str_view(map_path),
                    ) == Ok::<GTilesetDecl, GError>(GTilesetDecl::Embedded(ts@)),
                    TilesetDecl::External { first_gid, source, path: _ } => spec_tileset_decide(
                        events@,
                        pos as int,
                        attrs@,
                        opt_str_view(map_path),
                    ) == Ok::<GTilesetDecl, GError>(
                        GTilesetDecl::External { first_gid, source: source@ },
                    ),
                },
                Err(e) => spec_tileset_decide(events@, pos as int, attrs@, opt_str_view(map_path))
                    == Err::<GTilesetDecl, GError>(e@),
            },
    {
        match Tileset::new_internal(events, pos, attrs) {
            Ok((ts, _)) => Ok(TilesetDecl::Embedded(ts)),
            Err(_) => match Tileset::resolve_reference(attrs, map_path) {
                Ok((fg, src, path)) => Ok(
                    TilesetDecl::External { first_gid: fg, source: src, path },
                ),
                Err(e) => Err(e),
            },
        }
    }

    /// Decodes the body of an external tileset document exactly as
    /// `spec_parse_external` describes: no `firstgid` is read here, the
    /// injected value is carried instead.
    pub fn parse_external_tileset(
        first_gid: u32,
        events: &Vec<TreeEvent>,
        pos: usize,
        attrs: &Vec<(String, String)>,
    ) -> (r: Result<(Tileset, usize), TiledError>)
        ensures
            match r {
                Ok((ts, end)) => spec_parse_external(events@, first_gid, pos as int, attrs@)
                    == Ok::<_, GError>((ts@, end as int)) && pos < end <= events@.len(),
                Err(e) => spec_parse_external(events@, first_gid, pos as int, attrs@) == Err::<
                    (GTileset, int),
                    GError,
                >(e@),
            },
    {
        Tileset::parse_tileset_body(first_gid, events, pos, attrs)
    }

    /// Decodes a whole external tileset document: advances to its first
    /// `tileset` start tag — a document that ends first is a premature end —
    /// then parses the body with the injected first id, exactly as
    /// `spec_tileset_external` describes.
    #[verifier::loop_isolation(false)]
    pub fn new_external(events: &Vec<TreeEvent>, first_gid: u32) -> (r: Result<Tileset, TiledError>)
        ensures
            match r {
                Ok(ts) => spec_tileset_external(events@, first_gid) == Ok::<GTileset, GError>(ts@),
                Err(e) => spec_tileset_external(events@, first_gid) == Err::<GTileset, GError>(e@),
            },
    {
        let mut cur: usize = 0;
        loop
            invariant
                spec_find_tileset(events@, 0) == spec_find_tileset(events@, cur as int),
            decreases events@.len() - cur,
        {
            if cur >= events.len() {
                return Err(
                    TiledError::PrematureEnd(
                        String::from_str("Tileset Document ended before map was parsed"),
                    ),
                );
            }
            match &events[cur] {
                TreeEvent::Start { name, attrs } => {
                    if str_eq(name.as_str(), "tileset") {
                        let total = events.len();
                        proof {
                            assert(cur < total);
                        }
                        return match Tileset::parse_external_tileset(
                            first_gid,
                            events,
                            cur + 1,
                            attrs,
                        ) {
                            Ok((ts, _)) => Ok(ts),
                            Err(e) => Err(e),
                        };
                    }
                    cur = cur + 1;
                },
                TreeEvent::DocEnd => {
                    return Err(
                        TiledError::PrematureEnd(
                            String::from_str("Tileset Document ended before map was parsed"),
                        ),
                    );
                },
                TreeEvent::ReadError { message } => {
                    return Err(TiledError::DecodingError(message.clone()));
                },
                _ => {
                    cur = cur + 1;
                },
            }
        }
    }
}

/// A tileset tag carrying usable `firstgid`, `name`, `tilewidth` and
/// `tileheight` attributes and no children at all resolves via the embedded
/// reading, whatever the map path: the decision never consults the
/// filesystem, and here it never even reads the reference schema.
pub proof fn lemma_tileset_embedded(
    events: Seq<TreeEvent>,
    i: int,
    attrs: Seq<(String, String)>,
    map_path: Option<Seq<char>>,
    fg: u32,
    name: Seq<char>,
    tw: u32,
    th: u32,
)
    requires
        u32_attr(attrs, "firstgid"@) == Some(fg),
        text_attr(attrs, "name"@) == Some(name),
        u32_attr(attrs, "tilewidth"@) == Some(tw),
        u32_attr(attrs, "tileheight"@) == Some(th),
        0 <= i < events.len(),
        events[i] matches TreeEvent::End { name: en } && en@ == "tileset"@,
    ensures
        spec_tileset_decide(events, i, attrs, map_path) == Ok::<GTilesetDecl, GError>(
            GTilesetDecl::Embedded(
                GTileset {
                    first_gid: fg,
                    name: name,
                    tile_width: tw,
                    tile_height: th,
                    spacing: u32_or_zero(u32_attr(attrs, "spacing"@)),
                    margin: u32_or_zero(u32_attr(attrs, "margin"@)),
                    images: Seq::<GImage>::empty(),
                    tiles: Seq::<GTile>::empty(),
                },
            ),
        ),
{
    assert(scan_kids(events, i, "tileset"@) == Ok::<(Seq<int>, int), GError>(
        (Seq::<int>::empty(), i + 1),
    ));
}

/// A tileset tag read as an external reference with no known map path fails
/// with the must-know-location error: resolution never reaches the
/// filesystem.
pub proof fn lemma_reference_needs_location(attrs: Seq<(String, String)>, fg: u32, src: Seq<char>)
    requires
        u32_attr(attrs, "firstgid"@) == Some(fg),
        text_attr(attrs, "source"@) == Some(src),
    ensures
        spec_resolve_reference(attrs, None) == Err::<(u32, Seq<char>), GError>(
            GError::Other(location_msg()),
        ),
{
}

/// At the decision level: when the embedded reading fails and the map path
/// is unknown, a tag carrying `firstgid` and `source` fails with that same
/// error.
pub proof fn lemma_decide_needs_location(
    events: Seq<TreeEvent>,
    i: int,
    attrs: Seq<(String, String)>,
    fg: u32,
    src: Seq<char>,
)
    requires
        spec_tileset_internal(events, i, attrs) is Err,
        u32_attr(attrs, "firstgid"@) == Some(fg),
        text_attr(attrs, "source"@) == Some(src),
    ensures
        spec_tileset_decide(events, i, attrs, None) == Err::<GTilesetDecl, GError>(
            GError::Other(location_msg()),
        ),
{
}

/// A resolved external document always carries the injected first id — the
/// referencing document's value — never anything the external document
/// says; its name and dimensions come from the external document's own
/// tileset tag.
pub proof fn lemma_external_injects_first_gid(
    events: Seq<TreeEvent>,
    first_gid: u32,
    ts: GTileset,
)
    requires
        spec_tileset_external(events, first_gid) == Ok::<GTileset, GError>(ts),
    ensures
        ts.first_gid == first_gid,
{
}

/// A child that is neither an `image` nor a `tile` start tag, inserted
/// anywhere among a tileset's children, leaves the fold unchanged: the
/// stray tag is skipped whole and the siblings after it still decode
/// exactly as before.
pub proof fn lemma_ts_fold_ignores_unknown(
    events: Seq<TreeEvent>,
    kids: Seq<int>,
    p: int,
    k: int,
    acc: GTsAcc,
)
    requires
        0 <= p <= kids.len(),
        !(events[k] matches TreeEvent::Start { name, .. } && (name@ == "image"@ || name@
            == "tile"@)),
    ensures
        ts_fold(events, kids.insert(p, k), acc) == ts_fold(events, kids, acc),
    decreases kids.len(),
{
    let ins = kids.insert(p, k);
    if p == 0 {
        assert(ins.first() == k);
        assert(ins.drop_first() =~= kids);
    } else {
        assert(ins.first() == kids.first());
        assert(ins.drop_first() =~= kids.drop_first().insert(p - 1, k));
        match events[kids.first()] {
            TreeEvent::Start { name, attrs } => {
                if name@ == "image"@ {
                    match spec_image(events, kids.first() + 1, attrs@) {
                        Ok((im, _)) => {
                            lemma_ts_fold_ignores_unknown(
                                events,
                                kids.drop_first(),
                                p - 1,
                                k,
                                GTsAcc { images: acc.images.push(im), tiles: acc.tiles },
                            );
                        },
                        Err(_) => {},
                    }
                } else if name@ == "tile"@ {
                    match spec_tile(events, kids.first() + 1, attrs@) {
                        Ok((tl, _)) => {
                            lemma_ts_fold_ignores_unknown(
                                events,
                                kids.drop_first(),
                                p - 1,
                                k,
                                GTsAcc { images: acc.images, tiles: acc.tiles.push(tl) },
                            );
                        },
                        Err(_) => {},
                    }
                } else {
                    lemma_ts_fold_ignores_unknown(events, kids.drop_first(), p - 1, k, acc);
                }
            },
            _ => {
                lemma_ts_fold_ignores_unknown(events, kids.drop_first(), p - 1, k, acc);
            },
        }
    }
}

/// The rest of a resolved external document: its name and dimensions come
/// from the external document's own tileset tag, not from the referencing
/// one.
pub proof fn lemma_external_fields_from_document(
    events: Seq<TreeEvent>,
    first_gid: u32,
    ts: GTileset,
    k: int,
)
    requires
        spec_find_tileset(events, 0) == Ok::<int, GError>(k),
        spec_tileset_external(events, first_gid) == Ok::<GTileset, GError>(ts),
    ensures
        events[k] matches TreeEvent::Start { name: _, attrs } ==> text_attr(attrs@, "name"@)
            == Some(ts.name) && u32_attr(attrs@, "tilewidth"@) == Some(ts.tile_width) && u32_attr(
            attrs@,
            "tileheight"@,
        ) == Some(ts.tile_height),
{
}

} // verus!
