use vstd::prelude::*;
use crate::attrs::{colour_attr, get_colour, get_i32, get_text, get_u32, i32_attr, text_attr, u32_attr};
use crate::colour::Colour;
use crate::error::{malformed_err, GError, TiledError};
use crate::events::TreeEvent;
use crate::scan::{collect_children, scan_kids};
use crate::text::str_eq;

verus! {

/// One image of a tileset: where its file lives and its pixel size.
#[derive(Debug, Clone, PartialEq)]
pub struct Image {
    pub source: String,
    pub width: i32,
    pub height: i32,
    pub transparent_colour: Option<Colour>,
}

/// The mirror of `Image`.
pub struct GImage {
    pub source: Seq<char>,
    pub width: i32,
    pub height: i32,
    pub transparent_colour: Option<Colour>,
}

impl View for Image {
    type V = GImage;

    open spec fn view(&self) -> GImage {
        GImage {
            source: self.source@,
            width: self.width,
            height: self.height,
            transparent_colour: self.transparent_colour,
        }
    }
}

/// The views of a sequence of images.
pub open spec fn image_views(v: Seq<Image>) -> Seq<GImage> {
    v.map_values(|im: Image| im@)
}

/// The message of the error for an image tag missing a required attribute.
pub open spec fn image_msg() -> Seq<char> {
    "image must have a source, width and height with correct types"@
}

/// What an `image` element denotes: required `source`, `width` and `height`
/// attributes and an optional `trans` colour; its children carry nothing the
/// decoder reads, but the subtree is still consumed.
pub open spec fn spec_image(events: Seq<TreeEvent>, i: int, attrs: Seq<(String, String)>) -> Result<
    (GImage, int),
    GError,
> {
    match (text_attr(attrs, "source"@), i32_attr(attrs, "width"@), i32_attr(attrs, "height"@)) {
        (Some(src), Some(w), Some(h)) => match scan_kids(events, i, "image"@) {
            Err(e) => Err(e),
            Ok((kids, end)) => Ok(
                (
                    GImage {
                        source: src,
                        width: w,
                        height: h,
                        transparent_colour: colour_attr(attrs, "trans"@),
                    },
                    end,
                ),
            ),
        },
        _ => Err(GError::MalformedAttributes(image_msg())),
    }
}

impl Image {
    /// Decodes an `image` element exactly as `spec_image` describes.
    pub fn new(events: &Vec<TreeEvent>, pos: usize, attrs: &Vec<(String, String)>) -> (r: Result<
        (Image, usize),
        TiledError,
    >)
        ensures
            match r {
                Ok((im, end)) => spec_image(events@, pos as int, attrs@) == Ok::<_, GError>(
                    (im@, end as int),
                ) && pos < end <= events@.len(),
                Err(e) => spec_image(events@, pos as int, attrs@) == Err::<(GImage, int), GError>(
                    e@,
                ),
            },
    {
        let src = match get_text(attrs, "source") {
            Some(v) => v,
            None => {
                return Err(malformed_err("image must have a source, width and height with correct types"));
            },
        };
        let w = match get_i32(attrs, "width") {
            Some(v) => v,
            None => {
                return Err(malformed_err("image must have a source, width and height with correct types"));
            },
        };
        let h = match get_i32(attrs, "height") {
            Some(v) => v,
            None => {
                return Err(malformed_err("image must have a source, width and height with correct types"));
            },
        };
        let trans = get_colour(attrs, "trans");
        match collect_children(events, pos, "image") {
            Err(e) => Err(e),
            Ok((_kids, end)) => Ok(
                (Image { source: src, width: w, height: h, transparent_colour: trans }, end),
            ),
        }
    }
}

/// One tile of a tileset: its local id and its images.
#[derive(Debug, Clone, PartialEq)]
pub struct Tile {
    pub id: u32,
    pub images: Vec<Image>,
}

/// The mirror of `Tile`.
pub struct GTile {
    pub id: u32,
    pub images: Seq<GImage>,
}

impl View for Tile {
    type V = GTile;

    open spec fn view(&self) -> GTile {
        GTile { id: self.id, images: image_views(self.images@) }
    }
}

/// The views of a sequence of tiles.
pub open spec fn tile_views(v: Seq<Tile>) -> Seq<GTile> {
    v.map_values(|t: Tile| t@)
}

/// The message of the error for a tile tag missing its id.
pub open spec fn tile_msg() -> Seq<char> {
    "tile must have an id with the correct type"@
}

/// The tile fold: each `image` child appends its decoded image, in document
/// order; any other child is ignored.
pub open spec fn tile_fold(events: Seq<TreeEvent>, kids: Seq<int>, acc: Seq<GImage>) -> Result<
    Seq<GImage>,
    GError,
>
    decreases kids.len(),
{
    if kids.len() == 0 {
        Ok(acc)
    } else {
        match events[kids.first()] {
            TreeEvent::Start { name, attrs } => if name@ == "image"@ {
                match spec_image(events, kids.first() + 1, attrs@) {
                    Ok((im, _)) => tile_fold(events, kids.drop_first(), acc.push(im)),
                    Err(e) => Err(e),
                }
            } else {
                tile_fold(events, kids.drop_first(), acc)
            },
            _ => tile_fold(events, kids.drop_first(), acc),
        }
    }
}

/// What a `tile` element denotes: a required `id` attribute and the images
/// of its `image` children, in document order.
pub open spec fn spec_tile(events: Seq<TreeEvent>, i: int, attrs: Seq<(String, String)>) -> Result<
    (GTile, int),
    GError,
> {
    match u32_attr(attrs, "id"@) {
        None => Err(GError::MalformedAttributes(tile_msg())),
        Some(id) => match scan_kids(events, i, "tile"@) {
            Err(e) => Err(e),
            Ok((kids, end)) => match tile_fold(events, kids, Seq::<GImage>::empty()) {
                Ok(ims) => Ok((GTile { id, images: ims }, end)),
                Err(e) => Err(e),
            },
        },
    }
}

impl Tile {
    /// Decodes a `tile` element exactly as `spec_tile` describes.
    #[verifier::loop_isolation(false)]
    pub fn new(events: &Vec<TreeEvent>, pos: usize, attrs: &Vec<(String, String)>) -> (r: Result<
        (Tile, usize),
        TiledError,
    >)
        ensures
            match r {
                Ok((tl, end)) => spec_tile(events@, pos as int, attrs@) == Ok::<_, GError>(
                    (tl@, end as int),
                ) && pos < end <= events@.len(),
                Err(e) => spec_tile(events@, pos as int, attrs@) == Err::<(GTile, int), GError>(e@),
            },
    {
        let id = match get_u32(attrs, "id") {
            Some(v) => v,
            None => {
                return Err(malformed_err("tile must have an id with the correct type"));
            },
        };
        let (kids, end) = match collect_children(events, pos, "tile") {
            Ok(x) => x,
            Err(e) => {
                return Err(e);
            },
        };
        let ghost gkids = kids@.map_values(|u: usize| u as int);
        let mut images: Vec<Image> = Vec::new();
        let mut t: usize = 0;
        proof {
            assert(image_views(images@) =~= Seq::<GImage>::empty());
            assert(gkids.skip(0) =~= gkids);
        }
        while t < kids.len()
            invariant
                t <= kids@.len(),
                gkids == kids@.map_values(|u: usize| u as int),
                forall|q: int|
                    0 <= q < kids@.len() ==> ((#[trigger] kids@[q]) as int) < events@.len(),
                match tile_fold(events@, gkids.skip(t as int), image_views(images@)) {
                    Ok(ims) => tile_fold(events@, gkids, Seq::<GImage>::empty()) == Ok::<
                        Seq<GImage>,
                        GError,
                    >(ims),
                    Err(e) => tile_fold(events@, gkids, Seq::<GImage>::empty()) == Err::<
                        Seq<GImage>,
                        GError,
                    >(e),
                },
            decreases kids@.len() - t,
        {
            let k = kids[t];
            proof {
                assert((kids@[t as int] as int) < events@.len());
                assert(gkids.skip(t as int).first() == gkids[t as int]);
                assert(gkids.skip(t as int).drop_first() =~= gkids.skip(t as int + 1));
            }
            match &events[k] {
                TreeEvent::Start { name, attrs: kid_attrs } => {
                    if str_eq(name.as_str(), "image") {
                        let total = events.len();
                        proof {
                            assert(k < total);
                        }
                        match Image::new(events, k + 1, kid_attrs) {
                            Ok((im, _)) => {
                                let ghost old_images = images@;
                                images.push(im);
                                proof {
                                    assert(image_views(images@) =~= image_views(old_images).push(
                                        im@,
                                    ));
                                }
                            },
                            Err(e) => {
                                return Err(e);
                            },
                        }
                    }
                },
                _ => {},
            }
            t += 1;
        }
        proof {
            assert(gkids.skip(kids@.len() as int) =~= Seq::<int>::empty());
        }
        Ok((Tile { id, images }, end))
    }
}

} // verus!
