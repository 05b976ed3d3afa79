//! The picture of a block: the images of its NFTs, scaled to one tile each,
//! laid out row by row on a `BLOCK_SIZE` by `BLOCK_SIZE` canvas.

use vstd::prelude::*;

use crate::blocks::{BLOCK_SIZE, child_image_size, tile_column, tile_origin, tile_row, tile_side};
use crate::decimal::{decimal_text, lemma_decimal_text_injective};
use vstd::arithmetic::div_mod::lemma_div_is_ordered;

verus! {

/// `image::DynamicImage`, a decoded image; opaque here.
#[verifier::external_type_specification]
#[verifier::external_body]
pub struct ExDynamicImage(image::DynamicImage);

/// `image::load_from_memory` succeeds on `bytes`: their format is recognised
/// and they decode as an image of it.
pub uninterp spec fn image_loads(bytes: Seq<u8>) -> bool;

/// The image in `bytes`, read through `image::io::Reader` with a guessed
/// format (`with_guessed_format`, then `decode`) and written again as PNG
/// (`DynamicImage::write_to` with `ImageOutputFormat::Png`); `None` when the
/// bytes do not decode or the PNG encoder refuses the decoded image.
pub uninterp spec fn png_reencoding(bytes: Seq<u8>) -> Option<Seq<u8>>;

/// `image::io::Reader::new` on the bytes, `with_guessed_format`, `decode`,
/// then `DynamicImage::write_to` with `ImageOutputFormat::Png` into a buffer:
/// the PNG bytes, or `None` when decoding or encoding fails.  The decoded
/// image stands only between the two calls, so the result is named over the
/// input bytes.
#[verifier::external_body]
fn decode_and_encode_png(bytes: &[u8]) -> (png: Option<Vec<u8>>)
    ensures
        match png {
            Some(p) => png_reencoding(bytes@) == Some(p@),
            None => png_reencoding(bytes@) is None,
        },
{
    let reader = image::io::Reader::new(std::io::Cursor::new(bytes)).with_guessed_format().ok()?;
    let img = reader.decode().ok()?;
    let mut out: Vec<u8> = Vec::new();
    img.write_to(&mut std::io::Cursor::new(&mut out), image::ImageOutputFormat::Png).ok()?;
    Some(out)
}

/// `<u32 as ToString>::to_string`: the number in decimal, as `Display` for
/// integers documents it.
#[verifier::external_body]
fn u32_to_decimal(n: u32) -> (text: String)
    ensures
        text@ == decimal_text(n as int),
{
    n.to_string()
}

/// Path of the file that holds the picture of block `block`, under the
/// directory `dir`.
pub open spec fn block_image_file_text(dir: Seq<char>, block: u32) -> Seq<char> {
    dir + "/images/block_"@ + decimal_text(block as int) + ".png"@
}

/// Path of the file that holds the picture of block `block`, under the
/// directory `dir`: `{dir}/images/block_{block}.png`.
pub fn block_image_file(dir: &str, block: u32) -> (path: String)
    ensures
        path@ == block_image_file_text(dir@, block),
        path@ == dir@ + "/images/block_"@ + decimal_text(block as int) + ".png"@,
{
    let number = u32_to_decimal(block);
    String::from_str(dir).concat("/images/block_").concat(number.as_str()).concat(".png")
}

/// The picture file of a block lies in the `images` directory under `dir`,
/// the whole of `dir` coming first, and is named `block_` then the block
/// number in decimal, then `.png`.
pub proof fn lemma_block_image_file_parts(dir: Seq<char>, block: u32)
    ensures
        ({
            let p = block_image_file_text(dir, block);
            let d = dir.len() as int;
            let n = decimal_text(block as int);
            &&& p.len() == d + 14 + n.len() + 4
            &&& p.subrange(0, d) == dir
            &&& p.subrange(d, d + 14) == "/images/block_"@
            &&& p.subrange(d + 14, p.len() - 4) == n
            &&& p.subrange(p.len() - 4, p.len() as int) == ".png"@
        }),
{
    reveal_strlit("/images/block_");
    reveal_strlit(".png");
    let p = block_image_file_text(dir, block);
    let d = dir.len() as int;
    let n = decimal_text(block as int);
    assert(p.subrange(0, d) =~= dir);
    assert(p.subrange(d, d + 14) =~= "/images/block_"@);
    assert(p.subrange(d + 14, p.len() - 4) =~= n);
    assert(p.subrange(p.len() - 4, p.len() as int) =~= ".png"@);
}

/// Different blocks have their pictures in different files.
pub proof fn lemma_block_image_files_distinct(dir: Seq<char>, a: u32, b: u32)
    requires
        a != b,
    ensures
        block_image_file_text(dir, a) != block_image_file_text(dir, b),
{
    lemma_block_image_file_parts(dir, a);
    lemma_block_image_file_parts(dir, b);
    if block_image_file_text(dir, a) == block_image_file_text(dir, b) {
        lemma_decimal_text_injective(a as int, b as int);
    }
}

/// The bottom edge of the last of `count` tiles of block `block` is within
/// `u32`, so that every tile origin and far edge is.
pub open spec fn tiles_fit_in_u32(count: int, block: int) -> bool {
    count == 0 || tile_row(count - 1, block) * tile_side(block) + tile_side(block) <= u32::MAX
}

/// Every tile that was fetched holds bytes that load as an image.
pub open spec fn all_tiles_load(tiles: Seq<Option<Vec<u8>>>) -> bool {
    forall|i: int| 0 <= i < tiles.len() ==> (#[trigger] tiles[i] matches Some(b) ==> image_loads(b@))
}

/// One drawing on a picture: the bytes the tile was loaded from, and the side
/// and the top-left corner `(x, y)` of the square it was scaled to and drawn at.
pub type TilePaste = (Seq<u8>, int, int, int);

/// An image loaded from bytes, together with the bytes it was loaded from.
pub struct LoadedImage {
    image: image::DynamicImage,
    source: Ghost<Seq<u8>>,
}

/// A loaded image is seen as the bytes it was loaded from.
impl View for LoadedImage {
    type V = Seq<u8>;

    closed spec fn view(&self) -> Seq<u8> {
        self.source@
    }
}

/// A picture being drawn: a transparent RGBA canvas of `size` (width,
/// height) on which the tiles of `pastes` were drawn, in that order, each
/// scaled to its square; later drawings cover earlier ones.  Only the calls
/// into the image crate below (`new_canvas`, `paste_resized`) set `size` and
/// `pastes`, each recording the call it makes.
pub struct BlockPicture {
    image: image::DynamicImage,
    size: Ghost<(int, int)>,
    pastes: Ghost<Seq<TilePaste>>,
}

/// A picture is seen as its width, its height and the drawings made on it.
impl View for BlockPicture {
    type V = (int, int, Seq<TilePaste>);

    closed spec fn view(&self) -> (int, int, Seq<TilePaste>) {
        (self.size@.0, self.size@.1, self.pastes@)
    }
}

/// `image::load_from_memory`: the image encoded in `bytes`, or `None` when
/// they are not an image of a known format.  The image is recorded with the
/// bytes it was loaded from; its pixels are opaque here.
#[verifier::external_body]
fn load_from_memory(bytes: &[u8]) -> (img: Option<LoadedImage>)
    ensures
        img is Some <==> image_loads(bytes@),
        img matches Some(t) ==> t@ == bytes@,
{
    match image::load_from_memory(bytes) {
        Ok(image) => Some(LoadedImage { image, source: Ghost(bytes@) }),
        Err(_) => None,
    }
}

/// `image::DynamicImage::new_rgba8`: a transparent RGBA canvas of `width` by
/// `height` (the source fills a new buffer with zeros), with nothing drawn on
/// it.
#[verifier::external_body]
fn new_canvas(width: u32, height: u32) -> (picture: BlockPicture)
    ensures
        picture@ == (width as int, height as int, Seq::<TilePaste>::empty()),
{
    BlockPicture {
        image: image::DynamicImage::new_rgba8(width, height),
        size: Ghost((width as int, height as int)),
        pastes: Ghost(Seq::empty()),
    }
}

/// `image::DynamicImage::resize_exact` of `tile` to `side` by `side` with the
/// Lanczos3 filter, then `GenericImage::copy_from` of the result onto the
/// canvas with its top-left corner at `(x, y)`; the drawing is recorded.  The
/// two calls stand together because the bound that keeps `copy_from` from
/// overflowing (its own `x + width` and `y + height` in `u32`) is on the
/// resized tile, which is `side` by `side` in the source of `resize_exact`.
/// `copy_from` leaves the canvas as it was when the tile does not fit, and its
/// result is dropped.  The pixels are left unsaid here.
#[verifier::external_body]
fn paste_resized(canvas: &mut BlockPicture, tile: &LoadedImage, side: u32, x: u32, y: u32)
    requires
        x + side <= u32::MAX,
        y + side <= u32::MAX,
    ensures
        final(canvas)@ == (
            old(canvas)@.0,
            old(canvas)@.1,
            old(canvas)@.2.push((tile@, side as int, x as int, y as int)),
        ),
{
    let resized = tile.image.resize_exact(side, side, image::imageops::FilterType::Lanczos3);
    let _ = image::GenericImage::copy_from(&mut canvas.image, &resized, x, y);
    canvas.pastes = Ghost(canvas.pastes@.push((tile.source@, side as int, x as int, y as int)));
}

impl BlockPicture {
    /// The image drawn, to be saved.
    pub fn into_image(self) -> image::DynamicImage {
        self.image
    }
}

/// The drawings that make the picture of block `block` from `tiles`: for each
/// fetched tile `i`, in order, its bytes scaled to the tile side and drawn at
/// the tile's origin (column `i % block`, row `i / block`).  A tile that was
/// not fetched is not drawn, and the tiles after it keep their own squares.
pub open spec fn tile_pastes(tiles: Seq<Option<Vec<u8>>>, block: int) -> Seq<TilePaste>
    decreases tiles.len(),
{
    if tiles.len() == 0 {
        Seq::empty()
    } else {
        let i = tiles.len() - 1;
        let before = tile_pastes(tiles.drop_last(), block);
        match tiles.last() {
            Some(bytes) => before.push(
                (
                    bytes@,
                    tile_side(block),
                    tile_column(i, block) * tile_side(block),
                    tile_row(i, block) * tile_side(block),
                ),
            ),
            None => before,
        }
    }
}

/// The drawing of fetched tile `i` of block `block`: its bytes, the tile side
/// `BLOCK_SIZE / block`, and the tile's origin at column `i % block`, row
/// `i / block`.
spec fn drawing_of_tile(tiles: Seq<Option<Vec<u8>>>, i: int, block: int) -> TilePaste {
    let s = BLOCK_SIZE as int / block;
    (tiles[i]->0@, s, (i % block) * s, (i / block) * s)
}

/// The drawings of a block's picture are exactly its fetched tiles: every
/// drawing is the image of some fetched tile `i`, scaled to the tile side
/// `BLOCK_SIZE / block` and put at column `i % block`, row `i / block`; and
/// every fetched tile is drawn so.  Unfetched tiles are not drawn, and no tile
/// takes another's square.
pub proof fn lemma_tile_pastes_draw_each_fetched_tile(tiles: Seq<Option<Vec<u8>>>, block: int)
    requires
        block >= 1,
    ensures
        forall|k: int|
            #![trigger tile_pastes(tiles, block)[k]]
            0 <= k < tile_pastes(tiles, block).len() ==> exists|i: int|
                #![trigger tiles[i]]
                0 <= i < tiles.len() && tiles[i] is Some && tile_pastes(tiles, block)[k] == (
                    tiles[i]->0@,
                    BLOCK_SIZE as int / block,
                    (i % block) * (BLOCK_SIZE as int / block),
                    (i / block) * (BLOCK_SIZE as int / block),
                ),
        forall|i: int|
            #![trigger tiles[i]]
            0 <= i < tiles.len() && tiles[i] is Some ==> exists|k: int|
                #![trigger tile_pastes(tiles, block)[k]]
                0 <= k < tile_pastes(tiles, block).len() && tile_pastes(tiles, block)[k] == (
                    tiles[i]->0@,
                    BLOCK_SIZE as int / block,
                    (i % block) * (BLOCK_SIZE as int / block),
                    (i / block) * (BLOCK_SIZE as int / block),
                ),
    decreases tiles.len(),
{
    if tiles.len() > 0 {
        let before = tiles.drop_last();
        let last = tiles.len() - 1;
        lemma_tile_pastes_draw_each_fetched_tile(before, block);
        let prev = tile_pastes(before, block);
        let now = tile_pastes(tiles, block);
        assert forall|i: int| 0 <= i < before.len() implies drawing_of_tile(before, i, block)
            == drawing_of_tile(tiles, i, block) && #[trigger] before[i] == tiles[i] by {}
        if tiles[last] is Some {
            assert(now == prev.push(drawing_of_tile(tiles, last, block)));
        } else {
            assert(now == prev);
        }
        assert forall|k: int| #![trigger now[k]] 0 <= k < now.len() implies exists|i: int|
            #![trigger tiles[i]]
            0 <= i < tiles.len() && tiles[i] is Some && now[k] == drawing_of_tile(
                tiles,
                i,
                block,
            ) by {
            if k < prev.len() {
                assert(now[k] == prev[k]);
                let i = choose|i: int|
                    #![trigger before[i]]
                    0 <= i < before.len() && before[i] is Some && prev[k] == drawing_of_tile(
                        before,
                        i,
                        block,
                    );
                assert(tiles[i] == before[i]);
            } else {
                assert(tiles[last] is Some);
                assert(now[k] == drawing_of_tile(tiles, last, block));
            }
        }
        assert forall|i: int| 0 <= i < tiles.len() && tiles[i] is Some implies exists|k: int|
            #![trigger now[k]]
            0 <= k < now.len() && now[k] == drawing_of_tile(tiles, i, block) by {
            if i < last {
                assert(before[i] == tiles[i]);
                let k = choose|k: int|
                    #![trigger prev[k]]
                    0 <= k < prev.len() && prev[k] == drawing_of_tile(before, i, block);
                assert(now[k] == prev[k]);
            } else {
                assert(now[prev.len() as int] == drawing_of_tile(tiles, i, block));
            }
        }
    }
}

/// The picture of block `block`: tile `i` of `tiles` holds the fetched bytes of
/// the `i`-th NFT of the block, or `None` when fetching it failed, in which
/// case its place stays empty.  The picture is a transparent `BLOCK_SIZE` by
/// `BLOCK_SIZE` canvas with each fetched image scaled to one tile and drawn at
/// the tile's origin (see `tile_origin`).  `None` when some fetched bytes are
/// not an image.
pub fn compose_block_image(block: u32, tiles: &Vec<Option<Vec<u8>>>) -> (picture: Option<
    BlockPicture,
>)
    requires
        block >= 1,
        tiles@.len() <= u32::MAX + 1,
        tiles_fit_in_u32(tiles@.len() as int, block as int),
    ensures
        picture is Some <==> all_tiles_load(tiles@),
        picture matches Some(p) ==> p@ == (
            BLOCK_SIZE as int,
            BLOCK_SIZE as int,
            tile_pastes(tiles@, block as int),
        ),
        picture matches Some(p) ==> p@.0 == BLOCK_SIZE && p@.1 == BLOCK_SIZE && (forall|k: int|
            #![trigger p@.2[k]]
            0 <= k < p@.2.len() ==> p@.2[k].1 == BLOCK_SIZE as int / block as int && exists|i: int|
                #![trigger tiles@[i]]
                0 <= i < tiles@.len() && tiles@[i] is Some && p@.2[k] == (
                    tiles@[i]->0@,
                    BLOCK_SIZE as int / block as int,
                    (i % block as int) * (BLOCK_SIZE as int / block as int),
                    (i / block as int) * (BLOCK_SIZE as int / block as int),
                )) && (forall|i: int|
            #![trigger tiles@[i]]
            0 <= i < tiles@.len() && tiles@[i] is Some ==> exists|k: int|
                #![trigger p@.2[k]]
                0 <= k < p@.2.len() && p@.2[k] == (
                    tiles@[i]->0@,
                    BLOCK_SIZE as int / block as int,
                    (i % block as int) * (BLOCK_SIZE as int / block as int),
                    (i / block as int) * (BLOCK_SIZE as int / block as int),
                )),
{
    let side = child_image_size(block);
    let mut canvas = new_canvas(BLOCK_SIZE, BLOCK_SIZE);
    let mut idx: usize = 0;
    while idx < tiles.len()
        invariant
            block >= 1,
            side == tile_side(block as int),
            tiles@.len() <= u32::MAX + 1,
            tiles_fit_in_u32(tiles@.len() as int, block as int),
            idx <= tiles@.len(),
            canvas@ == (
                BLOCK_SIZE as int,
                BLOCK_SIZE as int,
                tile_pastes(tiles@.take(idx as int), block as int),
            ),
            forall|i: int| 0 <= i < idx ==> (#[trigger] tiles@[i] matches Some(b) ==> image_loads(b@)),
        decreases tiles@.len() - idx,
    {
        let i: u32 = idx as u32;
        proof {
            let s: int = side as int;
            let r: int = tile_row(i as int, block as int);
            assert(0 <= s <= BLOCK_SIZE) by (nonlinear_arith)
                requires
                    s == BLOCK_SIZE as int / block as int,
                    block >= 1,
            ;
            let last: int = tile_row(tiles@.len() - 1, block as int);
            lemma_div_is_ordered(i as int, tiles@.len() - 1, block as int);
            assert(r * s <= last * s) by (nonlinear_arith)
                requires
                    r <= last,
                    s >= 0,
            ;
        }
        match &tiles[idx] {
            Some(bytes) => {
                match load_from_memory(bytes.as_slice()) {
                    Some(tile) => {
                        let (x, y) = tile_origin(i, block);
                        proof {
                            let s: int = side as int;
                            assert(x + s <= BLOCK_SIZE + BLOCK_SIZE) by (nonlinear_arith)
                                requires
                                    x == (i as int % block as int) * s,
                                    s == BLOCK_SIZE as int / block as int,
                                    block >= 1,
                                    0 <= s <= BLOCK_SIZE,
                            ;
                        }
                        paste_resized(&mut canvas, &tile, side, x, y);
                    },
                    None => {
                        return None;
                    },
                }
            },
            None => {},
        }
        proof {
            assert(tiles@.take(idx + 1).drop_last() =~= tiles@.take(idx as int));
        }
        idx = idx + 1;
    }
    proof {
        assert(tiles@.take(tiles@.len() as int) =~= tiles@);
        lemma_tile_pastes_draw_each_fetched_tile(tiles@, block as int);
        let pastes = tile_pastes(tiles@, block as int);
        assert(canvas@.2 == pastes);
        let s: int = BLOCK_SIZE as int / block as int;
        assert forall|k: int| #![trigger canvas@.2[k]] 0 <= k < canvas@.2.len() implies canvas@.2[k].1 == s && exists|i: int|
            #![trigger tiles@[i]]
            0 <= i < tiles@.len() && tiles@[i] is Some && canvas@.2[k] == (
                tiles@[i]->0@,
                s,
                (i % block as int) * s,
                (i / block as int) * s,
            ) by {
            assert(canvas@.2[k] == pastes[k]);
        }
        assert forall|i: int| #![trigger tiles@[i]] 0 <= i < tiles@.len() && tiles@[i] is Some implies exists|k: int|
            #![trigger canvas@.2[k]]
            0 <= k < canvas@.2.len() && canvas@.2[k] == (
                tiles@[i]->0@,
                s,
                (i % block as int) * s,
                (i / block as int) * s,
            ) by {
            let k = choose|k: int|
                #![trigger pastes[k]]
                0 <= k < pastes.len() && pastes[k] == (
                    tiles@[i]->0@,
                    s,
                    (i % block as int) * s,
                    (i / block as int) * s,
                );
            assert(canvas@.2[k] == pastes[k]);
        }
    }
    Some(canvas)
}

/// The image in `bytes`, whatever its format, encoded again as PNG; `None`
/// when the bytes are not an image or the PNG encoder refuses it.
pub fn reencode_as_png(bytes: &[u8]) -> (png: Option<Vec<u8>>)
    ensures
        match png {
            Some(p) => png_reencoding(bytes@) == Some(p@),
            None => png_reencoding(bytes@) is None,
        },
{
    decode_and_encode_png(bytes)
}

} // verus!
