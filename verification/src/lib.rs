//! Game-of-life pixel animations derived from a block identifier.
//!
//! A block identifier seeds a 16x16 board; the board is stepped as a
//! cellular automaton, every step is magnified into a raster, and the rasters
//! are encoded as a looping three-colour GIF. Two identifiers can also be
//! stacked into one board and fought out against each other.
//!
//! The request handlers of this file read a block identifier as 256 bits,
//! one for each cell of the starting board.

pub mod animation;
pub mod block_id;
pub mod site;
pub mod wrap;

use vstd::prelude::*;
use vstd::arithmetic::power::pow;
use vstd::string::StringExecFns;

pub use animation::average;
pub use animation::generate_animation;
pub use animation::generate_battle_animation;
pub use animation::generate_block_cnt;
pub use animation::giffify;
pub use animation::is_challenger_winner;
pub use animation::BlockId;
pub use animation::Identifier;
pub use block_id::block_id_from_big_int;
pub use block_id::block_id_from_big_uint;
pub use block_id::block_id_from_bytes;
pub use block_id::checked_block_id;
pub use block_id::checked_block_id_from_big_uint;
pub use site::index;
pub use site::index_file;
pub use wrap::ArgsAnimation;
pub use wrap::ArgsBattle;
pub use wrap::ArgsImage;
pub use wrap::ArgsMetadata;
pub use wrap::Metadata;
pub use wrap::MetadataStringAttribute;
pub use wrap::WrapLinkFile;

use animation::board::count_of;
use animation::board::CHALLENGER;
use animation::generate::animation_frames;
use animation::generate::battle_frames;
use animation::generate::lemma_animation_frame_size;
use animation::generate::lemma_battle_frame_size;
use animation::generate::SCALE;
use animation::giffify::frames_fit;
use animation::giffify::gif_image;
use animation::start::start_board;
use animation::start::IdentifierView;
use animation::start::HEIGHT;
use animation::start::WIDTH;
use block_id::bigint_value;
use block_id::block_bytes;
use block_id::block_id_to_string;
use block_id::decimal;

verus! {

/// Steps of the animation of one block.
pub const ANIMATION_DURATION: u32 = 100;

/// Steps of a battle.
pub const BATTLE_DURATION: u32 = 250;

/// Whether `file` is an answer that carries a GIF image.
pub open spec fn is_gif_file(file: WrapLinkFile, content: Seq<u8>) -> bool {
    &&& file._wrap_link_type@ == "file"@
    &&& file.content@ == content
    &&& file.content_type@ == "image/gif"@
}

/// The bit-mapped identifier of the number `id`.
pub open spec fn bit_mapped(id: int) -> IdentifierView {
    IdentifierView::Bits(block_bytes(id as nat))
}

/// The frames of an animation fit the image that the handlers encode them
/// into.
pub proof fn lemma_animation_fits(id: IdentifierView, duration: nat)
    ensures
        frames_fit(animation_frames(id, duration), (WIDTH * SCALE) as u16, (HEIGHT * SCALE) as u16),
{
    let frames = animation_frames(id, duration);
    assert forall|k: int| 0 <= k < frames.len() implies (#[trigger] frames[k]).len() == 256
        * 256 by {
        lemma_animation_frame_size(id, k as nat);
    }
}

/// The frames of a battle fit the image of double height that the handler
/// encodes them into.
pub proof fn lemma_battle_fits(challenger: IdentifierView, defender: IdentifierView, duration: nat)
    ensures
        frames_fit(
            battle_frames(challenger, defender, duration),
            (WIDTH * SCALE) as u16,
            (HEIGHT * SCALE * 2) as u16,
        ),
{
    let frames = battle_frames(challenger, defender, duration);
    assert forall|k: int| 0 <= k < frames.len() implies (#[trigger] frames[k]).len() == 256
        * 512 by {
        lemma_battle_frame_size(challenger, defender, k as nat);
    }
}

/// `to_string` of a `u32`: the number in decimal digits.
#[verifier::external_body]
fn u32_to_string(n: u32) -> (text: String)
    ensures
        text@ == decimal(n as nat),
{
    n.to_string()
}

fn with_id(prefix: &str, id_as_string: &String) -> (text: String)
    ensures
        text@ == prefix@ + id_as_string@,
{
    String::from_str(prefix).concat(id_as_string.as_str())
}

/// What is known of the block whose identifier reads `id_as_string` and
/// whose starting board has `blocks` occupied cells.
pub fn describe_block(id_as_string: &String, blocks: String) -> (metadata: Metadata)
    ensures
        metadata.name@ == "Pokablocks "@ + id_as_string@,
        metadata.description@ == "Pokablocks are game of life NFTs"@,
        metadata.external_url@ == "https://wrap.link/i/ens/site.pokablocks.eth/index"@,
        metadata.image@ == "https://wrap.link/i/ens/pokablocks.eth/image?id="@ + id_as_string@,
        metadata.animation_url@ == "https://wrap.link/i/ens/pokablocks.eth/animation?id="@
            + id_as_string@,
        metadata.attributes@.len() == 1,
        metadata.attributes@[0].trait_type@ == "blocks"@,
        metadata.attributes@[0].value == blocks,
{
    let mut attributes: Vec<MetadataStringAttribute> = Vec::new();
    attributes.push(
        MetadataStringAttribute { trait_type: String::from_str("blocks"), value: blocks },
    );
    Metadata {
        name: with_id("Pokablocks ", id_as_string),
        description: String::from_str("Pokablocks are game of life NFTs"),
        external_url: String::from_str("https://wrap.link/i/ens/site.pokablocks.eth/index"),
        image: with_id("https://wrap.link/i/ens/pokablocks.eth/image?id=", id_as_string),
        animation_url: with_id(
            "https://wrap.link/i/ens/pokablocks.eth/animation?id=",
            id_as_string,
        ),
        attributes,
    }
}

/// What is known of the block `args.id`: its name, where its pictures are,
/// and how many cells it starts with.
pub fn metadata(args: ArgsMetadata) -> (metadata: Metadata)
    requires
        0 <= bigint_value(args.id) < pow(256, 32),
    ensures
        metadata.name@ == "Pokablocks "@ + decimal(bigint_value(args.id) as nat),
        metadata.description@ == "Pokablocks are game of life NFTs"@,
        metadata.external_url@ == "https://wrap.link/i/ens/site.pokablocks.eth/index"@,
        metadata.image@ == "https://wrap.link/i/ens/pokablocks.eth/image?id="@ + decimal(
            bigint_value(args.id) as nat,
        ),
        metadata.animation_url@ == "https://wrap.link/i/ens/pokablocks.eth/animation?id="@
            + decimal(bigint_value(args.id) as nat),
        metadata.attributes@.len() == 1,
        metadata.attributes@[0].trait_type@ == "blocks"@,
        metadata.attributes@[0].value@ == decimal(
            count_of(start_board(bit_mapped(bigint_value(args.id)), CHALLENGER).cells, CHALLENGER),
        ),
{
    let id: BlockId = block_id_from_big_int(&args.id);
    let id_as_string: String = block_id_to_string(&id);
    let block_cnt: u32 = generate_block_cnt(&Identifier::Bits(id));
    describe_block(&id_as_string, u32_to_string(block_cnt))
}

/// The image of the block `args.id`: its animation as a GIF file. The
/// frames always fit the image, so there always is a file.
pub fn image(args: ArgsImage) -> (file: Option<WrapLinkFile>)
    requires
        0 <= bigint_value(args.id) < pow(256, 32),
    ensures
        file matches Some(f) && is_gif_file(
            f,
            gif_image(
                animation_frames(bit_mapped(bigint_value(args.id)), ANIMATION_DURATION as nat),
                (WIDTH * SCALE) as u16,
                (HEIGHT * SCALE) as u16,
            ),
        ),
{
    let id: BlockId = block_id_from_big_int(&args.id);
    let states: Vec<Vec<u8>> = generate_animation(&Identifier::Bits(id), ANIMATION_DURATION);
    proof {
        lemma_animation_fits(bit_mapped(bigint_value(args.id)), ANIMATION_DURATION as nat);
    }
    let image: Option<Vec<u8>> = giffify(&states, (WIDTH * SCALE) as u16, (HEIGHT * SCALE) as u16);
    gif_answer(image)
}

/// The animation of the block `args.id` as a GIF file: the frames of
/// `generate_animation` for the bit-mapped identifier. There always is a
/// file, and it is the file that `image` returns.
pub fn animation(args: ArgsAnimation) -> (file: Option<WrapLinkFile>)
    requires
        0 <= bigint_value(args.id) < pow(256, 32),
    ensures
        file matches Some(f) && is_gif_file(
            f,
            gif_image(
                animation_frames(bit_mapped(bigint_value(args.id)), ANIMATION_DURATION as nat),
                (WIDTH * SCALE) as u16,
                (HEIGHT * SCALE) as u16,
            ),
        ),
{
    let id: BlockId = block_id_from_big_int(&args.id);
    let states: Vec<Vec<u8>> = generate_animation(&Identifier::Bits(id), ANIMATION_DURATION);
    proof {
        lemma_animation_fits(bit_mapped(bigint_value(args.id)), ANIMATION_DURATION as nat);
    }
    let image: Option<Vec<u8>> = giffify(&states, (WIDTH * SCALE) as u16, (HEIGHT * SCALE) as u16);
    gif_answer(image)
}

/// The battle of the block `args.challenger_id` against the block
/// `args.defender_id` as a GIF file of twice the height: the frames of
/// `generate_battle_animation` for the bit-mapped identifiers. There always
/// is a file.
pub fn battle(args: ArgsBattle) -> (file: Option<WrapLinkFile>)
    requires
        0 <= bigint_value(args.challenger_id) < pow(256, 32),
        0 <= bigint_value(args.defender_id) < pow(256, 32),
    ensures
        file matches Some(f) && is_gif_file(
            f,
            gif_image(
                battle_frames(
                    bit_mapped(bigint_value(args.challenger_id)),
                    bit_mapped(bigint_value(args.defender_id)),
                    BATTLE_DURATION as nat,
                ),
                (WIDTH * SCALE) as u16,
                (HEIGHT * SCALE * 2) as u16,
            ),
        ),
{
    let challenger_id: BlockId = block_id_from_big_int(&args.challenger_id);
    let defender_id: BlockId = block_id_from_big_int(&args.defender_id);
    let states: Vec<Vec<u8>> = generate_battle_animation(
        &Identifier::Bits(challenger_id),
        &Identifier::Bits(defender_id),
        BATTLE_DURATION,
    );
    proof {
        lemma_battle_fits(
            bit_mapped(bigint_value(args.challenger_id)),
            bit_mapped(bigint_value(args.defender_id)),
            BATTLE_DURATION as nat,
        );
    }
    let image: Option<Vec<u8>> = giffify(
        &states,
        (WIDTH * SCALE) as u16,
        (HEIGHT * SCALE * 2) as u16,
    );
    gif_answer(image)
}

/// The answer to a request for a picture, from what the encoding gave:
/// the file that carries the image where there is one, and no answer where
/// there is none.
pub fn gif_answer(image: Option<Vec<u8>>) -> (file: Option<WrapLinkFile>)
    ensures
        match image {
            Some(bytes) => file matches Some(f) && is_gif_file(f, bytes@),
            None => file is None,
        },
{
    match image {
        Some(image) => Some(create_gif_file(image)),
        None => None,
    }
}

/// The answer that carries `buffer` as a GIF image.
pub fn create_gif_file(buffer: Vec<u8>) -> (file: WrapLinkFile)
    ensures
        is_gif_file(file, buffer@),
{
    WrapLinkFile {
        _wrap_link_type: String::from_str("file"),
        content: buffer,
        content_type: String::from_str("image/gif"),
    }
}

} // verus!
