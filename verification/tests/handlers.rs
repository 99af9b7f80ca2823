use gif::{ColorOutput, DecodeOptions};
use num_bigint::{BigInt, BigUint, Sign};
use pokablocks::animation::generate::{generate_animation, generate_battle_animation};
use pokablocks::animation::start::Identifier;
use pokablocks::site::{index, index_file};
use pokablocks::wrap::{ArgsAnimation, ArgsBattle, ArgsImage, ArgsMetadata};
use pokablocks::{
    animation, battle, block_id_from_big_int, block_id_from_big_uint, block_id_from_bytes,
    checked_block_id, checked_block_id_from_big_uint, create_gif_file, describe_block, gif_answer,
    image, metadata, ANIMATION_DURATION, BATTLE_DURATION,
};

fn mixed() -> [u8; 32] {
    let mut bits = [0u8; 32];
    for i in 0..32usize {
        bits[i] = ((i * 7 + 3) % 256) as u8;
    }
    bits
}

fn decode(image: &Vec<u8>) -> (u16, u16, Vec<Vec<u8>>) {
    let mut options = DecodeOptions::new();
    options.set_color_output(ColorOutput::Indexed);
    let mut decoder = options.read_info(&image[..]).unwrap();
    let mut frames = Vec::new();
    while let Some(frame) = decoder.read_next_frame().unwrap() {
        frames.push(frame.buffer.to_vec());
    }
    (decoder.width(), decoder.height(), frames)
}

#[test]
fn durations() {
    assert_eq!(ANIMATION_DURATION, 100);
    assert_eq!(BATTLE_DURATION, 250);
}

#[test]
fn bytes_are_padded_in_front() {
    let mut expected = [0u8; 32];
    expected[30] = 4;
    expected[31] = 101;
    assert_eq!(block_id_from_bytes(&vec![4, 101]), Some(expected));
    assert_eq!(block_id_from_bytes(&vec![]), Some([0u8; 32]));
    assert_eq!(block_id_from_bytes(&vec![0]), Some([0u8; 32]));
    assert_eq!(block_id_from_bytes(&vec![9; 32]), Some([9u8; 32]));
    assert_eq!(block_id_from_bytes(&vec![9; 33]), None);
    assert_eq!(block_id_from_bytes(&vec![0; 40]), None);
}

#[test]
fn block_id_is_padded_in_front() {
    let id = block_id_from_big_uint(&BigUint::from(1125u32));
    let mut expected = [0u8; 32];
    expected[30] = 4;
    expected[31] = 101;
    assert_eq!(id, expected);
}

#[test]
fn block_id_of_zero() {
    assert_eq!(block_id_from_big_uint(&BigUint::from(0u32)), [0u8; 32]);
    assert_eq!(block_id_from_big_int(&BigInt::from(0)), [0u8; 32]);
}

#[test]
fn block_id_of_the_largest_identifier() {
    let largest = BigUint::from_bytes_be(&[0xff; 32]);
    assert_eq!(block_id_from_big_uint(&largest), [0xffu8; 32]);
}

#[test]
fn block_id_keeps_thirty_two_bytes_as_they_are() {
    let bytes = mixed();
    assert_eq!(block_id_from_big_uint(&BigUint::from_bytes_be(&bytes)), bytes);
    assert_eq!(block_id_from_big_int(&BigInt::from_bytes_be(Sign::Plus, &bytes)), bytes);
}

#[test]
fn block_id_of_a_power_of_two() {
    let id = block_id_from_big_int(&(BigInt::from(1) << 255));
    let mut expected = [0u8; 32];
    expected[0] = 0x80;
    assert_eq!(id, expected);
    let small = block_id_from_big_int(&(BigInt::from(1) << 8));
    let mut expected = [0u8; 32];
    expected[30] = 1;
    assert_eq!(small, expected);
}

#[test]
fn checked_block_id_refuses_what_has_no_thirty_two_bytes() {
    assert_eq!(checked_block_id(&BigInt::from(-1)), None);
    assert_eq!(checked_block_id(&(BigInt::from(1) << 256)), None);
    assert_eq!(checked_block_id(&(BigInt::from(1) << 300)), None);
    assert_eq!(checked_block_id(&BigInt::from(0)), Some([0u8; 32]));
    assert_eq!(checked_block_id(&((BigInt::from(1) << 256) - 1)), Some([0xffu8; 32]));
    let mut expected = [0u8; 32];
    expected[31] = 7;
    assert_eq!(checked_block_id(&BigInt::from(7)), Some(expected));
}

#[test]
fn describe_block_fills_in_the_identifier() {
    let data = describe_block(&"42".to_string(), "17".to_string());
    assert_eq!(data.name, "Pokablocks 42");
    assert_eq!(data.description, "Pokablocks are game of life NFTs");
    assert_eq!(data.external_url, "https://wrap.link/i/ens/site.pokablocks.eth/index");
    assert_eq!(data.image, "https://wrap.link/i/ens/pokablocks.eth/image?id=42");
    assert_eq!(data.animation_url, "https://wrap.link/i/ens/pokablocks.eth/animation?id=42");
    assert_eq!(data.attributes.len(), 1);
    assert_eq!(data.attributes[0].trait_type, "blocks");
    assert_eq!(data.attributes[0].value, "17");
}

#[test]
fn checked_block_id_from_big_uint_refuses_more_than_256_bits() {
    let one = BigUint::from(1u32);
    assert_eq!(checked_block_id_from_big_uint(&(one.clone() << 256)), None);
    assert_eq!(checked_block_id_from_big_uint(&(one.clone() << 300)), None);
    assert_eq!(checked_block_id_from_big_uint(&BigUint::from(0u32)), Some([0u8; 32]));
    assert_eq!(
        checked_block_id_from_big_uint(&((one.clone() << 256) - one.clone())),
        Some([0xffu8; 32])
    );
    let mut expected = [0u8; 32];
    expected[30] = 4;
    expected[31] = 101;
    assert_eq!(checked_block_id_from_big_uint(&BigUint::from(1125u32)), Some(expected));
    let mut top = [0u8; 32];
    top[0] = 0x80;
    assert_eq!(checked_block_id_from_big_uint(&(one << 255)), Some(top));
}

#[test]
fn metadata_of_a_block() {
    let id = BigInt::from_bytes_be(Sign::Plus, &mixed());
    let data = metadata(ArgsMetadata { id });
    let number =
        "1374724996404584434709677822786729178973078479998070210510745941624128198108";
    assert_eq!(data.name, format!("Pokablocks {}", number));
    assert_eq!(data.description, "Pokablocks are game of life NFTs");
    assert_eq!(data.external_url, "https://wrap.link/i/ens/site.pokablocks.eth/index");
    assert_eq!(data.image, format!("https://wrap.link/i/ens/pokablocks.eth/image?id={}", number));
    assert_eq!(
        data.animation_url,
        format!("https://wrap.link/i/ens/pokablocks.eth/animation?id={}", number)
    );
    assert_eq!(data.attributes.len(), 1);
    assert_eq!(data.attributes[0].trait_type, "blocks");
    assert_eq!(data.attributes[0].value, "120");
}

#[test]
fn metadata_of_the_extremes() {
    let none = metadata(ArgsMetadata { id: BigInt::from(0) });
    assert_eq!(none.name, "Pokablocks 0");
    assert_eq!(none.attributes[0].value, "0");
    let all = metadata(ArgsMetadata { id: (BigInt::from(1) << 256) - 1 });
    assert_eq!(
        all.name,
        "Pokablocks 115792089237316195423570985008687907853269984665640564039457584007913129639935"
    );
    assert_eq!(all.attributes[0].value, "256");
    let seven = metadata(ArgsMetadata { id: BigInt::from(7) });
    assert_eq!(seven.image, "https://wrap.link/i/ens/pokablocks.eth/image?id=7");
    assert_eq!(seven.attributes[0].value, "3");
}

#[test]
fn create_gif_file_wraps_the_bytes() {
    let file = create_gif_file(vec![1, 2, 3]);
    assert_eq!(file._wrap_link_type, "file");
    assert_eq!(file.content, vec![1, 2, 3]);
    assert_eq!(file.content_type, "image/gif");
}

#[test]
fn gif_answer_follows_the_encoder() {
    let file = gif_answer(Some(vec![0x47, 0x49, 0x46])).unwrap();
    assert_eq!(file._wrap_link_type, "file");
    assert_eq!(file.content, vec![0x47, 0x49, 0x46]);
    assert_eq!(file.content_type, "image/gif");
    let empty = gif_answer(Some(vec![])).unwrap();
    assert_eq!(empty.content, Vec::<u8>::new());
    assert!(gif_answer(None).is_none());
}

#[test]
fn image_is_the_animation_of_the_bit_mapped_identifier() {
    let bytes = mixed();
    let file = image(ArgsImage { id: BigInt::from_bytes_be(Sign::Plus, &bytes) }).unwrap();
    assert_eq!(file._wrap_link_type, "file");
    assert_eq!(file.content_type, "image/gif");
    let (width, height, frames) = decode(&file.content);
    assert_eq!(width, 256);
    assert_eq!(height, 256);
    assert_eq!(frames.len(), 100);
    assert_eq!(frames, generate_animation(&Identifier::Bits(bytes), 100));
}

#[test]
fn animation_is_the_same_file_as_image() {
    let id = BigInt::from(123456789u64);
    let still = image(ArgsImage { id: id.clone() }).unwrap();
    let moving = animation(ArgsAnimation { id }).unwrap();
    assert_eq!(moving._wrap_link_type, "file");
    assert_eq!(moving.content_type, "image/gif");
    assert_eq!(moving.content, still.content);
}

#[test]
fn battle_is_the_battle_of_the_bit_mapped_identifiers() {
    let challenger = mixed();
    let mut defender = [0u8; 32];
    for i in 0..32usize {
        defender[i] = i as u8;
    }
    let file = battle(ArgsBattle {
        challenger_id: BigInt::from_bytes_be(Sign::Plus, &challenger),
        defender_id: BigInt::from_bytes_be(Sign::Plus, &defender),
    })
    .unwrap();
    assert_eq!(file._wrap_link_type, "file");
    assert_eq!(file.content_type, "image/gif");
    let (width, height, frames) = decode(&file.content);
    assert_eq!(width, 256);
    assert_eq!(height, 512);
    assert_eq!(frames.len(), 250);
    let expected = generate_battle_animation(
        &Identifier::Bits(challenger),
        &Identifier::Bits(defender),
        250,
    );
    assert_eq!(frames, expected);
}

#[test]
fn index_file_names_the_front_page() {
    let file = index_file();
    assert_eq!(file.uri, "wrap://ens/site.pokablocks.eth");
    assert_eq!(file.file_path, "site/index.html");
}

#[test]
fn index_serves_the_page_as_html() {
    let response = index(Ok(Some(b"<html></html>".to_vec()))).unwrap();
    assert_eq!(response.data, Some(b"<html></html>".to_vec()));
    let headers = response.headers.unwrap();
    assert_eq!(headers.len(), 1);
    assert_eq!(headers[0].name, "Content-Type");
    assert_eq!(headers[0].value, "text/html");
}

#[test]
fn index_has_no_response_without_the_page() {
    assert!(index(Ok(None)).is_none());
    assert!(index(Err("not found".to_string())).is_none());
}
