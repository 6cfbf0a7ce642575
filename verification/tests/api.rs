use internet_roadtrip_pathfinder::math::angle::Angle;
use internet_roadtrip_pathfinder::model::Location;
use internet_roadtrip_pathfinder::model::SizedTile;
use internet_roadtrip_pathfinder::model::TileBounds;
use internet_roadtrip_pathfinder::streetview::api::after_attempt;
use internet_roadtrip_pathfinder::streetview::api::decode_protobuf_pano;
use internet_roadtrip_pathfinder::streetview::api::encode_protobuf_pano;
use internet_roadtrip_pathfinder::streetview::api::envelope_payload;
use internet_roadtrip_pathfinder::streetview::api::is_third_party_pano;
use internet_roadtrip_pathfinder::streetview::api::is_too_many;
use internet_roadtrip_pathfinder::streetview::api::metadata_batches;
use internet_roadtrip_pathfinder::streetview::api::request_radius;
use internet_roadtrip_pathfinder::streetview::api::select_in_tile;
use internet_roadtrip_pathfinder::streetview::api::Attempt;

fn loc(lat: i32, lng: i32) -> Location {
    Location::new(Angle::from_bits(lat), Angle::from_bits(lng))
}

#[test]
fn third_party_ids_are_told_by_prefix_or_length() {
    assert!(is_third_party_pano("CIHM0ogKEICAgIDa8_yLwgE"));
    assert!(is_third_party_pano("CIHM0og"));
    assert!(is_third_party_pano("CIABxyz"));
    assert!(is_third_party_pano("AbCdEfGhIjKlMnOpQrStUvW"));
    assert!(!is_third_party_pano("AbCdEfGhIjKlMnOpQrStUv"));
    assert!(!is_third_party_pano("CIHM0o"));
    assert!(!is_third_party_pano("CIA"));
    assert!(!is_third_party_pano(""));
}

#[test]
fn an_envelope_is_opened() {
    assert_eq!(
        decode_protobuf_pano("CAoSF0NJSE0wb2dLRUlDQWdJRGE4X3lMd2dF"),
        "CIHM0ogKEICAgIDa8_yLwgE"
    );
}

#[test]
fn an_envelope_with_dots_for_padding_is_opened() {
    // the envelope of a 22-byte id is 26 bytes long, which base64 pads
    let id = "AbCdEfGhIjKlMnOpQrStUv";
    let wrapped = encode_protobuf_pano(id);
    assert!(wrapped.starts_with("CAoS"));
    assert!(wrapped.ends_with('.'));
    assert!(!wrapped.contains('='));
    assert_eq!(decode_protobuf_pano(&wrapped), id);
}

#[test]
fn other_ids_are_returned_unchanged() {
    assert_eq!(decode_protobuf_pano("AbCdEfGhIjKlMnOpQrStUv"), "AbCdEfGhIjKlMnOpQrStUv");
    assert_eq!(decode_protobuf_pano("CIHM0ogKEICAgIDa8_yLwgE"), "CIHM0ogKEICAgIDa8_yLwgE");
    // begins with the prefix but is not longer than 22 bytes
    assert_eq!(decode_protobuf_pano("CAoSBWhlbGxv"), "CAoSBWhlbGxv");
    assert_eq!(decode_protobuf_pano("CAoSxxxxxxxxxxxxxxxxxx"), "CAoSxxxxxxxxxxxxxxxxxx");
    // long enough, but not base64
    assert_eq!(
        decode_protobuf_pano("CAoS!!!!!!!!!!!!!!!!!!!!!!!!"),
        "CAoS!!!!!!!!!!!!!!!!!!!!!!!!"
    );
    assert_eq!(decode_protobuf_pano(""), "");
}

#[test]
fn an_envelope_that_ends_early_leaves_the_id_unchanged() {
    // 08 0a 12 7f and then fewer than 0x7f bytes
    let id = "CAoSf0FBQUFBQUFBQUFBQUFBQUFBQUFB";
    assert_eq!(decode_protobuf_pano(id), id);
}

#[test]
fn ids_are_put_into_an_envelope() {
    assert_eq!(
        encode_protobuf_pano("CIHM0ogKEICAgIDa8_yLwgE"),
        "CAoSF0NJSE0wb2dLRUlDQWdJRGE4X3lMd2dF"
    );
    assert_eq!(encode_protobuf_pano("hello"), "CAoSBWhlbGxv");
    assert_eq!(encode_protobuf_pano("CAoSBWhlbGxv"), "CAoSBWhlbGxv");
}

#[test]
fn payload_follows_the_first_tag() {
    assert_eq!(envelope_payload(&[8, 10, 0x12, 3, 1, 2, 3, 4]), Some(vec![1, 2, 3]));
    assert_eq!(envelope_payload(&[0x12, 2, 0x12, 0]), Some(vec![0x12, 0]));
    assert_eq!(envelope_payload(&[0x12, 0]), Some(vec![]));
    assert_eq!(envelope_payload(&[8, 10, 3, 1, 2, 3]), None);
    assert_eq!(envelope_payload(&[8, 0x12]), None);
    assert_eq!(envelope_payload(&[0x12, 3, 1, 2]), None);
    assert_eq!(envelope_payload(&[]), None);
}

#[test]
fn radius_adds_five_metres_and_rounds_up() {
    assert_eq!(request_radius(0), 5);
    assert_eq!(request_radius(1), 6);
    assert_eq!(request_radius(1000), 6);
    assert_eq!(request_radius(432_100), 438);
    assert_eq!(request_radius(u64::MAX), u32::MAX);
}

#[test]
fn a_full_answer_is_dropped_unless_the_tile_is_the_finest() {
    let coarse = SizedTile { size: 15, x: 0, y: 0 };
    let finest = SizedTile { size: 16, x: 0, y: 0 };
    assert!(is_too_many(2900, &coarse));
    assert!(is_too_many(3000, &coarse));
    assert!(!is_too_many(2899, &coarse));
    assert!(!is_too_many(2900, &finest));
    assert!(!is_too_many(3000, &finest));
}

#[test]
fn a_request_is_given_up_after_ten_attempts() {
    assert_eq!(after_attempt(1, true), Attempt::Read);
    assert_eq!(after_attempt(11, true), Attempt::Read);
    assert_eq!(after_attempt(1, false), Attempt::Retry);
    assert_eq!(after_attempt(9, false), Attempt::Retry);
    assert_eq!(after_attempt(10, false), Attempt::GiveUp);
    assert_eq!(after_attempt(11, false), Attempt::GiveUp);
}

#[test]
fn metadata_is_asked_for_in_batches_of_200() {
    assert_eq!(metadata_batches(0), vec![]);
    assert_eq!(metadata_batches(1), vec![(0, 1)]);
    assert_eq!(metadata_batches(200), vec![(0, 200)]);
    assert_eq!(metadata_batches(201), vec![(0, 200), (200, 201)]);
    assert_eq!(metadata_batches(450), vec![(0, 200), (200, 400), (400, 450)]);
}

#[test]
fn panos_of_a_tile_are_picked_and_put_in_order_of_latitude() {
    let bounds = TileBounds::from_corners(loc(0, 0), loc(100, 100));
    let locations = vec![
        loc(50, 10),
        loc(101, 10),
        loc(20, 10),
        loc(50, 90),
        loc(20, -1),
        loc(0, 100),
        loc(100, 0),
        loc(50, 50),
    ];
    assert_eq!(select_in_tile(&locations, &bounds), vec![5, 2, 0, 3, 7, 6]);
    assert_eq!(select_in_tile(&vec![], &bounds), vec![]);
    assert_eq!(select_in_tile(&vec![loc(-1, 0)], &bounds), vec![]);
}

#[test]
fn what_is_not_utf8_in_an_envelope_is_replaced() {
    // 08 0a 12 14, nineteen times 'A' and the byte ff
    assert_eq!(
        decode_protobuf_pano("CAoSFEFBQUFBQUFBQUFBQUFBQUFBQUH/"),
        "AAAAAAAAAAAAAAAAAAA\u{fffd}"
    );
    assert_eq!(
        decode_protobuf_pano("CAoSFEFBQUFBQUFBQUFBQUFBQUFBQUFB"),
        "AAAAAAAAAAAAAAAAAAAA"
    );
}
