use internet_roadtrip_pathfinder::db::decode_getmetadata;
use internet_roadtrip_pathfinder::db::decode_getmetadata_location;
use internet_roadtrip_pathfinder::db::decode_listentityphotos;
use internet_roadtrip_pathfinder::db::encode_getmetadata;
use internet_roadtrip_pathfinder::db::encode_listentityphotos;
use internet_roadtrip_pathfinder::db::get_pano_count;
use internet_roadtrip_pathfinder::db::get_pano_id_with_txn;
use internet_roadtrip_pathfinder::db::getmetadata_key;
use internet_roadtrip_pathfinder::db::is_listed;
use internet_roadtrip_pathfinder::db::migrate::decode_v2_getmetadata;
use internet_roadtrip_pathfinder::db::migrate::decode_v2_listentityphotos;
use internet_roadtrip_pathfinder::db::migrate::decode_v3_listentityphotos;
use internet_roadtrip_pathfinder::db::migrate::encode_v3_listentityphotos;
use internet_roadtrip_pathfinder::db::migrate::rekey_getmetadata;
use internet_roadtrip_pathfinder::db::migrate::try_migrate_from_version;
use internet_roadtrip_pathfinder::db::migrate::OldLocation;
use internet_roadtrip_pathfinder::db::migrate::Migration;
use internet_roadtrip_pathfinder::db::migrate::CURRENT_VERSION;
use internet_roadtrip_pathfinder::db::next_pano_id;
use internet_roadtrip_pathfinder::db::startup;
use internet_roadtrip_pathfinder::db::Interned;
use internet_roadtrip_pathfinder::db::PANO_ID_LIMIT;
use internet_roadtrip_pathfinder::db::RowError;
use internet_roadtrip_pathfinder::db::SettingsError;
use internet_roadtrip_pathfinder::db::Startup;
use internet_roadtrip_pathfinder::math::angle::Angle;
use internet_roadtrip_pathfinder::model::GetMetadataResponse;
use internet_roadtrip_pathfinder::model::Location;
use internet_roadtrip_pathfinder::model::Pano;
use internet_roadtrip_pathfinder::model::PanoId;
use internet_roadtrip_pathfinder::model::PanoLink;
use internet_roadtrip_pathfinder::model::PanoWithBothLocations;
use internet_roadtrip_pathfinder::model::SizedTile;

fn loc(lat: i32, lng: i32) -> Location {
    Location::new(Angle::from_bits(lat), Angle::from_bits(lng))
}

fn link(id: u32, heading: u32, lat: i32, lng: i32) -> PanoLink {
    PanoLink { pano: Pano { id: PanoId(id), loc: loc(lat, lng) }, heading }
}

fn same_links(a: &[PanoLink], b: &[PanoLink]) -> bool {
    a.len() == b.len()
        && a.iter().zip(b).all(|(x, y)| {
            x.pano.id == y.pano.id && x.pano.loc == y.pano.loc && x.heading == y.heading
        })
}

#[test]
fn metadata_row_has_the_stored_layout() {
    let res = GetMetadataResponse {
        id: PanoId(7),
        loc: loc(1, -2),
        links: vec![link(0x0102_0304, 0x42b4_0000, 256, -1)],
    };
    let row = encode_getmetadata(&res);
    assert_eq!(
        row,
        vec![
            1, 0, 0, 0, // lat
            0xfe, 0xff, 0xff, 0xff, // lng
            1, // one link
            4, 3, 2, 1, // id
            0, 0, 0xb4, 0x42, // heading: 90.0 as a single
            0, 1, 0, 0, // lat
            0xff, 0xff, 0xff, 0xff, // lng
        ]
    );
    let (this_loc, links) = decode_getmetadata(&row).unwrap();
    assert_eq!(this_loc, res.loc);
    assert!(same_links(&links, &res.links));
    assert_eq!(decode_getmetadata_location(&row), Ok(res.loc));
}

#[test]
fn metadata_row_without_links() {
    let res = GetMetadataResponse { id: PanoId(7), loc: loc(i32::MIN, i32::MAX), links: vec![] };
    let row = encode_getmetadata(&res);
    assert_eq!(row, vec![0, 0, 0, 0x80, 0xff, 0xff, 0xff, 0x7f, 0]);
    let (this_loc, links) = decode_getmetadata(&row).unwrap();
    assert_eq!(this_loc, res.loc);
    assert!(links.is_empty());
}

#[test]
fn metadata_row_with_many_links_uses_the_long_count() {
    for count in [254usize, 255, 256, 1000] {
        let links: Vec<PanoLink> =
            (0..count).map(|i| link(i as u32, i as u32 * 3, i as i32, -(i as i32))).collect();
        let res = GetMetadataResponse { id: PanoId(1), loc: loc(5, 6), links };
        let row = encode_getmetadata(&res);
        if count >= 255 {
            assert_eq!(row[8], 255);
            assert_eq!(&row[9..13], &(count as u32).to_le_bytes());
            assert_eq!(row.len(), 13 + 16 * count);
        } else {
            assert_eq!(row[8], 254);
            assert_eq!(row.len(), 9 + 16 * count);
        }
        let (this_loc, decoded) = decode_getmetadata(&row).unwrap();
        assert_eq!(this_loc, res.loc);
        assert!(same_links(&decoded, &res.links));
    }
}

#[test]
fn truncated_metadata_rows_are_refused() {
    let res = GetMetadataResponse {
        id: PanoId(7),
        loc: loc(1, -2),
        links: vec![link(1, 2, 3, 4), link(5, 6, 7, 8)],
    };
    let row = encode_getmetadata(&res);
    for len in 0..row.len() {
        assert_eq!(decode_getmetadata(&row[..len]).err(), Some(RowError::Truncated));
    }
    assert!(decode_getmetadata(&row).is_ok());
    assert_eq!(decode_getmetadata(&[0, 0, 0, 0, 0, 0, 0, 0, 255, 1, 0, 0]).err(), Some(RowError::Truncated));
    assert_eq!(decode_getmetadata_location(&row[..7]), Err(RowError::Truncated));
    let mut longer = row.clone();
    longer.push(9);
    let (_, links) = decode_getmetadata(&longer).unwrap();
    assert_eq!(links.len(), 2);
}

#[test]
fn tile_row_has_the_stored_layout() {
    let panos = vec![PanoWithBothLocations { id: PanoId(0x8000_0001), search_loc: loc(1, 2), actual_loc: loc(-1, 3) }];
    let row = encode_listentityphotos(Some(&panos));
    assert_eq!(
        row,
        vec![
            1, //
            1, 0, 0, 0x80, //
            1, 0, 0, 0, 2, 0, 0, 0, //
            0xff, 0xff, 0xff, 0xff, 3, 0, 0, 0,
        ]
    );
    assert!(is_listed(&row));
    let decoded = decode_listentityphotos(&row).unwrap().unwrap();
    assert_eq!(decoded.len(), 1);
    assert_eq!(decoded[0].id, PanoId(0x8000_0001));
    assert_eq!(decoded[0].search_loc, loc(1, 2));
    assert_eq!(decoded[0].actual_loc, loc(-1, 3));
}

#[test]
fn tile_row_marks_too_many() {
    let row = encode_listentityphotos(None);
    assert_eq!(row, vec![0]);
    assert!(!is_listed(&row));
    assert_eq!(decode_listentityphotos(&row).unwrap().map(|p| p.len()), None);
    assert_eq!(decode_listentityphotos(&[0, 1, 2]).unwrap().map(|p| p.len()), None);
    assert_eq!(decode_listentityphotos(&[1]).unwrap().map(|p| p.len()), Some(0));
    assert!(!is_listed(&[]));
}

#[test]
fn broken_tile_rows_are_refused() {
    assert_eq!(decode_listentityphotos(&[]).err(), Some(RowError::Truncated));
    assert_eq!(decode_listentityphotos(&[1, 0, 0]).err(), Some(RowError::Truncated));
    let row = vec![1u8; 22];
    assert_eq!(decode_listentityphotos(&row).err(), Some(RowError::Truncated));
    let row = vec![2u8; 41];
    assert_eq!(decode_listentityphotos(&row).unwrap().map(|p| p.len()), Some(2));
}

#[test]
fn tile_key_has_the_stored_layout() {
    let tile = SizedTile { size: 14, x: 0x0102_0304, y: 5 };
    let key = SizedTile::bytes_encode(&tile);
    assert_eq!(key, vec![14, 4, 3, 2, 1, 5, 0, 0, 0]);
    assert_eq!(SizedTile::bytes_decode(&key), Ok(tile));
    assert_eq!(SizedTile::bytes_decode(&key[..8]), Err(RowError::Truncated));
}

#[test]
fn metadata_key_is_big_endian() {
    assert_eq!(getmetadata_key(PanoId(0x0102_0304)), vec![1, 2, 3, 4]);
    assert!(getmetadata_key(PanoId(255)) < getmetadata_key(PanoId(256)));
}

#[test]
fn counter_reads_as_zero_when_absent() {
    assert_eq!(get_pano_count(&[]), Ok(0));
    assert_eq!(get_pano_count(&[1, 1, 0, 0]), Ok(257));
    assert_eq!(get_pano_count(&[1, 1, 0]), Err(SettingsError::Malformed));
}

#[test]
fn next_id_takes_the_counter_and_raises_it() {
    let fresh = next_pano_id(&[], false);
    assert_eq!(fresh.id, PanoId(0));
    assert_eq!(fresh.next_counter, vec![1, 0, 0, 0]);
    let fresh = next_pano_id(&[0xff, 0, 0, 0], true);
    assert_eq!(fresh.id, PanoId(0x8000_00ff));
    assert!(fresh.id.is_photosphere());
    assert_eq!(fresh.next_counter, vec![0, 1, 0, 0]);
    let last = next_pano_id(&[0xff, 0xff, 0xff, 0x7f], true);
    assert_eq!(last.id, PanoId(0xffff_ffff));
    assert_eq!(last.next_counter, vec![0, 0, 0, 0x80]);
}

#[test]
fn the_counter_tells_when_no_id_is_left() {
    // the last counter that leaves an id, and the first that does not
    assert_eq!(get_pano_count(&[0xff, 0xff, 0xff, 0x7f]), Ok(PANO_ID_LIMIT - 1));
    assert_eq!(get_pano_count(&[0, 0, 0, 0x80]), Ok(PANO_ID_LIMIT));
    assert_eq!(get_pano_count(&[1, 2]), Err(SettingsError::Malformed));
}

#[test]
fn interning_keeps_a_known_handle() {
    match get_pano_id_with_txn("abc", Some(41), &[9, 0, 0, 0]) {
        Interned::Known(id) => assert_eq!(id, PanoId(41)),
        Interned::Fresh(_) => panic!("a known id was interned again"),
    }
    // the counter is not read for a known id
    match get_pano_id_with_txn("abc", Some(41), &[0, 0, 0, 0x80]) {
        Interned::Known(id) => assert_eq!(id, PanoId(41)),
        Interned::Fresh(_) => panic!("a known id was interned again"),
    }
}

#[test]
fn interning_marks_third_party_ids() {
    match get_pano_id_with_txn("CIHM0ogKEICAgIDa8_yLwgE", None, &[9, 0, 0, 0]) {
        Interned::Fresh(fresh) => {
            assert_eq!(fresh.id, PanoId(0x8000_0009));
            assert_eq!(fresh.next_counter, vec![10, 0, 0, 0]);
        }
        Interned::Known(_) => panic!("an unknown id was taken as known"),
    }
    match get_pano_id_with_txn("AbCdEfGhIjKlMnOpQrStUv", None, &[9, 0, 0, 0]) {
        Interned::Fresh(fresh) => assert_eq!(fresh.id, PanoId(9)),
        Interned::Known(_) => panic!("an unknown id was taken as known"),
    }
}

#[test]
fn a_new_store_gets_the_current_version() {
    match startup(true, &[]).unwrap() {
        Startup::Initialize(bytes) => assert_eq!(bytes, vec![6, 0, 0, 0]),
        _ => panic!("a new store must be initialized"),
    }
}

#[test]
fn an_old_store_is_migrated() {
    assert!(matches!(startup(false, &[6, 0, 0, 0]), Ok(Startup::Ready)));
    assert!(matches!(startup(false, &[3, 0, 0, 0]), Ok(Startup::Migrate(3))));
    assert!(matches!(startup(false, &[]), Ok(Startup::Migrate(0))));
    assert!(matches!(startup(false, &[7, 0, 0, 0]), Ok(Startup::Migrate(7))));
    assert!(matches!(startup(false, &[7, 0]), Err(SettingsError::Malformed)));
}

#[test]
fn migrations_run_from_the_stored_version_on() {
    assert_eq!(CURRENT_VERSION, 6);
    assert_eq!(
        try_migrate_from_version(0),
        vec![
            Migration::V0ToV1,
            Migration::V1ToV2,
            Migration::V2ToV3,
            Migration::V3ToV4,
            Migration::V4ToV5,
            Migration::V5ToV6,
        ]
    );
    assert_eq!(try_migrate_from_version(4), vec![Migration::V4ToV5, Migration::V5ToV6]);
    assert_eq!(try_migrate_from_version(5), vec![Migration::V5ToV6]);
    assert_eq!(try_migrate_from_version(6), vec![]);
}

fn old_loc_bytes(lat: f64, lng: f64) -> Vec<u8> {
    let mut bytes = lat.to_le_bytes().to_vec();
    bytes.extend(lng.to_le_bytes());
    bytes
}

#[test]
fn old_metadata_rows_hold_locations_as_doubles() {
    let mut row = old_loc_bytes(47.5, -70.25);
    row.push(1);
    row.extend([7, 0, 0, 0]);
    row.extend(90.0f32.to_le_bytes());
    row.extend(old_loc_bytes(-1.0, 2.0));
    let (this_loc, links) = decode_v2_getmetadata(&row).unwrap();
    assert_eq!(this_loc, OldLocation { lat: 47.5f64.to_bits(), lng: (-70.25f64).to_bits() });
    assert_eq!(links.len(), 1);
    assert_eq!(links[0].pano.id, PanoId(7));
    assert_eq!(links[0].heading, 0x42b4_0000);
    assert_eq!(links[0].pano.loc, OldLocation { lat: (-1.0f64).to_bits(), lng: 2.0f64.to_bits() });
    for len in 0..row.len() {
        assert_eq!(decode_v2_getmetadata(&row[..len]).err(), Some(RowError::Truncated));
    }
    let mut long = old_loc_bytes(0.0, 0.0);
    long.extend([255, 0, 1, 0, 0]);
    assert_eq!(decode_v2_getmetadata(&long).err(), Some(RowError::Truncated));
    long.extend(vec![0u8; 24 * 256]);
    assert_eq!(decode_v2_getmetadata(&long).unwrap().1.len(), 256);
}

#[test]
fn old_tile_rows_hold_locations_as_doubles() {
    let mut row = vec![1u8, 9, 0, 0, 0];
    row.extend(old_loc_bytes(1.5, -2.5));
    let panos = decode_v2_listentityphotos(&row).unwrap().unwrap();
    assert_eq!(panos.len(), 1);
    assert_eq!(panos[0].id, PanoId(9));
    assert_eq!(panos[0].loc, OldLocation { lat: 1.5f64.to_bits(), lng: (-2.5f64).to_bits() });
    assert!(decode_v2_listentityphotos(&[0]).unwrap().is_none());
    assert_eq!(decode_v2_listentityphotos(&[]).err(), Some(RowError::Truncated));
    assert_eq!(decode_v2_listentityphotos(&row[..20]).err(), Some(RowError::Truncated));
}

#[test]
fn tile_rows_with_one_location_read_back() {
    let panos = vec![
        Pano { id: PanoId(1), loc: loc(2, -3) },
        Pano { id: PanoId(0x8000_0000), loc: loc(i32::MIN, i32::MAX) },
    ];
    let row = encode_v3_listentityphotos(Some(&panos));
    assert_eq!(row.len(), 25);
    assert_eq!(&row[..13], &[1, 1, 0, 0, 0, 2, 0, 0, 0, 0xfd, 0xff, 0xff, 0xff]);
    let decoded = decode_v3_listentityphotos(&row).unwrap().unwrap();
    assert_eq!(decoded.len(), 2);
    assert_eq!(decoded[1].id, PanoId(0x8000_0000));
    assert_eq!(decoded[1].loc, loc(i32::MIN, i32::MAX));
    assert_eq!(decoded[0].loc, loc(2, -3));
    assert_eq!(encode_v3_listentityphotos(None), vec![0]);
    assert!(decode_v3_listentityphotos(&[0]).unwrap().is_none());
    assert_eq!(decode_v3_listentityphotos(&row[..24]).err(), Some(RowError::Truncated));
    assert_eq!(decode_v3_listentityphotos(&[]).err(), Some(RowError::Truncated));
}

#[test]
fn metadata_keys_are_turned_around() {
    assert_eq!(rekey_getmetadata(&[4, 3, 2, 1]), Ok(vec![1, 2, 3, 4]));
    assert_eq!(rekey_getmetadata(&[4, 3, 2, 1]), Ok(getmetadata_key(PanoId(0x0102_0304))));
    assert_eq!(rekey_getmetadata(&[4, 3, 2]), Err(RowError::Truncated));
    assert_eq!(rekey_getmetadata(&[4, 3, 2, 1, 0]), Err(RowError::Truncated));
}
