//! The stored form of the cache tables, and the rules of the settings table.
//!
//! The store itself is the caller's: it reads and writes rows, and this
//! module says what the bytes of a row are.

use vstd::prelude::*;
use vstd::slice::slice_subrange;
use vstd::string::StringSliceAdditionalSpecFns;
use crate::math::angle::Angle;
use crate::model::GetMetadataResponse;
use crate::model::Location;
use crate::model::Pano;
use crate::model::PanoId;
use crate::model::PanoLink;
use crate::model::PanoWithBothLocations;
use crate::db::migrate::CURRENT_VERSION;
use crate::model::SizedTile;
use crate::streetview::api::is_third_party_pano;
use crate::streetview::api::third_party;

pub mod migrate;

verus! {

/// The four bytes of `n`, least significant first.
pub open spec fn le_bytes(n: u32) -> Seq<u8> {
    seq![
        (n % 256) as u8,
        ((n / 256) % 256) as u8,
        ((n / 65_536) % 256) as u8,
        (n / 16_777_216) as u8,
    ]
}

/// The number whose bytes, least significant first, are the first four of
/// `bytes`.
pub open spec fn le_value(bytes: Seq<u8>) -> u32 {
    (bytes[0] + bytes[1] * 256 + bytes[2] * 65_536 + bytes[3] * 16_777_216) as u32
}

/// The four bytes of `n`, most significant first.
pub open spec fn be_bytes(n: u32) -> Seq<u8> {
    seq![
        (n / 16_777_216) as u8,
        ((n / 65_536) % 256) as u8,
        ((n / 256) % 256) as u8,
        (n % 256) as u8,
    ]
}

/// The unsigned number with the two's complement bit pattern of `i`.
pub open spec fn unsigned_of(i: i32) -> u32 {
    if i < 0 {
        (i + 0x1_0000_0000) as u32
    } else {
        i as u32
    }
}

/// The signed number with the two's complement bit pattern of `n`.
pub open spec fn signed_of(n: u32) -> i32 {
    if n >= 0x8000_0000 {
        (n - 0x1_0000_0000) as i32
    } else {
        n as i32
    }
}

/// Reading back what was written gives the number written.
pub proof fn lemma_le_round_trip(n: u32, i: i32)
    ensures
        le_bytes(n).len() == 4,
        le_value(le_bytes(n)) == n,
        signed_of(unsigned_of(i)) == i,
{
}

/// Appends the four bytes of `n`, least significant first.
fn write_u32_le(buf: &mut Vec<u8>, n: u32)
    ensures
        final(buf)@ == old(buf)@ + le_bytes(n),
{
    buf.push((n % 256) as u8);
    buf.push(((n / 256) % 256) as u8);
    buf.push(((n / 65_536) % 256) as u8);
    buf.push((n / 16_777_216) as u8);
    proof {
        assert(buf@ =~= old(buf)@ + le_bytes(n));
    }
}

/// Appends the four bytes of the two's complement of `n`, least significant
/// first.
fn write_i32_le(buf: &mut Vec<u8>, n: i32)
    ensures
        final(buf)@ == old(buf)@ + le_bytes(unsigned_of(n)),
{
    let pattern: u32 = if n < 0 {
        (n as i64 + 0x1_0000_0000) as u32
    } else {
        n as u32
    };
    write_u32_le(buf, pattern);
}

/// The number in the first four bytes, least significant first.
fn read_u32_le(bytes: &[u8]) -> (n: u32)
    requires
        bytes@.len() >= 4,
    ensures
        n == le_value(bytes@),
{
    bytes[0] as u32 + bytes[1] as u32 * 256 + bytes[2] as u32 * 65_536 + bytes[3] as u32
        * 16_777_216
}

/// The two's complement number in the first four bytes, least significant
/// first.
fn read_i32_le(bytes: &[u8]) -> (n: i32)
    requires
        bytes@.len() >= 4,
    ensures
        n == signed_of(le_value(bytes@)),
{
    let pattern = read_u32_le(bytes);
    if pattern >= 0x8000_0000 {
        (pattern as i64 - 0x1_0000_0000) as i32
    } else {
        pattern as i32
    }
}

/// The number stored at `at`.
pub open spec fn u32_at(bytes: Seq<u8>, at: int) -> u32 {
    le_value(bytes.subrange(at, at + 4))
}

/// The location stored at `at`: latitude, then longitude.
pub open spec fn location_at(bytes: Seq<u8>, at: int) -> Location {
    Location {
        lat: Angle(signed_of(u32_at(bytes, at))),
        lng: Angle(signed_of(u32_at(bytes, at + 4))),
    }
}

/// The stored form of a location: eight bytes.
pub open spec fn location_bytes(loc: Location) -> Seq<u8> {
    le_bytes(unsigned_of(loc.lat.0)) + le_bytes(unsigned_of(loc.lng.0))
}

fn get_u32(bytes: &[u8], at: usize) -> (n: u32)
    requires
        at + 4 <= bytes@.len(),
    ensures
        n == u32_at(bytes@, at as int),
{
    let len = bytes.len();
    read_u32_le(slice_subrange(bytes, at, at + 4))
}

fn read_location(bytes: &[u8], at: usize) -> (loc: Location)
    requires
        at + 8 <= bytes@.len(),
    ensures
        loc == location_at(bytes@, at as int),
{
    let len = bytes.len();
    let lat = read_i32_le(slice_subrange(bytes, at, at + 4));
    let lng = read_i32_le(slice_subrange(bytes, at + 4, at + 8));
    Location { lat: Angle::from_bits(lat), lng: Angle::from_bits(lng) }
}

fn write_location(buf: &mut Vec<u8>, loc: Location)
    ensures
        final(buf)@ == old(buf)@ + location_bytes(loc),
{
    write_i32_le(buf, loc.lat.to_bits());
    write_i32_le(buf, loc.lng.to_bits());
    proof {
        assert(buf@ =~= old(buf)@ + location_bytes(loc));
    }
}

/// A row that is shorter than what it announces.
#[derive(Clone, Copy, Debug, PartialEq, Eq, Structural)]
pub enum RowError {
    Truncated,
}

/// The stored form of a link: the id, the heading and the location, sixteen
/// bytes.
pub open spec fn link_bytes(link: PanoLink) -> Seq<u8> {
    le_bytes(link.pano.id.0) + le_bytes(link.heading) + location_bytes(link.pano.loc)
}

pub open spec fn links_bytes(links: Seq<PanoLink>) -> Seq<u8>
    decreases links.len(),
{
    if links.len() == 0 {
        Seq::empty()
    } else {
        links_bytes(links.drop_last()) + link_bytes(links.last())
    }
}

/// The stored form of a number of links: one byte below 255, else the byte
/// 255 and the number in four bytes.
pub open spec fn count_bytes(count: nat) -> Seq<u8> {
    if count >= 255 {
        seq![255u8] + le_bytes(count as u32)
    } else {
        seq![count as u8]
    }
}

/// The row of the metadata table for a panorama at `loc` with `links`.
pub open spec fn getmetadata_bytes(loc: Location, links: Seq<PanoLink>) -> Seq<u8> {
    location_bytes(loc) + count_bytes(links.len()) + links_bytes(links)
}

/// The link stored at `at`.
pub open spec fn link_at(bytes: Seq<u8>, at: int) -> PanoLink {
    PanoLink {
        pano: Pano { id: PanoId(u32_at(bytes, at)), loc: location_at(bytes, at + 8) },
        heading: u32_at(bytes, at + 4),
    }
}

/// Where the links of a metadata row begin, and how many it announces.
pub open spec fn links_header(bytes: Seq<u8>) -> Option<(int, int)> {
    if bytes.len() < 9 {
        None
    } else if bytes[8] != 255 {
        Some((9int, bytes[8] as int))
    } else if bytes.len() < 13 {
        None
    } else {
        Some((13int, u32_at(bytes, 9) as int))
    }
}

/// What a metadata row holds, or `None` where it is shorter than it
/// announces. Bytes after the last link are not read.
pub open spec fn getmetadata_of(bytes: Seq<u8>) -> Option<(Location, Seq<PanoLink>)> {
    match links_header(bytes) {
        None => None,
        Some((start, count)) => if bytes.len() < start + 16 * count {
            None
        } else {
            Some(
                (
                    location_at(bytes, 0),
                    Seq::new(count as nat, |i: int| link_at(bytes, start + 16 * i)),
                ),
            )
        },
    }
}

/// The row of the metadata table for `res`.
pub fn encode_getmetadata(res: &GetMetadataResponse) -> (buf: Vec<u8>)
    requires
        res.links@.len() <= u32::MAX,
    ensures
        buf@ == getmetadata_bytes(res.loc, res.links@),
{
    let mut buf: Vec<u8> = Vec::new();
    write_location(&mut buf, res.loc);
    let num_links = res.links.len();
    if num_links >= 255 {
        buf.push(255);
        write_u32_le(&mut buf, num_links as u32);
    } else {
        buf.push(num_links as u8);
    }
    proof {
        assert(buf@ =~= location_bytes(res.loc) + count_bytes(res.links@.len()));
    }
    let ghost head = buf@;
    let mut i: usize = 0;
    while i < num_links
        invariant
            i <= num_links,
            num_links == res.links@.len(),
            buf@ == head + links_bytes(res.links@.take(i as int)),
        decreases num_links - i,
    {
        let link = res.links[i];
        let ghost before = buf@;
        write_u32_le(&mut buf, link.pano.id.0);
        write_u32_le(&mut buf, link.heading);
        write_location(&mut buf, link.pano.loc);
        proof {
            let taken = res.links@.take(i + 1);
            assert(taken.drop_last() =~= res.links@.take(i as int));
            assert(taken.last() == link);
            assert(buf@ =~= before + link_bytes(link));
            assert(buf@ =~= head + links_bytes(taken));
        }
        i = i + 1;
    }
    proof {
        assert(res.links@.take(num_links as int) =~= res.links@);
    }
    buf
}

/// What a metadata row holds: the location of the panorama and its links.
pub fn decode_getmetadata(bytes: &[u8]) -> (res: Result<(Location, Vec<PanoLink>), RowError>)
    ensures
        match res {
            Ok((loc, links)) => getmetadata_of(bytes@) == Some((loc, links@)),
            Err(_) => getmetadata_of(bytes@).is_none(),
        },
{
    let len = bytes.len();
    if len < 9 {
        return Err(RowError::Truncated);
    }
    let this_loc = read_location(bytes, 0);
    let first = bytes[8];
    let mut start: usize = 9;
    let mut link_count: u32 = first as u32;
    if first == 255 {
        if len < 13 {
            return Err(RowError::Truncated);
        }
        link_count = get_u32(bytes, 9);
        start = 13;
    }
    if ((len - start) as u64) < 16 * (link_count as u64) {
        return Err(RowError::Truncated);
    }
    let mut links: Vec<PanoLink> = Vec::new();
    let mut i: usize = 0;
    while i < link_count as usize
        invariant
            i <= link_count,
            start + 16 * link_count <= len,
            len == bytes@.len(),
            links@ == Seq::new(i as nat, |k: int| link_at(bytes@, start + 16 * k)),
        decreases link_count - i,
    {
        let at: usize = start + 16 * i;
        let id = PanoId(get_u32(bytes, at));
        let heading = get_u32(bytes, at + 4);
        let loc = read_location(bytes, at + 8);
        links.push(PanoLink { pano: Pano { id, loc }, heading });
        i = i + 1;
        proof {
            assert(links@ =~= Seq::new(i as nat, |k: int| link_at(bytes@, start + 16 * k)));
        }
    }
    Ok((this_loc, links))
}

/// What a metadata row holds of the location alone.
pub fn decode_getmetadata_location(bytes: &[u8]) -> (res: Result<Location, RowError>)
    ensures
        res == if bytes@.len() < 8 {
            Err::<Location, RowError>(RowError::Truncated)
        } else {
            Ok(location_at(bytes@, 0))
        },
{
    if bytes.len() < 8 {
        return Err(RowError::Truncated);
    }
    Ok(read_location(bytes, 0))
}

/// The stored form of a panorama of a tile: the id, the search location and
/// the true location, twenty bytes.
pub open spec fn pano_bytes(pano: PanoWithBothLocations) -> Seq<u8> {
    le_bytes(pano.id.0) + location_bytes(pano.search_loc) + location_bytes(pano.actual_loc)
}

pub open spec fn panos_bytes(panos: Seq<PanoWithBothLocations>) -> Seq<u8>
    decreases panos.len(),
{
    if panos.len() == 0 {
        Seq::empty()
    } else {
        panos_bytes(panos.drop_last()) + pano_bytes(panos.last())
    }
}

/// The row of the tile table: the byte 0 for a tile that holds too many
/// panoramas to list, else the byte 1 and the panoramas.
pub open spec fn listentityphotos_bytes(panos: Option<Seq<PanoWithBothLocations>>) -> Seq<u8> {
    match panos {
        None => seq![0u8],
        Some(panos) => seq![1u8] + panos_bytes(panos),
    }
}

/// The panorama stored at `at`.
pub open spec fn pano_at(bytes: Seq<u8>, at: int) -> PanoWithBothLocations {
    PanoWithBothLocations {
        id: PanoId(u32_at(bytes, at)),
        search_loc: location_at(bytes, at + 4),
        actual_loc: location_at(bytes, at + 12),
    }
}

/// What a row of the tile table holds: `Ok(None)` for a tile marked as
/// holding too many, the panoramas otherwise, and an error for an empty row
/// or one that ends inside a panorama.
pub open spec fn listentityphotos_of(bytes: Seq<u8>) -> Result<
    Option<Seq<PanoWithBothLocations>>,
    RowError,
> {
    if bytes.len() == 0 {
        Err(RowError::Truncated)
    } else if bytes[0] == 0 {
        Ok(None)
    } else if (bytes.len() - 1) % 20 != 0 {
        Err(RowError::Truncated)
    } else {
        Ok(Some(Seq::new(((bytes.len() - 1) / 20) as nat, |i: int| pano_at(bytes, 1 + 20 * i))))
    }
}

/// Whether a row of the tile table lists panoramas, rather than marking the
/// tile as holding too many.
pub fn is_listed(row: &[u8]) -> (listed: bool)
    ensures
        listed == (row@.len() > 0 && row@[0] == 1),
{
    row.len() > 0 && row[0] == 1
}

/// The row of the tile table for the panoramas of a tile, or for a tile that
/// holds too many where `panos` is `None`.
pub fn encode_listentityphotos(panos: Option<&Vec<PanoWithBothLocations>>) -> (buf: Vec<u8>)
    ensures
        buf@ == listentityphotos_bytes(
            match panos {
                None => None,
                Some(panos) => Some(panos@),
            },
        ),
{
    let mut buf: Vec<u8> = Vec::new();
    match panos {
        Some(panos) => {
            buf.push(1);
            let mut i: usize = 0;
            while i < panos.len()
                invariant
                    i <= panos@.len(),
                    buf@ == seq![1u8] + panos_bytes(panos@.take(i as int)),
                decreases panos@.len() - i,
            {
                let pano = panos[i];
                let ghost before = buf@;
                write_u32_le(&mut buf, pano.id.0);
                write_location(&mut buf, pano.search_loc);
                write_location(&mut buf, pano.actual_loc);
                proof {
                    let taken = panos@.take(i + 1);
                    assert(taken.drop_last() =~= panos@.take(i as int));
                    assert(taken.last() == pano);
                    assert(buf@ =~= before + pano_bytes(pano));
                    assert(buf@ =~= seq![1u8] + panos_bytes(taken));
                }
                i = i + 1;
            }
            proof {
                assert(panos@.take(panos@.len() as int) =~= panos@);
            }
        },
        None => {
            buf.push(0);
        },
    }
    buf
}

/// What a row of the tile table holds.
pub fn decode_listentityphotos(bytes: &[u8]) -> (res: Result<
    Option<Vec<PanoWithBothLocations>>,
    RowError,
>)
    ensures
        match res {
            Ok(Some(panos)) => listentityphotos_of(bytes@) == Ok::<
                Option<Seq<PanoWithBothLocations>>,
                RowError,
            >(Some(panos@)),
            Ok(None) => listentityphotos_of(bytes@) == Ok::<
                Option<Seq<PanoWithBothLocations>>,
                RowError,
            >(None),
            Err(e) => listentityphotos_of(bytes@) == Err::<
                Option<Seq<PanoWithBothLocations>>,
                RowError,
            >(e),
        },
{
    let len = bytes.len();
    if len == 0 {
        return Err(RowError::Truncated);
    }
    if bytes[0] == 0 {
        return Ok(None);
    }
    if (len - 1) % 20 != 0 {
        return Err(RowError::Truncated);
    }
    let count: usize = (len - 1) / 20;
    let mut panos: Vec<PanoWithBothLocations> = Vec::new();
    let mut i: usize = 0;
    while i < count
        invariant
            i <= count,
            1 + 20 * count == len,
            len == bytes@.len(),
            panos@ == Seq::new(i as nat, |k: int| pano_at(bytes@, 1 + 20 * k)),
        decreases count - i,
    {
        let at: usize = 1 + 20 * i;
        let id = PanoId(get_u32(bytes, at));
        let search_loc = read_location(bytes, at + 4);
        let actual_loc = read_location(bytes, at + 12);
        panos.push(PanoWithBothLocations { id, search_loc, actual_loc });
        i = i + 1;
        proof {
            assert(panos@ =~= Seq::new(i as nat, |k: int| pano_at(bytes@, 1 + 20 * k)));
        }
    }
    Ok(Some(panos))
}

/// The key of a tile in the tile table: the zoom, then `x` and `y` in four
/// bytes each.
pub open spec fn tile_key(tile: SizedTile) -> Seq<u8> {
    seq![tile.size] + le_bytes(tile.x) + le_bytes(tile.y)
}

/// The tile whose key begins `bytes`.
pub open spec fn tile_of_key(bytes: Seq<u8>) -> Option<SizedTile> {
    if bytes.len() < 9 {
        None
    } else {
        Some(SizedTile { size: bytes[0], x: u32_at(bytes, 1), y: u32_at(bytes, 5) })
    }
}

/// The key of a panorama in the metadata table: its id in four bytes, most
/// significant first, so that keys sort as ids do.
pub fn getmetadata_key(id: PanoId) -> (key: Vec<u8>)
    ensures
        key@ == be_bytes(id.0),
{
    let n: u32 = id.0;
    let mut key: Vec<u8> = Vec::new();
    key.push((n / 16_777_216) as u8);
    key.push(((n / 65_536) % 256) as u8);
    key.push(((n / 256) % 256) as u8);
    key.push((n % 256) as u8);
    proof {
        assert(key@ =~= be_bytes(id.0));
    }
    key
}

impl SizedTile {
    /// The key of the tile in the tile table.
    pub fn bytes_encode(item: &SizedTile) -> (key: Vec<u8>)
        ensures
            key@ == tile_key(*item),
    {
        let mut key: Vec<u8> = Vec::new();
        key.push(item.size);
        write_u32_le(&mut key, item.x);
        write_u32_le(&mut key, item.y);
        proof {
            assert(key@ =~= tile_key(*item));
        }
        key
    }

    /// The tile of a key of the tile table.
    pub fn bytes_decode(bytes: &[u8]) -> (res: Result<SizedTile, RowError>)
        ensures
            match res {
                Ok(tile) => tile_of_key(bytes@) == Some(tile),
                Err(_) => tile_of_key(bytes@).is_none(),
            },
    {
        if bytes.len() < 9 {
            return Err(RowError::Truncated);
        }
        Ok(SizedTile { size: bytes[0], x: get_u32(bytes, 1), y: get_u32(bytes, 5) })
    }
}

proof fn lemma_shift(whole: Seq<u8>, at: int, piece: Seq<u8>, k: int)
    requires
        0 <= at,
        at + piece.len() <= whole.len(),
        whole.subrange(at, at + piece.len()) == piece,
        0 <= k,
        k + 4 <= piece.len(),
    ensures
        u32_at(whole, at + k) == u32_at(piece, k),
{
    assert(whole.subrange(at + k, at + k + 4) =~= whole.subrange(at, at + piece.len()).subrange(
        k,
        k + 4,
    ));
}

proof fn lemma_location_round_trip(loc: Location)
    ensures
        location_bytes(loc).len() == 8,
        location_at(location_bytes(loc), 0) == loc,
{
    let b = location_bytes(loc);
    assert(b.subrange(0, 4) =~= le_bytes(unsigned_of(loc.lat.0)));
    assert(b.subrange(4, 8) =~= le_bytes(unsigned_of(loc.lng.0)));
    lemma_le_round_trip(unsigned_of(loc.lat.0), loc.lat.0);
    lemma_le_round_trip(unsigned_of(loc.lng.0), loc.lng.0);
}

proof fn lemma_location_shift(whole: Seq<u8>, at: int, piece: Seq<u8>, k: int)
    requires
        0 <= at,
        at + piece.len() <= whole.len(),
        whole.subrange(at, at + piece.len()) == piece,
        0 <= k,
        k + 8 <= piece.len(),
    ensures
        location_at(whole, at + k) == location_at(piece, k),
{
    lemma_shift(whole, at, piece, k);
    lemma_shift(whole, at, piece, k + 4);
}

proof fn lemma_link_round_trip(link: PanoLink)
    ensures
        link_bytes(link).len() == 16,
        link_at(link_bytes(link), 0) == link,
{
    let b = link_bytes(link);
    lemma_location_round_trip(link.pano.loc);
    assert(b.subrange(0, 4) =~= le_bytes(link.pano.id.0));
    assert(b.subrange(4, 8) =~= le_bytes(link.heading));
    assert(b.subrange(8, 16) =~= location_bytes(link.pano.loc));
    lemma_le_round_trip(link.pano.id.0, 0);
    lemma_le_round_trip(link.heading, 0);
    lemma_location_shift(b, 8, location_bytes(link.pano.loc), 0);
}

proof fn lemma_pano_round_trip(pano: PanoWithBothLocations)
    ensures
        pano_bytes(pano).len() == 20,
        pano_at(pano_bytes(pano), 0) == pano,
{
    let b = pano_bytes(pano);
    lemma_location_round_trip(pano.search_loc);
    lemma_location_round_trip(pano.actual_loc);
    assert(b.subrange(0, 4) =~= le_bytes(pano.id.0));
    assert(b.subrange(4, 12) =~= location_bytes(pano.search_loc));
    assert(b.subrange(12, 20) =~= location_bytes(pano.actual_loc));
    lemma_le_round_trip(pano.id.0, 0);
    lemma_location_shift(b, 4, location_bytes(pano.search_loc), 0);
    lemma_location_shift(b, 12, location_bytes(pano.actual_loc), 0);
}

proof fn lemma_links_bytes(links: Seq<PanoLink>, i: int)
    requires
        0 <= i < links.len(),
    ensures
        links_bytes(links).len() == 16 * links.len(),
        links_bytes(links).subrange(16 * i, 16 * i + 16) == link_bytes(links[i]),
    decreases links.len(),
{
    lemma_links_len(links);
    lemma_links_len(links.drop_last());
    lemma_link_round_trip(links.last());
    let whole = links_bytes(links);
    if i == links.len() - 1 {
        assert(whole.subrange(16 * i, 16 * i + 16) =~= link_bytes(links.last()));
    } else {
        lemma_links_bytes(links.drop_last(), i);
        assert(whole.subrange(16 * i, 16 * i + 16) =~= links_bytes(links.drop_last()).subrange(
            16 * i,
            16 * i + 16,
        ));
    }
}

proof fn lemma_links_len(links: Seq<PanoLink>)
    ensures
        links_bytes(links).len() == 16 * links.len(),
    decreases links.len(),
{
    if links.len() > 0 {
        lemma_links_len(links.drop_last());
        lemma_link_round_trip(links.last());
    }
}

proof fn lemma_panos_len(panos: Seq<PanoWithBothLocations>)
    ensures
        panos_bytes(panos).len() == 20 * panos.len(),
    decreases panos.len(),
{
    if panos.len() > 0 {
        lemma_panos_len(panos.drop_last());
        lemma_pano_round_trip(panos.last());
    }
}

proof fn lemma_panos_bytes(panos: Seq<PanoWithBothLocations>, i: int)
    requires
        0 <= i < panos.len(),
    ensures
        panos_bytes(panos).len() == 20 * panos.len(),
        panos_bytes(panos).subrange(20 * i, 20 * i + 20) == pano_bytes(panos[i]),
    decreases panos.len(),
{
    lemma_panos_len(panos);
    lemma_panos_len(panos.drop_last());
    lemma_pano_round_trip(panos.last());
    let whole = panos_bytes(panos);
    if i == panos.len() - 1 {
        assert(whole.subrange(20 * i, 20 * i + 20) =~= pano_bytes(panos.last()));
    } else {
        lemma_panos_bytes(panos.drop_last(), i);
        assert(whole.subrange(20 * i, 20 * i + 20) =~= panos_bytes(panos.drop_last()).subrange(
            20 * i,
            20 * i + 20,
        ));
    }
}

/// A metadata row reads back as what it was written from.
pub proof fn lemma_getmetadata_round_trip(loc: Location, links: Seq<PanoLink>)
    requires
        links.len() <= u32::MAX,
    ensures
        getmetadata_of(getmetadata_bytes(loc, links)) == Some((loc, links)),
{
    let bytes = getmetadata_bytes(loc, links);
    let n = links.len() as int;
    lemma_location_round_trip(loc);
    lemma_links_len(links);
    lemma_le_round_trip(n as u32, 0);
    assert(bytes.subrange(0, 8) =~= location_bytes(loc));
    lemma_location_shift(bytes, 0, location_bytes(loc), 0);
    let start: int = if n >= 255 {
        13
    } else {
        9
    };
    if n >= 255 {
        assert(bytes[8] == 255);
        assert(bytes.subrange(9, 13) =~= le_bytes(n as u32));
    } else {
        assert(bytes[8] == n);
    }
    assert(links_header(bytes) == Some((start, n)));
    let read = Seq::new(n as nat, |i: int| link_at(bytes, start + 16 * i));
    assert forall|i: int| 0 <= i < n implies read[i] == links[i] by {
        lemma_links_bytes(links, i);
        lemma_link_round_trip(links[i]);
        let piece = link_bytes(links[i]);
        assert(bytes.subrange(start + 16 * i, start + 16 * i + 16) =~= links_bytes(links).subrange(
            16 * i,
            16 * i + 16,
        ));
        lemma_shift(bytes, start + 16 * i, piece, 0);
        lemma_shift(bytes, start + 16 * i, piece, 4);
        lemma_location_shift(bytes, start + 16 * i, piece, 8);
    }
    assert(read =~= links);
}

/// A row of the tile table reads back as what it was written from.
pub proof fn lemma_listentityphotos_round_trip(panos: Option<Seq<PanoWithBothLocations>>)
    ensures
        listentityphotos_of(listentityphotos_bytes(panos)) == Ok::<
            Option<Seq<PanoWithBothLocations>>,
            RowError,
        >(panos),
{
    let bytes = listentityphotos_bytes(panos);
    match panos {
        None => {},
        Some(list) => {
            let n = list.len() as int;
            lemma_panos_len(list);
            assert(bytes[0] == 1);
            assert(bytes.len() - 1 == 20 * n);
            let read = Seq::new(n as nat, |i: int| pano_at(bytes, 1 + 20 * i));
            assert forall|i: int| 0 <= i < n implies read[i] == list[i] by {
                lemma_panos_bytes(list, i);
                lemma_pano_round_trip(list[i]);
                let piece = pano_bytes(list[i]);
                assert(bytes.subrange(1 + 20 * i, 1 + 20 * i + 20) =~= panos_bytes(list).subrange(
                    20 * i,
                    20 * i + 20,
                ));
                lemma_shift(bytes, 1 + 20 * i, piece, 0);
                lemma_location_shift(bytes, 1 + 20 * i, piece, 4);
                lemma_location_shift(bytes, 1 + 20 * i, piece, 12);
            }
            assert(read =~= list);
        },
    }
}

/// The key of a tile reads back as the tile.
pub proof fn lemma_tile_key_round_trip(tile: SizedTile)
    ensures
        tile_key(tile).len() == 9,
        tile_of_key(tile_key(tile)) == Some(tile),
{
    let bytes = tile_key(tile);
    assert(bytes.subrange(1, 5) =~= le_bytes(tile.x));
    assert(bytes.subrange(5, 9) =~= le_bytes(tile.y));
    lemma_le_round_trip(tile.x, 0);
    lemma_le_round_trip(tile.y, 0);
}

/// The name of the schema version in the settings table.
pub const VERSION_SETTING: &'static str = "version";

/// The name of the counter of panorama ids in the settings table.
pub const NEXT_PANO_ID_SETTING: &'static str = "next-pano-id";

/// The counter of panorama ids must stay below this, so that the top bit of
/// an id is free.
pub const PANO_ID_LIMIT: u32 = 0x8000_0000;

/// What goes wrong with the settings table.
#[derive(Clone, Copy, Debug, PartialEq, Eq, Structural)]
pub enum SettingsError {
    /// A number of the settings table is not four bytes long.
    Malformed,
}

/// The number that a value of the settings table holds: nothing for no
/// value, a number of four bytes, and `None` for any other length.
pub open spec fn setting_of(stored: Seq<u8>) -> Option<u32> {
    if stored.len() == 0 {
        Some(0u32)
    } else if stored.len() == 4 {
        Some(le_value(stored))
    } else {
        None
    }
}

fn read_setting(stored: &[u8]) -> (value: Option<u32>)
    ensures
        value == setting_of(stored@),
{
    if stored.len() == 0 {
        Some(0)
    } else if stored.len() == 4 {
        Some(read_u32_le(stored))
    } else {
        None
    }
}

fn setting_bytes(value: u32) -> (bytes: Vec<u8>)
    ensures
        bytes@ == le_bytes(value),
{
    let mut bytes: Vec<u8> = Vec::new();
    write_u32_le(&mut bytes, value);
    proof {
        assert(bytes@ =~= le_bytes(value));
    }
    bytes
}

/// How many panorama ids were handed out, given the stored counter: an empty
/// value where none is stored.
pub fn get_pano_count(stored_counter: &[u8]) -> (count: Result<u32, SettingsError>)
    ensures
        count == match setting_of(stored_counter@) {
            Some(n) => Ok::<u32, SettingsError>(n),
            None => Err::<u32, SettingsError>(SettingsError::Malformed),
        },
{
    match read_setting(stored_counter) {
        Some(n) => Ok(n),
        None => Err(SettingsError::Malformed),
    }
}

/// The id handed out at the counter value `counter`: the counter in the low
/// 31 bits, and the top bit set for a third-party panorama.
pub open spec fn id_at(counter: u32, third_party: bool) -> PanoId {
    if third_party {
        PanoId((counter + 0x8000_0000) as u32)
    } else {
        PanoId(counter)
    }
}

/// A new panorama id, with the value to store as the counter from now on.
#[derive(Clone, Debug)]
pub struct NewPanoId {
    pub id: PanoId,
    pub next_counter: Vec<u8>,
}

/// Whether the stored counter leaves an id to hand out: it can be read and
/// is below `PANO_ID_LIMIT`.
pub open spec fn has_free_id(stored_counter: Seq<u8>) -> bool {
    setting_of(stored_counter).is_some() && setting_of(stored_counter).unwrap() < 0x8000_0000
}

/// Hands out the next panorama id, given the stored counter, which must
/// leave one: the id is the counter, with the top bit set for a third-party
/// panorama, and the counter goes up by one. A caller finds out with
/// [`get_pano_count`] whether the counter leaves an id.
pub fn next_pano_id(stored_counter: &[u8], third_party: bool) -> (fresh: NewPanoId)
    requires
        has_free_id(stored_counter@),
    ensures
        fresh.id == id_at(setting_of(stored_counter@).unwrap(), third_party),
        fresh.next_counter@ == le_bytes((setting_of(stored_counter@).unwrap() + 1) as u32),
{
    let counter = match read_setting(stored_counter) {
        Some(counter) => counter,
        None => 0,
    };
    let id = if third_party {
        PanoId(counter + PANO_ID_LIMIT)
    } else {
        PanoId(counter)
    };
    NewPanoId { id, next_counter: setting_bytes(counter + 1) }
}

/// The top bit of an id says whether the panorama is a third-party one, the
/// other bits are the counter, and a later id has a greater counter.
pub proof fn lemma_id_at(counter: u32, third_party: bool)
    requires
        counter < PANO_ID_LIMIT,
    ensures
        id_at(counter, third_party).photosphere() == third_party,
        id_at(counter, third_party).0 % 0x8000_0000 == counter,
        counter + 1 > counter,
{
}

/// The handle of a panorama, and what to write where it is new.
#[derive(Clone, Debug)]
pub enum Interned {
    /// The id was interned before.
    Known(PanoId),
    /// The id is new: write the handle under the id and the counter under
    /// its name, in one transaction.
    Fresh(NewPanoId),
}

/// The handle of the panorama with the id proper `str_pano_id`, given what
/// the table of ids holds for it and the stored counter: the handle that the
/// table holds, or else the next one, marked as third-party by the id. For
/// an id that the table does not hold, the counter must leave an id.
pub fn get_pano_id_with_txn(str_pano_id: &str, known: Option<u32>, stored_counter: &[u8]) -> (res:
    Interned)
    requires
        known.is_none() ==> has_free_id(stored_counter@),
    ensures
        match known {
            Some(handle) => match res {
                Interned::Known(id) => id == PanoId(handle),
                Interned::Fresh(_) => false,
            },
            None => match res {
                Interned::Fresh(fresh) => fresh.id == id_at(
                    setting_of(stored_counter@).unwrap(),
                    third_party(str_pano_id.spec_bytes()),
                ) && fresh.next_counter@ == le_bytes(
                    (setting_of(stored_counter@).unwrap() + 1) as u32,
                ),
                Interned::Known(_) => false,
            },
        },
{
    match known {
        Some(handle) => Interned::Known(PanoId(handle)),
        None => Interned::Fresh(next_pano_id(stored_counter, is_third_party_pano(str_pano_id))),
    }
}

/// What to do with the store when it is opened.
#[derive(Clone, Debug)]
pub enum Startup {
    /// The store is new: write this value as the schema version.
    Initialize(Vec<u8>),
    /// The store has the current schema.
    Ready,
    /// The store has the schema of this version: migrate it, then open it
    /// again.
    Migrate(u32),
}

/// What to do with the store when it is opened, given whether it was just
/// made and what it holds as its schema version: an empty value where it
/// holds none, which stands for version 0.
pub fn startup(first_run: bool, stored_version: &[u8]) -> (res: Result<Startup, SettingsError>)
    ensures
        first_run ==> match res {
            Ok(Startup::Initialize(bytes)) => bytes@ == le_bytes(CURRENT_VERSION),
            _ => false,
        },
        !first_run ==> match setting_of(stored_version@) {
            None => res.is_err() && res.unwrap_err() == SettingsError::Malformed,
            Some(version) => match res {
                Ok(Startup::Ready) => version == CURRENT_VERSION,
                Ok(Startup::Migrate(from)) => version != CURRENT_VERSION && from == version,
                _ => false,
            },
        },
{
    if first_run {
        return Ok(Startup::Initialize(setting_bytes(CURRENT_VERSION)));
    }
    match read_setting(stored_version) {
        None => Err(SettingsError::Malformed),
        Some(version) => if version == CURRENT_VERSION {
            Ok(Startup::Ready)
        } else {
            Ok(Startup::Migrate(version))
        },
    }
}

} // verus!
