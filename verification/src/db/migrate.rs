//! Which migrations bring a stored schema to the current one.

use vstd::prelude::*;
use crate::db::get_u32;
use crate::db::le_bytes;
use crate::db::lemma_le_round_trip;
use crate::db::lemma_location_round_trip;
use crate::db::lemma_location_shift;
use crate::db::lemma_shift;
use crate::db::le_value;
use crate::db::location_at;
use crate::db::location_bytes;
use crate::db::getmetadata_key;
use crate::db::be_bytes;
use crate::db::read_location;
use crate::db::u32_at;
use crate::db::write_location;
use crate::db::write_u32_le;
use crate::db::RowError;
use crate::model::Pano;
use crate::model::PanoId;

verus! {

/// The schema version that this library reads and writes.
pub const CURRENT_VERSION: u32 = 6;

/// One step of the chain of migrations, from a version to the next.
#[derive(Clone, Copy, Debug, PartialEq, Eq, Structural)]
pub enum Migration {
    V0ToV1,
    V1ToV2,
    V2ToV3,
    V3ToV4,
    V4ToV5,
    V5ToV6,
}

/// All the steps, in order: the step at place `n` leads from version `n`.
pub open spec fn chain() -> Seq<Migration> {
    seq![
        Migration::V0ToV1,
        Migration::V1ToV2,
        Migration::V2ToV3,
        Migration::V3ToV4,
        Migration::V4ToV5,
        Migration::V5ToV6,
    ]
}

/// The steps that bring a store of version `old_version` to the current
/// version, in order. A store of a later version than the current one cannot
/// be read by this library at all.
pub fn try_migrate_from_version(old_version: u32) -> (steps: Vec<Migration>)
    requires
        old_version <= CURRENT_VERSION,
    ensures
        steps@ == chain().skip(old_version as int),
{
    let mut steps: Vec<Migration> = Vec::new();
    if old_version < 1 {
        steps.push(Migration::V0ToV1);
    }
    if old_version < 2 {
        steps.push(Migration::V1ToV2);
    }
    if old_version < 3 {
        steps.push(Migration::V2ToV3);
    }
    if old_version < 4 {
        steps.push(Migration::V3ToV4);
    }
    if old_version < 5 {
        steps.push(Migration::V4ToV5);
    }
    if old_version < 6 {
        steps.push(Migration::V5ToV6);
    }
    proof {
        assert(steps@ =~= chain().skip(old_version as int));
    }
    steps
}

/// A location as stores of version 2 hold it: the bits of two doubles, in
/// degrees.
#[derive(Clone, Copy, Debug, PartialEq, Eq, Structural)]
pub struct OldLocation {
    pub lat: u64,
    pub lng: u64,
}

/// A panorama as stores of version 2 hold it.
#[derive(Clone, Copy, Debug, PartialEq, Eq, Structural)]
pub struct OldPano {
    pub id: PanoId,
    pub loc: OldLocation,
}

/// A link as stores of version 2 hold it.
#[derive(Clone, Copy, Debug, PartialEq, Eq, Structural)]
pub struct OldPanoLink {
    pub pano: OldPano,
    /// The bits of a single, in degrees.
    pub heading: u32,
}

/// The number of eight bytes stored at `at`, least significant first.
pub open spec fn u64_at(bytes: Seq<u8>, at: int) -> u64 {
    (u32_at(bytes, at) + u32_at(bytes, at + 4) * 0x1_0000_0000) as u64
}

/// The old location stored at `at`: latitude, then longitude, sixteen bytes.
pub open spec fn old_location_at(bytes: Seq<u8>, at: int) -> OldLocation {
    OldLocation { lat: u64_at(bytes, at), lng: u64_at(bytes, at + 8) }
}

/// The old link stored at `at`: the id, the heading and the location,
/// twenty-four bytes.
pub open spec fn old_link_at(bytes: Seq<u8>, at: int) -> OldPanoLink {
    OldPanoLink {
        pano: OldPano { id: PanoId(u32_at(bytes, at)), loc: old_location_at(bytes, at + 8) },
        heading: u32_at(bytes, at + 4),
    }
}

/// The old panorama stored at `at`: the id and the location, twenty bytes.
pub open spec fn old_pano_at(bytes: Seq<u8>, at: int) -> OldPano {
    OldPano { id: PanoId(u32_at(bytes, at)), loc: old_location_at(bytes, at + 4) }
}

/// Where the links of an old metadata row begin, and how many it announces.
pub open spec fn old_links_header(bytes: Seq<u8>) -> Option<(int, int)> {
    if bytes.len() < 17 {
        None
    } else if bytes[16] != 255 {
        Some((17int, bytes[16] as int))
    } else if bytes.len() < 21 {
        None
    } else {
        Some((21int, u32_at(bytes, 17) as int))
    }
}

/// What a metadata row of a store of version 2 holds, or `None` where it is
/// shorter than it announces.
pub open spec fn old_getmetadata_of(bytes: Seq<u8>) -> Option<(OldLocation, Seq<OldPanoLink>)> {
    match old_links_header(bytes) {
        None => None,
        Some((start, count)) => if bytes.len() < start + 24 * count {
            None
        } else {
            Some(
                (
                    old_location_at(bytes, 0),
                    Seq::new(count as nat, |i: int| old_link_at(bytes, start + 24 * i)),
                ),
            )
        },
    }
}

/// What a row of the tile table of a store of version 2 holds.
pub open spec fn old_listentityphotos_of(bytes: Seq<u8>) -> Result<Option<Seq<OldPano>>, RowError> {
    if bytes.len() == 0 {
        Err(RowError::Truncated)
    } else if bytes[0] == 0 {
        Ok(None)
    } else if (bytes.len() - 1) % 20 != 0 {
        Err(RowError::Truncated)
    } else {
        Ok(Some(Seq::new(((bytes.len() - 1) / 20) as nat, |i: int| old_pano_at(bytes, 1 + 20 * i))))
    }
}

/// The panorama stored at `at` in a row of the tile table of a store of
/// version 3: the id and the location, twelve bytes.
pub open spec fn single_pano_at(bytes: Seq<u8>, at: int) -> Pano {
    Pano { id: PanoId(u32_at(bytes, at)), loc: location_at(bytes, at + 4) }
}

/// What a row of the tile table of a store of version 3 holds: panoramas
/// with the one location that they were listed at.
pub open spec fn single_listentityphotos_of(bytes: Seq<u8>) -> Result<Option<Seq<Pano>>, RowError> {
    if bytes.len() == 0 {
        Err(RowError::Truncated)
    } else if bytes[0] == 0 {
        Ok(None)
    } else if (bytes.len() - 1) % 12 != 0 {
        Err(RowError::Truncated)
    } else {
        Ok(
            Some(
                Seq::new(((bytes.len() - 1) / 12) as nat, |i: int| single_pano_at(bytes, 1 + 12 * i)),
            ),
        )
    }
}

/// The stored form of a panorama with one location: twelve bytes.
pub open spec fn single_pano_bytes(pano: Pano) -> Seq<u8> {
    le_bytes(pano.id.0) + location_bytes(pano.loc)
}

/// The stored form of panoramas with one location each.
pub open spec fn single_panos_bytes(panos: Seq<Pano>) -> Seq<u8>
    decreases panos.len(),
{
    if panos.len() == 0 {
        Seq::empty()
    } else {
        single_panos_bytes(panos.drop_last()) + single_pano_bytes(panos.last())
    }
}

/// The row of the tile table of a store of version 3.
pub open spec fn single_listentityphotos_bytes(panos: Option<Seq<Pano>>) -> Seq<u8> {
    match panos {
        None => seq![0u8],
        Some(panos) => seq![1u8] + single_panos_bytes(panos),
    }
}

fn get_u64(bytes: &[u8], at: usize) -> (n: u64)
    requires
        at + 8 <= bytes@.len(),
    ensures
        n == u64_at(bytes@, at as int),
{
    let len = bytes.len();
    let low = get_u32(bytes, at);
    let high = get_u32(bytes, at + 4);
    low as u64 + high as u64 * 0x1_0000_0000
}

fn read_old_location(bytes: &[u8], at: usize) -> (loc: OldLocation)
    requires
        at + 16 <= bytes@.len(),
    ensures
        loc == old_location_at(bytes@, at as int),
{
    let len = bytes.len();
    OldLocation { lat: get_u64(bytes, at), lng: get_u64(bytes, at + 8) }
}

/// What a metadata row of a store of version 2 holds: the location of the
/// panorama and its links, with locations as doubles.
pub fn decode_v2_getmetadata(bytes: &[u8]) -> (res: Result<
    (OldLocation, Vec<OldPanoLink>),
    RowError,
>)
    ensures
        match res {
            Ok((loc, links)) => old_getmetadata_of(bytes@) == Some((loc, links@)),
            Err(_) => old_getmetadata_of(bytes@).is_none(),
        },
{
    let len = bytes.len();
    if len < 17 {
        return Err(RowError::Truncated);
    }
    let this_loc = read_old_location(bytes, 0);
    let first = bytes[16];
    let mut start: usize = 17;
    let mut link_count: u32 = first as u32;
    if first == 255 {
        if len < 21 {
            return Err(RowError::Truncated);
        }
        link_count = get_u32(bytes, 17);
        start = 21;
    }
    if ((len - start) as u64) < 24 * (link_count as u64) {
        return Err(RowError::Truncated);
    }
    let mut links: Vec<OldPanoLink> = Vec::new();
    let mut i: usize = 0;
    while i < link_count as usize
        invariant
            i <= link_count,
            start + 24 * link_count <= len,
            len == bytes@.len(),
            links@ == Seq::new(i as nat, |k: int| old_link_at(bytes@, start + 24 * k)),
        decreases link_count - i,
    {
        let at: usize = start + 24 * i;
        let id = PanoId(get_u32(bytes, at));
        let heading = get_u32(bytes, at + 4);
        let loc = read_old_location(bytes, at + 8);
        links.push(OldPanoLink { pano: OldPano { id, loc }, heading });
        i = i + 1;
        proof {
            assert(links@ =~= Seq::new(i as nat, |k: int| old_link_at(bytes@, start + 24 * k)));
        }
    }
    Ok((this_loc, links))
}

/// What a row of the tile table of a store of version 2 holds.
pub fn decode_v2_listentityphotos(bytes: &[u8]) -> (res: Result<Option<Vec<OldPano>>, RowError>)
    ensures
        match res {
            Ok(Some(panos)) => old_listentityphotos_of(bytes@) == Ok::<
                Option<Seq<OldPano>>,
                RowError,
            >(Some(panos@)),
            Ok(None) => old_listentityphotos_of(bytes@) == Ok::<Option<Seq<OldPano>>, RowError>(
                None,
            ),
            Err(e) => old_listentityphotos_of(bytes@) == Err::<Option<Seq<OldPano>>, RowError>(e),
        },
{
    let len = bytes.len();
    if len == 0 {
        return Err(RowError::Truncated);
    }
    if bytes[0] == 0 {
        return Ok(None);
    }
    if (len - 1) % 20 != 0 {
        return Err(RowError::Truncated);
    }
    let count: usize = (len - 1) / 20;
    let mut panos: Vec<OldPano> = Vec::new();
    let mut i: usize = 0;
    while i < count
        invariant
            i <= count,
            1 + 20 * count == len,
            len == bytes@.len(),
            panos@ == Seq::new(i as nat, |k: int| old_pano_at(bytes@, 1 + 20 * k)),
        decreases count - i,
    {
        let at: usize = 1 + 20 * i;
        let id = PanoId(get_u32(bytes, at));
        let loc = read_old_location(bytes, at + 4);
        panos.push(OldPano { id, loc });
        i = i + 1;
        proof {
            assert(panos@ =~= Seq::new(i as nat, |k: int| old_pano_at(bytes@, 1 + 20 * k)));
        }
    }
    Ok(Some(panos))
}

/// What a row of the tile table of a store of version 3 holds.
pub fn decode_v3_listentityphotos(bytes: &[u8]) -> (res: Result<Option<Vec<Pano>>, RowError>)
    ensures
        match res {
            Ok(Some(panos)) => single_listentityphotos_of(bytes@) == Ok::<
                Option<Seq<Pano>>,
                RowError,
            >(Some(panos@)),
            Ok(None) => single_listentityphotos_of(bytes@) == Ok::<Option<Seq<Pano>>, RowError>(
                None,
            ),
            Err(e) => single_listentityphotos_of(bytes@) == Err::<Option<Seq<Pano>>, RowError>(e),
        },
{
    let len = bytes.len();
    if len == 0 {
        return Err(RowError::Truncated);
    }
    if bytes[0] == 0 {
        return Ok(None);
    }
    if (len - 1) % 12 != 0 {
        return Err(RowError::Truncated);
    }
    let count: usize = (len - 1) / 12;
    let mut panos: Vec<Pano> = Vec::new();
    let mut i: usize = 0;
    while i < count
        invariant
            i <= count,
            1 + 12 * count == len,
            len == bytes@.len(),
            panos@ == Seq::new(i as nat, |k: int| single_pano_at(bytes@, 1 + 12 * k)),
        decreases count - i,
    {
        let at: usize = 1 + 12 * i;
        let id = PanoId(get_u32(bytes, at));
        let loc = read_location(bytes, at + 4);
        panos.push(Pano { id, loc });
        i = i + 1;
        proof {
            assert(panos@ =~= Seq::new(i as nat, |k: int| single_pano_at(bytes@, 1 + 12 * k)));
        }
    }
    Ok(Some(panos))
}

/// The row of the tile table of a store of version 3 for the panoramas of a
/// tile, or for a tile that holds too many where `panos` is `None`.
pub fn encode_v3_listentityphotos(panos: Option<&Vec<Pano>>) -> (buf: Vec<u8>)
    ensures
        buf@ == single_listentityphotos_bytes(
            match panos {
                None => None,
                Some(panos) => Some(panos@),
            },
        ),
{
    let mut buf: Vec<u8> = Vec::new();
    match panos {
        Some(panos) => {
            buf.push(1);
            let mut i: usize = 0;
            while i < panos.len()
                invariant
                    i <= panos@.len(),
                    buf@ == seq![1u8] + single_panos_bytes(panos@.take(i as int)),
                decreases panos@.len() - i,
            {
                let pano = panos[i];
                let ghost before = buf@;
                write_u32_le(&mut buf, pano.id.0);
                write_location(&mut buf, pano.loc);
                proof {
                    let taken = panos@.take(i + 1);
                    assert(taken.drop_last() =~= panos@.take(i as int));
                    assert(taken.last() == pano);
                    assert(buf@ =~= before + single_pano_bytes(pano));
                    assert(buf@ =~= seq![1u8] + single_panos_bytes(taken));
                }
                i = i + 1;
            }
            proof {
                assert(panos@.take(panos@.len() as int) =~= panos@);
            }
        },
        None => {
            buf.push(0);
        },
    }
    buf
}

/// The key of a panorama in the metadata table as it is now, given its key
/// in a store of version 4, which is the id in four bytes, least significant
/// first.
pub fn rekey_getmetadata(old_key: &[u8]) -> (key: Result<Vec<u8>, RowError>)
    ensures
        match key {
            Ok(k) => old_key@.len() == 4 && k@ == be_bytes(le_value(old_key@)),
            Err(_) => old_key@.len() != 4,
        },
{
    if old_key.len() != 4 {
        return Err(RowError::Truncated);
    }
    assert(old_key@.subrange(0, 4) =~= old_key@);
    Ok(getmetadata_key(PanoId(get_u32(old_key, 0))))
}

proof fn lemma_single_pano_round_trip(pano: Pano)
    ensures
        single_pano_bytes(pano).len() == 12,
        single_pano_at(single_pano_bytes(pano), 0) == pano,
{
    let b = single_pano_bytes(pano);
    lemma_location_round_trip(pano.loc);
    assert(b.subrange(0, 4) =~= le_bytes(pano.id.0));
    assert(b.subrange(4, 12) =~= location_bytes(pano.loc));
    lemma_le_round_trip(pano.id.0, 0);
    lemma_location_shift(b, 4, location_bytes(pano.loc), 0);
}

proof fn lemma_single_panos_len(panos: Seq<Pano>)
    ensures
        single_panos_bytes(panos).len() == 12 * panos.len(),
    decreases panos.len(),
{
    if panos.len() > 0 {
        lemma_single_panos_len(panos.drop_last());
        lemma_single_pano_round_trip(panos.last());
    }
}

proof fn lemma_single_panos_bytes(panos: Seq<Pano>, i: int)
    requires
        0 <= i < panos.len(),
    ensures
        single_panos_bytes(panos).len() == 12 * panos.len(),
        single_panos_bytes(panos).subrange(12 * i, 12 * i + 12) == single_pano_bytes(panos[i]),
    decreases panos.len(),
{
    lemma_single_panos_len(panos);
    lemma_single_panos_len(panos.drop_last());
    lemma_single_pano_round_trip(panos.last());
    let whole = single_panos_bytes(panos);
    if i == panos.len() - 1 {
        assert(whole.subrange(12 * i, 12 * i + 12) =~= single_pano_bytes(panos.last()));
    } else {
        lemma_single_panos_bytes(panos.drop_last(), i);
        assert(whole.subrange(12 * i, 12 * i + 12) =~= single_panos_bytes(
            panos.drop_last(),
        ).subrange(12 * i, 12 * i + 12));
    }
}

/// A row of the tile table of a store of version 3 reads back as what it
/// was written from.
pub proof fn lemma_v3_listentityphotos_round_trip(panos: Option<Seq<Pano>>)
    ensures
        single_listentityphotos_of(single_listentityphotos_bytes(panos)) == Ok::<
            Option<Seq<Pano>>,
            RowError,
        >(panos),
{
    let bytes = single_listentityphotos_bytes(panos);
    match panos {
        None => {},
        Some(list) => {
            let n = list.len() as int;
            lemma_single_panos_len(list);
            assert(bytes[0] == 1);
            assert(bytes.len() - 1 == 12 * n);
            let read = Seq::new(n as nat, |i: int| single_pano_at(bytes, 1 + 12 * i));
            assert forall|i: int| 0 <= i < n implies read[i] == list[i] by {
                lemma_single_panos_bytes(list, i);
                lemma_single_pano_round_trip(list[i]);
                let piece = single_pano_bytes(list[i]);
                assert(bytes.subrange(1 + 12 * i, 1 + 12 * i + 12) =~= single_panos_bytes(
                    list,
                ).subrange(12 * i, 12 * i + 12));
                lemma_shift(bytes, 1 + 12 * i, piece, 0);
                lemma_location_shift(bytes, 1 + 12 * i, piece, 4);
            }
            assert(read =~= list);
        },
    }
}

} // verus!
