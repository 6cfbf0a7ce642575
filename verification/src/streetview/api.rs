//! What is made of the provider's answers, and the forms of a panorama id.

use vstd::prelude::*;
use vstd::string::StringSliceAdditionalSpecFns;
use base64::prelude::BASE64_STANDARD;
use base64::Engine;
use crate::model::Location;
use crate::model::SizedTile;
use crate::model::TileBounds;
use crate::model::SMALL_TILE_SIZE;

verus! {

/// `base64::DecodeError`: why a text is not base64. Opaque here.
#[verifier::external_type_specification]
#[verifier::external_body]
pub struct ExDecodeError(base64::DecodeError);

/// The bytes that a text in standard base64 with padding stands for, or
/// `None` where the text is not such a text.
pub uninterp spec fn base64_decoded(text: Seq<u8>) -> Option<Seq<u8>>;

/// The text in standard base64 with padding that stands for `data`.
pub uninterp spec fn base64_encoded(data: Seq<u8>) -> Seq<u8>;

/// The text that `bytes` hold as UTF-8, with the replacement character in
/// place of what is not UTF-8.
pub uninterp spec fn utf8_lossy(bytes: Seq<u8>) -> Seq<char>;

/// `Engine::decode` of `BASE64_STANDARD`.
#[verifier::external_body]
fn base64_decode(text: &[u8]) -> (r: Result<Vec<u8>, base64::DecodeError>)
    ensures
        match r {
            Ok(bytes) => base64_decoded(text@) == Some(bytes@),
            Err(_) => base64_decoded(text@).is_none(),
        },
{
    BASE64_STANDARD.decode(text)
}

/// `Engine::encode` of `BASE64_STANDARD`, as bytes.
#[verifier::external_body]
fn base64_encode(data: &[u8]) -> (text: Vec<u8>)
    ensures
        text@ == base64_encoded(data@),
{
    BASE64_STANDARD.encode(data).into_bytes()
}

/// `String::from_utf8_lossy`.
#[verifier::external_body]
fn string_from_utf8_lossy(bytes: &[u8]) -> (text: String)
    ensures
        text@ == utf8_lossy(bytes@),
{
    String::from_utf8_lossy(bytes).into_owned()
}

/// Whether `bytes` begin with `prefix`.
pub open spec fn has_prefix(bytes: Seq<u8>, prefix: Seq<u8>) -> bool {
    prefix.len() <= bytes.len() && bytes.subrange(0, prefix.len() as int) == prefix
}

/// The bytes of "CIHM0og".
pub open spec fn photosphere_prefix() -> Seq<u8> {
    seq![67u8, 73u8, 72u8, 77u8, 48u8, 111u8, 103u8]
}

/// The bytes of "CIAB".
pub open spec fn recent_photosphere_prefix() -> Seq<u8> {
    seq![67u8, 73u8, 65u8, 66u8]
}

/// The bytes of "CAoS", with which an id in an envelope begins.
pub open spec fn envelope_prefix() -> Seq<u8> {
    seq![67u8, 65u8, 111u8, 83u8]
}

/// Whether an id with these bytes is that of a third-party panorama: it
/// begins with "CIHM0og" or "CIAB", or is longer than 22 bytes.
pub open spec fn third_party(id: Seq<u8>) -> bool {
    has_prefix(id, photosphere_prefix()) || has_prefix(id, recent_photosphere_prefix()) || id.len()
        > 22
}

fn starts_with(bytes: &[u8], prefix: &[u8]) -> (r: bool)
    ensures
        r == has_prefix(bytes@, prefix@),
{
    if prefix.len() > bytes.len() {
        return false;
    }
    let mut i: usize = 0;
    while i < prefix.len()
        invariant
            i <= prefix@.len(),
            prefix@.len() <= bytes@.len(),
            forall|k: int| 0 <= k < i ==> bytes@[k] == prefix@[k],
        decreases prefix@.len() - i,
    {
        if bytes[i] != prefix[i] {
            assert(bytes@.subrange(0, prefix@.len() as int)[i as int] != prefix@[i as int]);
            return false;
        }
        i = i + 1;
    }
    assert(bytes@.subrange(0, prefix@.len() as int) =~= prefix@);
    true
}

/// Whether `pano_id` is the id of a third-party panorama.
pub fn is_third_party_pano(pano_id: &str) -> (r: bool)
    ensures
        r == third_party(pano_id.spec_bytes()),
{
    let bytes = pano_id.as_bytes();
    let photosphere: [u8; 7] = [67, 73, 72, 77, 48, 111, 103];
    let recent: [u8; 4] = [67, 73, 65, 66];
    assert(photosphere@ =~= photosphere_prefix());
    assert(recent@ =~= recent_photosphere_prefix());
    starts_with(bytes, photosphere.as_slice()) || starts_with(bytes, recent.as_slice())
        || bytes.len() > 22
}

/// Whether an id with these bytes may be an envelope around the id proper:
/// it begins with "CAoS" and is longer than 22 bytes.
pub open spec fn wrapped(id: Seq<u8>) -> bool {
    has_prefix(id, envelope_prefix()) && id.len() > 22
}

/// The text with each '.' turned into '='.
pub open spec fn padded(text: Seq<u8>) -> Seq<u8> {
    Seq::new(
        text.len(),
        |i: int|
            if text[i] == 46 {
                61u8
            } else {
                text[i]
            },
    )
}

/// The text with each '=' turned into '.'.
pub open spec fn dotted(text: Seq<u8>) -> Seq<u8> {
    Seq::new(
        text.len(),
        |i: int|
            if text[i] == 61 {
                46u8
            } else {
                text[i]
            },
    )
}

/// Whether `at` is the place of the first byte 0x12.
pub open spec fn is_first_tag(bytes: Seq<u8>, at: int) -> bool {
    &&& 0 <= at < bytes.len()
    &&& bytes[at] == 0x12
    &&& forall|j: int| 0 <= j < at ==> bytes[j] != 0x12
}

/// What an envelope carries: the bytes that follow the first byte 0x12 and
/// the length byte after it, as many as the length byte says. `None` where
/// there is no byte 0x12, no length byte, or fewer bytes than it says.
pub open spec fn payload_of(bytes: Seq<u8>) -> Option<Seq<u8>> {
    if exists|at: int| is_first_tag(bytes, at) {
        let at = choose|at: int| is_first_tag(bytes, at);
        if at + 1 >= bytes.len() || at + 2 + bytes[at + 1] > bytes.len() {
            None
        } else {
            Some(bytes.subrange(at + 2, at + 2 + bytes[at + 1]))
        }
    } else {
        None
    }
}

/// See [`payload_of`].
pub fn envelope_payload(bytes: &[u8]) -> (payload: Option<Vec<u8>>)
    ensures
        match payload {
            Some(p) => payload_of(bytes@) == Some(p@),
            None => payload_of(bytes@).is_none(),
        },
{
    let len = bytes.len();
    let mut at: usize = 0;
    while at < len && bytes[at] != 0x12
        invariant
            at <= len,
            len == bytes@.len(),
            forall|j: int| 0 <= j < at ==> bytes@[j] != 0x12,
        decreases len - at,
    {
        at = at + 1;
    }
    if at >= len {
        assert forall|k: int| !is_first_tag(bytes@, k) by {}
        return None;
    }
    proof {
        assert(is_first_tag(bytes@, at as int));
        let chosen = choose|k: int| is_first_tag(bytes@, k);
        assert(chosen == at) by {
            if chosen < at {
                assert(bytes@[chosen] != 0x12);
            } else if chosen > at {
                assert(bytes@[at as int] != 0x12);
            }
        }
    }
    if at + 1 >= len {
        return None;
    }
    let length = bytes[at + 1] as usize;
    if length > len - at - 2 {
        return None;
    }
    let start = at + 2;
    let mut payload: Vec<u8> = Vec::new();
    let mut i: usize = 0;
    while i < length
        invariant
            i <= length,
            start + length <= len,
            len == bytes@.len(),
            payload@ == bytes@.subrange(start as int, start + i),
        decreases length - i,
    {
        payload.push(bytes[start + i]);
        i = i + 1;
        proof {
            assert(payload@ =~= bytes@.subrange(start as int, start + i));
        }
    }
    Some(payload)
}

fn replace_byte(text: &[u8], from: u8, to: u8) -> (replaced: Vec<u8>)
    ensures
        replaced@ == Seq::new(
            text@.len(),
            |i: int|
                if text@[i] == from {
                    to
                } else {
                    text@[i]
                },
        ),
{
    let mut replaced: Vec<u8> = Vec::new();
    let mut i: usize = 0;
    while i < text.len()
        invariant
            i <= text@.len(),
            replaced@ == Seq::new(
                i as nat,
                |k: int|
                    if text@[k] == from {
                        to
                    } else {
                        text@[k]
                    },
            ),
        decreases text@.len() - i,
    {
        let byte = text[i];
        replaced.push(
            if byte == from {
                to
            } else {
                byte
            },
        );
        i = i + 1;
        proof {
            assert(replaced@ =~= Seq::new(
                i as nat,
                |k: int|
                    if text@[k] == from {
                        to
                    } else {
                        text@[k]
                    },
            ));
        }
    }
    replaced
}

/// The id proper of a panorama: what the envelope carries where the id is an
/// envelope in base64 that carries something, and the id itself otherwise.
pub open spec fn unwrapped(id: &str) -> Seq<char> {
    if !wrapped(id.spec_bytes()) {
        id@
    } else {
        match base64_decoded(padded(id.spec_bytes())) {
            None => id@,
            Some(envelope) => match payload_of(envelope) {
                None => id@,
                Some(payload) => utf8_lossy(payload),
            },
        }
    }
}

/// The id proper of a panorama: see [`unwrapped`].
pub fn decode_protobuf_pano(pano_id: &str) -> (id: String)
    ensures
        id@ == unwrapped(pano_id),
        !wrapped(pano_id.spec_bytes()) ==> id@ == pano_id@,
{
    let bytes = pano_id.as_bytes();
    let prefix: [u8; 4] = [67, 65, 111, 83];
    assert(prefix@ =~= envelope_prefix());
    if !starts_with(bytes, prefix.as_slice()) || bytes.len() <= 22 {
        return pano_id.to_owned();
    }
    let text = replace_byte(bytes, 46, 61);
    assert(text@ =~= padded(bytes@));
    let envelope = match base64_decode(text.as_slice()) {
        Ok(envelope) => envelope,
        Err(_) => { return pano_id.to_owned(); },
    };
    match envelope_payload(envelope.as_slice()) {
        Some(payload) => string_from_utf8_lossy(payload.as_slice()),
        None => pano_id.to_owned(),
    }
}

/// The envelope around an id: the bytes 8, 10 and 18, the length of the id
/// in one byte, and the id.
pub open spec fn envelope_of(id: Seq<u8>) -> Seq<u8> {
    seq![8u8, 10u8, 18u8, (id.len() % 256) as u8] + id
}

/// The id of a panorama in its envelope: an id that begins with "CAoS" as it
/// is, any other as its envelope in base64 with '.' for '='.
pub open spec fn enveloped(id: &str) -> Seq<char> {
    if has_prefix(id.spec_bytes(), envelope_prefix()) {
        id@
    } else {
        utf8_lossy(dotted(base64_encoded(envelope_of(id.spec_bytes()))))
    }
}

/// The id of a panorama in its envelope: see [`enveloped`].
pub fn encode_protobuf_pano(pano_id: &str) -> (id: String)
    ensures
        id@ == enveloped(pano_id),
{
    let bytes = pano_id.as_bytes();
    let prefix: [u8; 4] = [67, 65, 111, 83];
    assert(prefix@ =~= envelope_prefix());
    if starts_with(bytes, prefix.as_slice()) {
        return pano_id.to_owned();
    }
    let mut data: Vec<u8> = Vec::new();
    data.push(8);
    data.push(10);
    data.push(18);
    data.push((bytes.len() % 256) as u8);
    let mut i: usize = 0;
    while i < bytes.len()
        invariant
            i <= bytes@.len(),
            data@ == seq![8u8, 10u8, 18u8, (bytes@.len() % 256) as u8] + bytes@.subrange(0, i as int),
        decreases bytes@.len() - i,
    {
        data.push(bytes[i]);
        i = i + 1;
        proof {
            assert(data@ =~= seq![8u8, 10u8, 18u8, (bytes@.len() % 256) as u8] + bytes@.subrange(
                0,
                i as int,
            ));
        }
    }
    proof {
        assert(bytes@.subrange(0, bytes@.len() as int) =~= bytes@);
    }
    let text = base64_encode(data.as_slice());
    let replaced = replace_byte(text.as_slice(), 61, 46);
    assert(replaced@ =~= dotted(text@));
    string_from_utf8_lossy(replaced.as_slice())
}

/// How many panoramas one request asks for.
pub const MAX_PANOS_PER_REQUEST: u32 = 3000;

/// An answer with this many panoramas or more may have been cut off.
pub const TOO_MANY_PANOS: usize = 2900;

/// How many ids one metadata request may name.
pub const METADATA_BATCH: usize = 200;

/// How many times a metadata request is made before it is given up.
pub const MAX_ATTEMPTS: u32 = 10;

/// The pause before a metadata request is made again, in milliseconds.
pub const RETRY_DELAY_MILLIS: u64 = 1000;

/// The radius in metres to ask for around the centre of a tile whose corner
/// is `corner_to_center` millimetres from it: 5 m more, rounded up.
pub open spec fn radius_for(corner_to_center: u64) -> int {
    (corner_to_center + 5000 + 999) / 1000
}

/// See [`radius_for`]. A radius beyond the range of the result is given as
/// the greatest value.
pub fn request_radius(corner_to_center: u64) -> (meters: u32)
    ensures
        meters == if radius_for(corner_to_center) > u32::MAX {
            u32::MAX as int
        } else {
            radius_for(corner_to_center)
        },
{
    let meters: u128 = (corner_to_center as u128 + 5999) / 1000;
    if meters > u32::MAX as u128 {
        u32::MAX
    } else {
        meters as u32
    }
}

/// Whether an answer of `count` panoramas for `tile` is to be dropped as
/// cut off: it holds 2,900 or more and a finer tile can be asked for.
pub fn is_too_many(count: usize, tile: &SizedTile) -> (dropped: bool)
    ensures
        dropped == (count >= 2900 && tile.size != 16),
{
    count >= TOO_MANY_PANOS && tile.size != SMALL_TILE_SIZE
}

/// What to do after a metadata request.
#[derive(Clone, Copy, Debug, PartialEq, Eq, Structural)]
pub enum Attempt {
    /// The answer can be read.
    Read,
    /// Wait `RETRY_DELAY_MILLIS` and ask again.
    Retry,
    /// Fail the whole batch.
    GiveUp,
}

/// What to do after the `attempt_number`-th metadata request, the first
/// being number 1, given whether the answer held the list asked for.
pub fn after_attempt(attempt_number: u32, answered: bool) -> (next: Attempt)
    ensures
        next == if answered {
            Attempt::Read
        } else if attempt_number >= 10 {
            Attempt::GiveUp
        } else {
            Attempt::Retry
        },
{
    if answered {
        Attempt::Read
    } else if attempt_number >= MAX_ATTEMPTS {
        Attempt::GiveUp
    } else {
        Attempt::Retry
    }
}

/// The batches in which the metadata of `count` panoramas is asked for: the
/// ranges of at most 200 that cover them in order.
pub open spec fn batches(count: int) -> Seq<(usize, usize)> {
    Seq::new(
        ((count + 199) / 200) as nat,
        |i: int|
            (
                (200 * i) as usize,
                if 200 * i + 200 < count {
                    (200 * i + 200) as usize
                } else {
                    count as usize
                },
            ),
    )
}

/// See [`batches`].
pub fn metadata_batches(count: usize) -> (ranges: Vec<(usize, usize)>)
    ensures
        ranges@ == batches(count as int),
{
    let mut ranges: Vec<(usize, usize)> = Vec::new();
    let mut start: usize = 0;
    while start < count
        invariant
            start <= count || ranges@.len() * 200 >= count,
            start == ranges@.len() * 200 || start == count,
            start == count ==> ranges@.len() == (count + 199) / 200,
            start < count ==> start == ranges@.len() * 200,
            forall|i: int| 0 <= i < ranges@.len() ==> (#[trigger] ranges@[i]) == batches(count as int)[i],
            ranges@.len() <= (count + 199) / 200,
        decreases count - start,
    {
        let end: usize = if count - start > METADATA_BATCH {
            start + METADATA_BATCH
        } else {
            count
        };
        ranges.push((start, end));
        start = end;
    }
    proof {
        assert(ranges@ =~= batches(count as int));
    }
    ranges
}

/// Whether the panorama at index `a` comes before the one at index `b` when
/// the panoramas are put in order of latitude and, at one latitude, kept in
/// the order in which they were listed.
pub open spec fn comes_before(locations: Seq<Location>, a: int, b: int) -> bool {
    locations[a].lat.0 < locations[b].lat.0 || (locations[a].lat.0 == locations[b].lat.0 && a < b)
}

/// `picked` holds the indices of the first `count` locations that lie in
/// `bounds`, each once, in order of latitude.
pub open spec fn is_selection(
    locations: Seq<Location>,
    bounds: TileBounds,
    count: int,
    picked: Seq<usize>,
) -> bool {
    &&& forall|k: int|
        0 <= k < picked.len() ==> (#[trigger] picked[k]) < count && bounds.contains(
            locations[picked[k] as int],
        )
    &&& forall|k: int, l: int|
        #![trigger picked[k], picked[l]]
        0 <= k < l < picked.len() ==> comes_before(locations, picked[k] as int, picked[l] as int)
    &&& forall|i: int|
        0 <= i < count && bounds.contains(#[trigger] locations[i]) ==> exists|k: int|
            0 <= k < picked.len() && #[trigger] picked[k] == i
}

/// The indices of the panoramas that lie in the tile, in order of latitude
/// from south to north; panoramas at one latitude keep their order.
pub fn select_in_tile(locations: &Vec<Location>, bounds: &TileBounds) -> (picked: Vec<usize>)
    ensures
        is_selection(locations@, *bounds, locations@.len() as int, picked@),
{
    let mut picked: Vec<usize> = Vec::new();
    let mut i: usize = 0;
    while i < locations.len()
        invariant
            i <= locations@.len(),
            is_selection(locations@, *bounds, i as int, picked@),
        decreases locations@.len() - i,
    {
        let loc = locations[i];
        if bounds.includes(loc) {
            let mut at: usize = picked.len();
            while at > 0 && locations[picked[at - 1]].lat.0 > loc.lat.0
                invariant
                    at <= picked@.len(),
                    i < locations@.len(),
                    loc == locations@[i as int],
                    is_selection(locations@, *bounds, i as int, picked@),
                    forall|k: int|
                        at <= k < picked@.len() ==> locations@[(#[trigger] picked@[k]) as int].lat.0
                            > loc.lat.0,
                decreases at,
            {
                at = at - 1;
            }
            let ghost before = picked@;
            picked.insert(at, i);
            proof {
                assert forall|k: int| 0 <= k < at implies locations@[(#[trigger] before[k]) as int].lat.0
                    <= loc.lat.0 by {
                    if k < at - 1 {
                        assert(comes_before(locations@, before[k] as int, before[at - 1] as int));
                    }
                }
                assert forall|k: int, l: int|
                    #![trigger picked@[k], picked@[l]]
                    0 <= k < l < picked@.len() implies comes_before(
                    locations@,
                    picked@[k] as int,
                    picked@[l] as int,
                ) by {
                    if l < at {
                        assert(comes_before(locations@, before[k] as int, before[l] as int));
                    } else if l == at {
                        assert(picked@[k] == before[k]);
                    } else if k == at {
                        assert(picked@[l] == before[l - 1]);
                    } else if k < at {
                        assert(comes_before(locations@, before[k] as int, before[l - 1] as int));
                    } else {
                        assert(comes_before(
                            locations@,
                            before[k - 1] as int,
                            before[l - 1] as int,
                        ));
                    }
                }
                assert forall|j: int|
                    0 <= j < i + 1 && bounds.contains(#[trigger] locations@[j]) implies exists|k: int|
                    0 <= k < picked@.len() && #[trigger] picked@[k] == j by {
                    if j == i {
                        assert(picked@[at as int] == j);
                    } else {
                        let k = choose|k: int| 0 <= k < before.len() && #[trigger] before[k] == j;
                        if k < at {
                            assert(picked@[k] == j);
                        } else {
                            assert(picked@[k + 1] == j);
                        }
                    }
                }
                assert forall|k: int| 0 <= k < picked@.len() implies (#[trigger] picked@[k]) < i + 1
                    && bounds.contains(locations@[picked@[k] as int]) by {
                    if k < at {
                        assert(picked@[k] == before[k]);
                    } else if k > at {
                        assert(picked@[k] == before[k - 1]);
                    }
                }
            }
        }
        i = i + 1;
    }
    picked
}

} // verus!
