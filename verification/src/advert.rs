//! BLE advertising data: a run of AD structures, each a length byte, a type byte and its data.
use crate::bytes;
use vstd::prelude::*;

verus! {

/// AD type of an incomplete list of 16-bit service UUIDs.
pub const INCOMPLETE_UUID16: u8 = 0x02;

/// AD type of the complete list of 16-bit service UUIDs.
pub const COMPLETE_UUID16: u8 = 0x03;

/// The cycling speed and cadence service.
pub const CSC_SERVICE: u16 = 0x1816;

/// The structures that advertising data holds, each with its type and its data. A zero length
/// ends them, and so does one that points past the end.
pub open spec fn ad_structures(data: Seq<u8>) -> Seq<(u8, Seq<u8>)>
    decreases data.len(),
{
    if data.len() == 0 || data[0] == 0 || 1 + data[0] > data.len() {
        Seq::empty()
    } else {
        seq![(data[1], data.subrange(2, 1 + data[0]))] + ad_structures(data.skip(1 + data[0]))
    }
}

/// Entry `j` of a list of 16-bit UUIDs.
pub open spec fn uuid16_at(list: Seq<u8>, j: int) -> nat {
    bytes::le_value(seq![list[2 * j], list[2 * j + 1]])
}

/// Whether a structure is a list of 16-bit UUIDs and `target` is among its entries.
pub open spec fn lists_uuid16(structure: (u8, Seq<u8>), target: u16) -> bool {
    &&& structure.0 == INCOMPLETE_UUID16 || structure.0 == COMPLETE_UUID16
    &&& exists|j: int|
        0 <= j && 2 * j + 1 < structure.1.len() && #[trigger] uuid16_at(structure.1, j) == target
}

/// Whether advertising data names the 16-bit service UUID `target`.
pub open spec fn advertises(data: Seq<u8>, target: u16) -> bool {
    exists|k: int|
        0 <= k < ad_structures(data).len() && lists_uuid16(#[trigger] ad_structures(data)[k], target)
}

proof fn lemma_advertises_step(data: Seq<u8>, target: u16)
    requires
        data.len() > 0,
        data[0] != 0,
        1 + data[0] <= data.len(),
    ensures
        advertises(data, target) <==> lists_uuid16(
            (data[1], data.subrange(2, 1 + data[0])),
            target,
        ) || advertises(data.skip(1 + data[0]), target),
{
    let first = (data[1], data.subrange(2, 1 + data[0]));
    let rest = ad_structures(data.skip(1 + data[0]));
    assert(ad_structures(data) == seq![first] + rest);
    if lists_uuid16(first, target) {
        assert(ad_structures(data)[0] == first);
    }
    if advertises(data.skip(1 + data[0]), target) {
        let k = choose|k: int| 0 <= k < rest.len() && lists_uuid16(#[trigger] rest[k], target);
        assert(ad_structures(data)[k + 1] == rest[k]);
    }
    if advertises(data, target) {
        let k = choose|k: int|
            0 <= k < ad_structures(data).len() && lists_uuid16(
                #[trigger] ad_structures(data)[k],
                target,
            );
        if k > 0 {
            assert(rest[k - 1] == ad_structures(data)[k]);
        }
    }
}

/// Whether `target` is an entry of the UUID list that stands in `data` from `from` up to `to`.
fn list_has_uuid16(data: &[u8], from: usize, to: usize, target: u16) -> (r: bool)
    requires
        from <= to <= data.len(),
    ensures
        r <==> exists|j: int|
            0 <= j && 2 * j + 1 < to - from && #[trigger] uuid16_at(
                data@.subrange(from as int, to as int),
                j,
            ) == target,
{
    let ghost list = data@.subrange(from as int, to as int);
    let len = to - from;
    let mut at: usize = 0;
    let ghost mut n: int = 0;
    while len - at >= 2
        invariant
            from <= to <= data.len(),
            len == to - from,
            list == data@.subrange(from as int, to as int),
            at <= len,
            at == 2 * n,
            0 <= n,
            forall|j: int| 0 <= j < n ==> #[trigger] uuid16_at(list, j) != target,
        decreases len - at,
    {
        let uuid = bytes::read16(data[from + at], data[from + at + 1]);
        assert(uuid == uuid16_at(list, n));
        if uuid == target {
            return true;
        }
        at = at + 2;
        proof {
            n = n + 1;
        }
    }
    false
}

/// Whether advertising data names the 16-bit service UUID `target`.
pub fn ad_has_uuid16(data: &[u8], target: u16) -> (r: bool)
    ensures
        r <==> advertises(data@, target),
{
    let mut i: usize = 0;
    assert(data@.skip(0) =~= data@);
    while i < data.len()
        invariant
            i <= data.len(),
            advertises(data@, target) <==> advertises(data@.skip(i as int), target),
        decreases data.len() - i,
    {
        let len = data[i] as usize;
        let ghost here = data@.skip(i as int);
        if len == 0 || len > data.len() - i - 1 {
            return false;
        }
        let ad_type = data[i + 1];
        proof {
            lemma_advertises_step(here, target);
            assert(here.subrange(2, 1 + here[0]) =~= data@.subrange(i + 2, i + 1 + len));
            assert(here.skip(1 + here[0]) =~= data@.skip(i + 1 + len));
        }
        if ad_type == INCOMPLETE_UUID16 || ad_type == COMPLETE_UUID16 {
            if list_has_uuid16(data, i + 2, i + 1 + len, target) {
                proof {
                    let list = data@.subrange(i + 2, i + 1 + len);
                    let j = choose|j: int|
                        0 <= j && 2 * j + 1 < len - 1 && #[trigger] uuid16_at(list, j) == target;
                    let structure = (here[1], here.subrange(2, 1 + here[0]));
                    assert(uuid16_at(structure.1, j) == target);
                    assert(lists_uuid16(structure, target));
                }
                return true;
            }
        }
        i = i + 1 + len;
    }
    false
}

/// Whether a report is taken for the sensor.
pub open spec fn taken(already_found: bool, data: Seq<u8>) -> bool {
    !already_found && advertises(data, CSC_SERVICE)
}

/// Whether an advertising report is to be taken for the sensor: it is the first one since
/// scanning began to name the cadence service.
pub fn is_first_sensor(already_found: bool, data: &[u8]) -> (r: bool)
    ensures
        r <==> !already_found && advertises(data@, CSC_SERVICE),
        r == taken(already_found, data@),
{
    !already_found && ad_has_uuid16(data, CSC_SERVICE)
}

/// The bytes of one structure.
pub open spec fn encode_structure(structure: (u8, Seq<u8>)) -> Seq<u8> {
    seq![(1 + structure.1.len()) as u8, structure.0] + structure.1
}

/// The bytes of a run of structures.
pub open spec fn encode_structures(structures: Seq<(u8, Seq<u8>)>) -> Seq<u8>
    decreases structures.len(),
{
    if structures.len() == 0 {
        Seq::empty()
    } else {
        encode_structure(structures[0]) + encode_structures(structures.skip(1))
    }
}

/// Whatever follows them, well-formed structures are found as they were written, in order, and
/// what follows is read on its own.
pub proof fn law_structures_roundtrip(structures: Seq<(u8, Seq<u8>)>, rest: Seq<u8>)
    requires
        forall|k: int| 0 <= k < structures.len() ==> (#[trigger] structures[k]).1.len() < 255,
    ensures
        ad_structures(encode_structures(structures) + rest) == structures + ad_structures(rest),
    decreases structures.len(),
{
    let data = encode_structures(structures) + rest;
    if structures.len() == 0 {
        assert(data =~= rest);
        assert(structures + ad_structures(rest) =~= ad_structures(rest));
    } else {
        let tail = structures.skip(1);
        let first = structures[0];
        assert forall|k: int| 0 <= k < tail.len() implies (#[trigger] tail[k]).1.len() < 255 by {
            assert(tail[k] == structures[k + 1]);
        }
        law_structures_roundtrip(tail, rest);
        assert(data =~= encode_structure(first) + (encode_structures(tail) + rest));
        assert(data[0] == 1 + first.1.len());
        assert(data.skip(1 + data[0]) =~= encode_structures(tail) + rest);
        assert(data.subrange(2, 1 + data[0]) =~= first.1);
        assert(ad_structures(data) =~= structures + ad_structures(rest));
    }
}

/// Zero padding, and whatever stands behind it, is never taken for a service.
pub proof fn law_padding_is_ignored(structures: Seq<(u8, Seq<u8>)>, junk: Seq<u8>, target: u16)
    requires
        forall|k: int| 0 <= k < structures.len() ==> (#[trigger] structures[k]).1.len() < 255,
    ensures
        advertises(encode_structures(structures) + (seq![0u8] + junk), target) <==> exists|k: int|
            0 <= k < structures.len() && lists_uuid16(#[trigger] structures[k], target),
{
    law_structures_roundtrip(structures, seq![0u8] + junk);
    assert(structures + ad_structures(seq![0u8] + junk) =~= structures);
}

/// A service is found exactly where it is listed: data made of well-formed structures names a
/// service if, and only if, one of them is of type 2 or 3 and has the service's two bytes, low byte
/// first, at an even place of its list.
pub proof fn law_services_are_found_where_listed(
    structures: Seq<(u8, Seq<u8>)>,
    target: u16,
)
    requires
        forall|k: int| 0 <= k < structures.len() ==> (#[trigger] structures[k]).1.len() < 255,
    ensures
        advertises(encode_structures(structures), target) <==> exists|k: int, j: int|
            #![trigger structures[k].1[2 * j]]
            0 <= k < structures.len() && (structures[k].0 == 2 || structures[k].0 == 3) && 0 <= j
                && 2 * j + 1 < structures[k].1.len() && structures[k].1[2 * j] + 256
                * structures[k].1[2 * j + 1] == target,
{
    let data = encode_structures(structures);
    law_structures_roundtrip(structures, Seq::empty());
    assert(data + Seq::<u8>::empty() =~= data);
    assert(structures + ad_structures(Seq::empty()) =~= structures);
    assert(ad_structures(data) == structures);
    if advertises(data, target) {
        let k = choose|k: int|
            0 <= k < structures.len() && lists_uuid16(#[trigger] structures[k], target);
        let list = structures[k].1;
        let j = choose|j: int|
            0 <= j && 2 * j + 1 < list.len() && #[trigger] uuid16_at(list, j) == target;
        bytes::law_bytes_weigh_in_order(seq![list[2 * j], list[2 * j + 1]]);
        assert(structures[k].1[2 * j] + 256 * structures[k].1[2 * j + 1] == target);
    }
    if exists|k: int, j: int|
        #![trigger structures[k].1[2 * j]]
        0 <= k < structures.len() && (structures[k].0 == 2 || structures[k].0 == 3) && 0 <= j && 2
            * j + 1 < structures[k].1.len() && structures[k].1[2 * j] + 256 * structures[k].1[2 * j
            + 1] == target {
        let (k, j) = choose|k: int, j: int|
            #![trigger structures[k].1[2 * j]]
            0 <= k < structures.len() && (structures[k].0 == 2 || structures[k].0 == 3) && 0 <= j
                && 2 * j + 1 < structures[k].1.len() && structures[k].1[2 * j] + 256
                * structures[k].1[2 * j + 1] == target;
        let list = structures[k].1;
        bytes::law_bytes_weigh_in_order(seq![list[2 * j], list[2 * j + 1]]);
        assert(uuid16_at(list, j) == target);
        assert(lists_uuid16(structures[k], target));
    }
}

/// A structure that is cut short does not count, and what stands before it does.
pub proof fn law_cut_structures_do_not_count(
    structures: Seq<(u8, Seq<u8>)>,
    len: u8,
    cut: Seq<u8>,
    target: u16,
)
    requires
        forall|k: int| 0 <= k < structures.len() ==> (#[trigger] structures[k]).1.len() < 255,
        cut.len() < len,
    ensures
        advertises(encode_structures(structures) + (seq![len] + cut), target) <==> advertises(
            encode_structures(structures),
            target,
        ),
{
    let data = encode_structures(structures);
    law_structures_roundtrip(structures, seq![len] + cut);
    law_structures_roundtrip(structures, Seq::empty());
    assert(data + Seq::<u8>::empty() =~= data);
    assert(structures + ad_structures(seq![len] + cut) =~= structures);
    assert(structures + ad_structures(Seq::empty()) =~= structures);
}

/// The first report that lists the service 0x1816 is taken, wherever and under whichever of the two
/// types it is listed; a later one is not, and neither is one that does not list it.
pub proof fn law_first_sensor_is_taken(structures: Seq<(u8, Seq<u8>)>)
    requires
        forall|k: int| 0 <= k < structures.len() ==> (#[trigger] structures[k]).1.len() < 255,
    ensures
        !taken(true, encode_structures(structures)),
        taken(false, encode_structures(structures)) <==> exists|k: int, j: int|
            #![trigger structures[k].1[2 * j]]
            0 <= k < structures.len() && (structures[k].0 == 2 || structures[k].0 == 3) && 0 <= j
                && 2 * j + 1 < structures[k].1.len() && structures[k].1[2 * j] == 0x16
                && structures[k].1[2 * j + 1] == 0x18,
{
    law_services_are_found_where_listed(structures, CSC_SERVICE);
    assert forall|k: int, j: int|
        0 <= k < structures.len() && 0 <= j && 2 * j + 1 < structures[k].1.len() implies (
    #[trigger] structures[k].1[2 * j] + 256 * structures[k].1[2 * j + 1] == 0x1816 <==> (
    structures[k].1[2 * j] == 0x16 && structures[k].1[2 * j + 1] == 0x18)) by {
    }
}

} // verus!
